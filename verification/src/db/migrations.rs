//! Which schema migrations a database still needs.

use vstd::prelude::*;

verus! {

/// The schema version this library writes.
pub const LATEST_SCHEMA_VERSION: u32 = 4;

/// The first migration that a database at schema `version` still needs.
pub open spec fn first_pending(version: i32) -> int {
    if version < 0 {
        1
    } else {
        version + 1
    }
}

/// The migrations that a database at `version` still needs, oldest first:
/// every version from `version + 1` (at least 1) up to the latest, each once.
pub fn pending_migrations(version: i32) -> (r: Vec<u32>)
    ensures
        r@.len() == (if first_pending(version) > LATEST_SCHEMA_VERSION { 0 } else {
            LATEST_SCHEMA_VERSION - first_pending(version) + 1
        }),
        forall|k: int| 0 <= k < r@.len() ==> #[trigger] r@[k] == first_pending(version) + k,
{
    let mut r: Vec<u32> = Vec::new();
    let mut v: u32 = 1;
    while v <= LATEST_SCHEMA_VERSION
        invariant
            1 <= v <= LATEST_SCHEMA_VERSION + 1,
            r@.len() == (if first_pending(version) >= v { 0 } else { v - first_pending(
                version,
            ) }),
            forall|k: int| 0 <= k < r@.len() ==> #[trigger] r@[k] == first_pending(version) + k,
        decreases LATEST_SCHEMA_VERSION + 1 - v,
    {
        if version < v as i32 {
            r.push(v);
        }
        v = v + 1;
    }
    r
}

/// The statements that bring a database from schema `version - 1` to
/// `version`.
pub open spec fn migration_text(version: u32) -> Seq<char> {
    if version == 1 {
        "
        CREATE TABLE IF NOT EXISTS schema_version (
            version INTEGER PRIMARY KEY,
            applied_at TEXT NOT NULL DEFAULT (datetime('now'))
        );

        CREATE TABLE IF NOT EXISTS projects (
            id TEXT PRIMARY KEY,
            name TEXT NOT NULL,
            path TEXT NOT NULL UNIQUE,
            artist TEXT,
            bpm REAL,
            musical_key TEXT,
            root_note TEXT,
            tags TEXT,
            daw_type TEXT,
            last_opened TEXT,
            created_at TEXT NOT NULL,
            updated_at TEXT NOT NULL
        );

        CREATE TABLE IF NOT EXISTS settings (
            key TEXT PRIMARY KEY,
            value TEXT NOT NULL,
            updated_at TEXT NOT NULL DEFAULT (datetime('now'))
        );

        CREATE TABLE IF NOT EXISTS lyrics (
            id TEXT PRIMARY KEY,
            project_id TEXT NOT NULL,
            content TEXT NOT NULL DEFAULT '',
            created_at TEXT NOT NULL,
            updated_at TEXT NOT NULL,
            FOREIGN KEY (project_id) REFERENCES projects(id) ON DELETE CASCADE
        );

        CREATE TABLE IF NOT EXISTS backup_rules (
            id TEXT PRIMARY KEY,
            project_id TEXT,
            max_backups INTEGER NOT NULL DEFAULT 5,
            created_at TEXT NOT NULL,
            updated_at TEXT NOT NULL,
            FOREIGN KEY (project_id) REFERENCES projects(id) ON DELETE CASCADE
        );

        CREATE TABLE IF NOT EXISTS release_checklists (
            id TEXT PRIMARY KEY,
            project_id TEXT NOT NULL,
            items TEXT NOT NULL DEFAULT '[]',
            created_at TEXT NOT NULL,
            updated_at TEXT NOT NULL,
            FOREIGN KEY (project_id) REFERENCES projects(id) ON DELETE CASCADE
        );

        CREATE TABLE IF NOT EXISTS analysis_cache (
            id TEXT PRIMARY KEY,
            project_id TEXT NOT NULL,
            analysis_type TEXT NOT NULL,
            result TEXT NOT NULL,
            created_at TEXT NOT NULL,
            FOREIGN KEY (project_id) REFERENCES projects(id) ON DELETE CASCADE
        );

        INSERT INTO schema_version (version) VALUES (1);
        "@
    } else if version == 2 {
        "
        ALTER TABLE projects ADD COLUMN keywords TEXT;
        ALTER TABLE projects ADD COLUMN notes TEXT NOT NULL DEFAULT '';
        ALTER TABLE projects ADD COLUMN favorite INTEGER NOT NULL DEFAULT 0;

        CREATE TABLE IF NOT EXISTS project_tags (
            id TEXT PRIMARY KEY,
            project_id TEXT NOT NULL,
            tag TEXT NOT NULL COLLATE NOCASE,
            FOREIGN KEY (project_id) REFERENCES projects(id) ON DELETE CASCADE,
            UNIQUE(project_id, tag)
        );

        CREATE INDEX IF NOT EXISTS idx_project_tags_project ON project_tags(project_id);
        CREATE INDEX IF NOT EXISTS idx_project_tags_tag ON project_tags(tag);
        CREATE INDEX IF NOT EXISTS idx_projects_favorite ON projects(favorite);
        CREATE INDEX IF NOT EXISTS idx_projects_bpm ON projects(bpm);

        INSERT INTO schema_version (version) VALUES (2);
        "@
    } else if version == 3 {
        "
        CREATE TABLE IF NOT EXISTS backup_directories (
            id TEXT PRIMARY KEY,
            path TEXT NOT NULL UNIQUE,
            label TEXT,
            recursive INTEGER NOT NULL DEFAULT 1,
            created_at TEXT NOT NULL,
            updated_at TEXT NOT NULL
        );

        CREATE TABLE IF NOT EXISTS backup_excluded_paths (
            id TEXT PRIMARY KEY,
            directory_id TEXT NOT NULL,
            pattern TEXT NOT NULL,
            created_at TEXT NOT NULL,
            FOREIGN KEY (directory_id) REFERENCES backup_directories(id) ON DELETE CASCADE
        );

        CREATE TABLE IF NOT EXISTS backup_scan_history (
            id TEXT PRIMARY KEY,
            directory_id TEXT NOT NULL,
            scanned_at TEXT NOT NULL,
            total_files INTEGER NOT NULL DEFAULT 0,
            files_deleted INTEGER NOT NULL DEFAULT 0,
            space_freed_bytes INTEGER NOT NULL DEFAULT 0,
            status TEXT NOT NULL DEFAULT 'completed',
            error TEXT,
            FOREIGN KEY (directory_id) REFERENCES backup_directories(id) ON DELETE CASCADE
        );

        CREATE INDEX IF NOT EXISTS idx_backup_history_date ON backup_scan_history(scanned_at);
        CREATE INDEX IF NOT EXISTS idx_backup_excluded_dir ON backup_excluded_paths(directory_id);

        INSERT INTO schema_version (version) VALUES (3);
        "@
    } else {
        "
        ALTER TABLE lyrics ADD COLUMN title TEXT;
        ALTER TABLE lyrics ADD COLUMN section TEXT;
        ALTER TABLE lyrics ADD COLUMN language TEXT;

        ALTER TABLE projects ADD COLUMN description TEXT NOT NULL DEFAULT '';

        CREATE INDEX IF NOT EXISTS idx_lyrics_project ON lyrics(project_id);
        CREATE INDEX IF NOT EXISTS idx_checklists_project ON release_checklists(project_id);
        CREATE INDEX IF NOT EXISTS idx_analysis_project ON analysis_cache(project_id);

        INSERT INTO schema_version (version) VALUES (4);
        "@
    }
}

/// The statements of migration `version`, to be run as one batch.
pub fn migration_sql(version: u32) -> (r: &'static str)
    requires
        1 <= version <= LATEST_SCHEMA_VERSION,
    ensures
        r@ == migration_text(version),
{
    if version == 1 {
        "
        CREATE TABLE IF NOT EXISTS schema_version (
            version INTEGER PRIMARY KEY,
            applied_at TEXT NOT NULL DEFAULT (datetime('now'))
        );

        CREATE TABLE IF NOT EXISTS projects (
            id TEXT PRIMARY KEY,
            name TEXT NOT NULL,
            path TEXT NOT NULL UNIQUE,
            artist TEXT,
            bpm REAL,
            musical_key TEXT,
            root_note TEXT,
            tags TEXT,
            daw_type TEXT,
            last_opened TEXT,
            created_at TEXT NOT NULL,
            updated_at TEXT NOT NULL
        );

        CREATE TABLE IF NOT EXISTS settings (
            key TEXT PRIMARY KEY,
            value TEXT NOT NULL,
            updated_at TEXT NOT NULL DEFAULT (datetime('now'))
        );

        CREATE TABLE IF NOT EXISTS lyrics (
            id TEXT PRIMARY KEY,
            project_id TEXT NOT NULL,
            content TEXT NOT NULL DEFAULT '',
            created_at TEXT NOT NULL,
            updated_at TEXT NOT NULL,
            FOREIGN KEY (project_id) REFERENCES projects(id) ON DELETE CASCADE
        );

        CREATE TABLE IF NOT EXISTS backup_rules (
            id TEXT PRIMARY KEY,
            project_id TEXT,
            max_backups INTEGER NOT NULL DEFAULT 5,
            created_at TEXT NOT NULL,
            updated_at TEXT NOT NULL,
            FOREIGN KEY (project_id) REFERENCES projects(id) ON DELETE CASCADE
        );

        CREATE TABLE IF NOT EXISTS release_checklists (
            id TEXT PRIMARY KEY,
            project_id TEXT NOT NULL,
            items TEXT NOT NULL DEFAULT '[]',
            created_at TEXT NOT NULL,
            updated_at TEXT NOT NULL,
            FOREIGN KEY (project_id) REFERENCES projects(id) ON DELETE CASCADE
        );

        CREATE TABLE IF NOT EXISTS analysis_cache (
            id TEXT PRIMARY KEY,
            project_id TEXT NOT NULL,
            analysis_type TEXT NOT NULL,
            result TEXT NOT NULL,
            created_at TEXT NOT NULL,
            FOREIGN KEY (project_id) REFERENCES projects(id) ON DELETE CASCADE
        );

        INSERT INTO schema_version (version) VALUES (1);
        "
    } else if version == 2 {
        "
        ALTER TABLE projects ADD COLUMN keywords TEXT;
        ALTER TABLE projects ADD COLUMN notes TEXT NOT NULL DEFAULT '';
        ALTER TABLE projects ADD COLUMN favorite INTEGER NOT NULL DEFAULT 0;

        CREATE TABLE IF NOT EXISTS project_tags (
            id TEXT PRIMARY KEY,
            project_id TEXT NOT NULL,
            tag TEXT NOT NULL COLLATE NOCASE,
            FOREIGN KEY (project_id) REFERENCES projects(id) ON DELETE CASCADE,
            UNIQUE(project_id, tag)
        );

        CREATE INDEX IF NOT EXISTS idx_project_tags_project ON project_tags(project_id);
        CREATE INDEX IF NOT EXISTS idx_project_tags_tag ON project_tags(tag);
        CREATE INDEX IF NOT EXISTS idx_projects_favorite ON projects(favorite);
        CREATE INDEX IF NOT EXISTS idx_projects_bpm ON projects(bpm);

        INSERT INTO schema_version (version) VALUES (2);
        "
    } else if version == 3 {
        "
        CREATE TABLE IF NOT EXISTS backup_directories (
            id TEXT PRIMARY KEY,
            path TEXT NOT NULL UNIQUE,
            label TEXT,
            recursive INTEGER NOT NULL DEFAULT 1,
            created_at TEXT NOT NULL,
            updated_at TEXT NOT NULL
        );

        CREATE TABLE IF NOT EXISTS backup_excluded_paths (
            id TEXT PRIMARY KEY,
            directory_id TEXT NOT NULL,
            pattern TEXT NOT NULL,
            created_at TEXT NOT NULL,
            FOREIGN KEY (directory_id) REFERENCES backup_directories(id) ON DELETE CASCADE
        );

        CREATE TABLE IF NOT EXISTS backup_scan_history (
            id TEXT PRIMARY KEY,
            directory_id TEXT NOT NULL,
            scanned_at TEXT NOT NULL,
            total_files INTEGER NOT NULL DEFAULT 0,
            files_deleted INTEGER NOT NULL DEFAULT 0,
            space_freed_bytes INTEGER NOT NULL DEFAULT 0,
            status TEXT NOT NULL DEFAULT 'completed',
            error TEXT,
            FOREIGN KEY (directory_id) REFERENCES backup_directories(id) ON DELETE CASCADE
        );

        CREATE INDEX IF NOT EXISTS idx_backup_history_date ON backup_scan_history(scanned_at);
        CREATE INDEX IF NOT EXISTS idx_backup_excluded_dir ON backup_excluded_paths(directory_id);

        INSERT INTO schema_version (version) VALUES (3);
        "
    } else {
        "
        ALTER TABLE lyrics ADD COLUMN title TEXT;
        ALTER TABLE lyrics ADD COLUMN section TEXT;
        ALTER TABLE lyrics ADD COLUMN language TEXT;

        ALTER TABLE projects ADD COLUMN description TEXT NOT NULL DEFAULT '';

        CREATE INDEX IF NOT EXISTS idx_lyrics_project ON lyrics(project_id);
        CREATE INDEX IF NOT EXISTS idx_checklists_project ON release_checklists(project_id);
        CREATE INDEX IF NOT EXISTS idx_analysis_project ON analysis_cache(project_id);

        INSERT INTO schema_version (version) VALUES (4);
        "
    }
}

} // verus!
