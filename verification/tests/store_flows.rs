use rusqlite::types::Value;
use rusqlite::{params_from_iter, Connection, Row};
use wavepilot::db::migrations::{migration_sql, pending_migrations};
use wavepilot::db::schema::{Lyric, Project, ReleaseChecklist};
use wavepilot::models::backup::{
    AddBackupDirectoryRequest, BackupDirectory, BackupHistoryEntry, BackupScanResult, CleanupResult,
};
use wavepilot::models::lyrics::{CreateLyricRequest, UpdateLyricRequest};
use wavepilot::models::project::{
    ImportProjectRequest, ListProjectsQuery, SortField, SortOrder, UpdateProjectRequest,
};
use wavepilot::models::releases::{ChecklistItem, CreateChecklistRequest};
use wavepilot::services::analysis::{cache_analysis_statement, cached_analysis_query, cached_result_index};
use wavepilot::services::backup::{
    add_backup_directory_plan, add_directory_error, backup_directory_from_row,
    cleanup_history_record, collect_backup_files, find_backup_directory, get_cleanup_history,
    history_entry_from_row, list_backup_directories, remove_backup_directory, scan_result,
    tally_cleanup, DeletionOutcome, FileMetadata, FileProbe,
};
use wavepilot::services::lyrics::{
    create_lyric_plan, delete_lyric, list_lyrics_for_project, search_lyrics, update_lyric,
};
use wavepilot::services::project::{
    favorite_flag, get_project_by_id, get_project_tags, import_project_plan,
    list_projects_statement, path_taken, project_exists_by_path, toggle_favorite,
    update_project_plan,
};
use wavepilot::services::releases::{
    append_item, create_checklist_plan, default_checklist_items, delete_checklist, get_checklist,
    get_checklist_for_project, remove_item, save_items, set_item_done,
};
use wavepilot::services::settings::{get_settings, read_settings, reset_settings, update_setting};
use wavepilot::sql::{SqlValue, Statement};
use wavepilot::utils::{resolve_canonical_path, PathProbe};

// ---------------------------------------------------------------- the store

fn open() -> Connection {
    let conn = Connection::open_in_memory().unwrap();
    conn.execute_batch("PRAGMA foreign_keys=ON;").unwrap();
    for v in pending_migrations(0) {
        conn.execute_batch(migration_sql(v)).unwrap();
    }
    conn
}

fn bound(st: &Statement) -> Vec<Value> {
    st.params
        .iter()
        .map(|v| match v {
            SqlValue::Null => Value::Null,
            SqlValue::Int(i) => Value::Integer(*i),
            SqlValue::UInt(u) => Value::Integer(i64::try_from(*u).unwrap()),
            SqlValue::Real(b) => Value::Real(f64::from_bits(*b)),
            SqlValue::Text(s) => Value::Text(s.clone()),
        })
        .collect()
}

fn exec(conn: &Connection, st: &Statement) -> Result<usize, String> {
    conn.execute(&st.sql, params_from_iter(bound(st))).map_err(|e| e.to_string())
}

fn all<T>(conn: &Connection, st: &Statement, map: impl FnMut(&Row<'_>) -> rusqlite::Result<T>) -> Vec<T> {
    let mut stmt = conn.prepare(&st.sql).unwrap();
    let rows: Vec<rusqlite::Result<T>> = stmt.query_map(params_from_iter(bound(st)), map).unwrap().collect();
    wavepilot::utils::collect_ok(rows)
}

fn one<T>(conn: &Connection, st: &Statement, map: impl FnOnce(&Row<'_>) -> rusqlite::Result<T>) -> rusqlite::Result<T> {
    conn.query_row(&st.sql, params_from_iter(bound(st)), map)
}

fn row_to_project(row: &Row) -> rusqlite::Result<Project> {
    let bpm: Option<f64> = row.get(4)?;
    Ok(Project {
        id: row.get(0)?,
        name: row.get(1)?,
        path: row.get(2)?,
        artist: row.get(3)?,
        bpm_bits: bpm.map(f64::to_bits),
        musical_key: row.get(5)?,
        root_note: row.get(6)?,
        tags: row.get(7)?,
        keywords: row.get(8)?,
        notes: row.get(9)?,
        description: row.get(10)?,
        favorite: favorite_flag(row.get(11)?),
        daw_type: row.get(12)?,
        last_opened: row.get(13)?,
        created_at: row.get(14)?,
        updated_at: row.get(15)?,
    })
}

fn row_to_lyric(row: &Row) -> rusqlite::Result<Lyric> {
    Ok(Lyric {
        id: row.get(0)?,
        project_id: row.get(1)?,
        title: row.get(2)?,
        content: row.get(3)?,
        section: row.get(4)?,
        language: row.get(5)?,
        created_at: row.get(6)?,
        updated_at: row.get(7)?,
    })
}

fn row_to_checklist(row: &Row) -> rusqlite::Result<ReleaseChecklist> {
    Ok(ReleaseChecklist {
        id: row.get(0)?,
        project_id: row.get(1)?,
        items: row.get(2)?,
        created_at: row.get(3)?,
        updated_at: row.get(4)?,
    })
}

fn row_to_directory(row: &Row) -> rusqlite::Result<BackupDirectory> {
    Ok(backup_directory_from_row(row.get(0)?, row.get(1)?, row.get(2)?, row.get(3)?, row.get(4)?, row.get(5)?))
}

fn row_to_history(row: &Row) -> rusqlite::Result<BackupHistoryEntry> {
    Ok(history_entry_from_row(
        row.get(0)?,
        row.get(1)?,
        row.get(2)?,
        row.get(3)?,
        row.get(4)?,
        row.get(5)?,
        row.get(6)?,
        row.get(7)?,
        row.get(8)?,
    ))
}

// ---------------------------------------------------------------- operations

fn import(conn: &Connection, req: ImportProjectRequest, probe: PathProbe) -> Result<Project, String> {
    let canonical = resolve_canonical_path(&req.path, probe)?;
    let count: i32 = one(conn, &project_exists_by_path(&canonical), |r| r.get(0)).unwrap();
    let plan = import_project_plan(req, canonical, path_taken(count))?;
    exec(conn, &plan.insert)?;
    for st in &plan.tag_inserts {
        exec(conn, st)?;
    }
    Ok(plan.project)
}

fn import_test_project(conn: &Connection, name: &str, path: &str, artist: Option<&str>) -> Project {
    let req = ImportProjectRequest {
        name: name.to_string(),
        path: path.to_string(),
        artist: artist.map(String::from),
        daw_type: Some("ableton".to_string()),
        tags: Some(vec!["electronic".to_string(), "ambient".to_string()]),
        keywords: Some("chill, study".to_string()),
        notes: Some("Test project".to_string()),
    };
    import(conn, req, PathProbe::Resolved(path.to_string())).expect("Import should succeed")
}

fn bare_import(name: &str, path: &str) -> ImportProjectRequest {
    ImportProjectRequest {
        name: name.to_string(),
        path: path.to_string(),
        artist: None,
        daw_type: None,
        tags: None,
        keywords: None,
        notes: None,
    }
}

fn list(conn: &Connection, q: &ListProjectsQuery) -> Vec<Project> {
    all(conn, &list_projects_statement(q), row_to_project)
}

fn update(conn: &Connection, req: &UpdateProjectRequest) -> Result<Project, String> {
    let plan = update_project_plan(req);
    if let Some(st) = &plan.update {
        exec(conn, st)?;
    }
    for st in &plan.tag_statements {
        exec(conn, st)?;
    }
    one(conn, &plan.reload, row_to_project).map_err(|e| e.to_string())
}

fn toggle(conn: &Connection, id: &str) -> bool {
    let (flip, read) = toggle_favorite(id);
    exec(conn, &flip).unwrap();
    favorite_flag(one(conn, &read, |r| r.get(0)).unwrap())
}

fn no_update(id: &str) -> UpdateProjectRequest {
    UpdateProjectRequest {
        id: id.to_string(),
        name: None,
        artist: None,
        bpm_bits: None,
        musical_key: None,
        root_note: None,
        tags: None,
        keywords: None,
        notes: None,
        description: None,
        favorite: None,
        daw_type: None,
    }
}

fn create_lyric(conn: &Connection, req: CreateLyricRequest) -> Lyric {
    let (st, lyric) = create_lyric_plan(req);
    exec(conn, &st).unwrap();
    lyric
}

fn lyric_request(project_id: &str, title: Option<&str>, content: &str) -> CreateLyricRequest {
    CreateLyricRequest {
        project_id: project_id.to_string(),
        title: title.map(String::from),
        content: content.to_string(),
        section: None,
        language: None,
    }
}

fn items_json(items: &[ChecklistItem]) -> String {
    let parts: Vec<String> = items
        .iter()
        .map(|i| format!("{{\"id\":\"{}\",\"label\":\"{}\",\"done\":{}}}", i.id, i.label, i.done))
        .collect();
    format!("[{}]", parts.join(","))
}

fn parse_items(json: &str) -> Vec<ChecklistItem> {
    let v: serde_json::Value = serde_json::from_str(json).unwrap();
    v.as_array()
        .unwrap()
        .iter()
        .map(|i| ChecklistItem {
            id: i["id"].as_str().unwrap().to_string(),
            label: i["label"].as_str().unwrap().to_string(),
            done: i["done"].as_bool().unwrap(),
        })
        .collect()
}

fn create_checklist(conn: &Connection, project_id: &str) -> ReleaseChecklist {
    let (st, c) = create_checklist_plan(
        CreateChecklistRequest { project_id: project_id.to_string() },
        items_json(&default_checklist_items()),
    );
    exec(conn, &st).unwrap();
    c
}

fn save(conn: &Connection, id: &str, items: &[ChecklistItem]) -> ReleaseChecklist {
    exec(conn, &save_items(id, &items_json(items))).unwrap();
    one(conn, &get_checklist(id), row_to_checklist).unwrap()
}

fn add_directory(conn: &Connection, path: &str, label: Option<&str>) -> Result<BackupDirectory, String> {
    let canonical = resolve_canonical_path(path, PathProbe::Resolved(path.to_string()))?;
    let (st, d) = add_backup_directory_plan(
        AddBackupDirectoryRequest { path: path.to_string(), label: label.map(String::from), recursive: Some(true) },
        canonical,
    );
    exec(conn, &st).map_err(|e| add_directory_error(&e))?;
    Ok(d)
}

fn record_cleanup(conn: &Connection, directory_id: &str, outcomes: &[DeletionOutcome]) -> CleanupResult {
    let result = tally_cleanup(&outcomes.to_vec());
    exec(conn, &cleanup_history_record(directory_id, &result)).unwrap();
    result
}

// ---------------------------------------------------------------- projects

#[test]
fn test_import_project() {
    let conn = open();
    let project = import_test_project(&conn, "Test Track", "/tmp/wp-test-import", Some("Artist"));
    assert_eq!(project.name, "Test Track");
    assert_eq!(project.artist, Some("Artist".to_string()));
    assert_eq!(project.daw_type, Some("ableton".to_string()));
    assert!(!project.id.is_empty());
    assert!(!project.favorite);
    assert!(project.bpm_bits.is_none());

    let tags: Vec<String> = all(&conn, &get_project_tags(&project.id), |r| r.get(0));
    assert_eq!(tags.len(), 2);
    assert!(tags.contains(&"electronic".to_string()));
    assert!(tags.contains(&"ambient".to_string()));
}

#[test]
fn test_duplicate_detection() {
    let conn = open();
    import_test_project(&conn, "Project A", "/tmp/wp-test-dup-a", None);
    let result = import(
        &conn,
        bare_import("Duplicate", "/tmp/wp-test-dup-a"),
        PathProbe::Resolved("/tmp/wp-test-dup-a".to_string()),
    );
    assert!(result.is_err());
    assert!(result.unwrap_err().contains("already imported"));
}

#[test]
fn test_path_validation() {
    let conn = open();
    let result = import(&conn, bare_import("Ghost", "/tmp/wp-test-nonexistent-99999"), PathProbe::Missing);
    assert!(result.is_err());
    assert!(result.unwrap_err().contains("does not exist"));
}

#[test]
fn import_without_notes_is_refused_by_the_store() {
    // the notes column is NOT NULL, and an import binds the notes as given
    let conn = open();
    let result = import(&conn, bare_import("No notes", "/tmp/wp-test-nonotes"), PathProbe::Resolved("/tmp/wp-test-nonotes".to_string()));
    assert!(result.unwrap_err().contains("NOT NULL constraint failed: projects.notes"));
}

#[test]
fn test_sort_by_name() {
    let conn = open();
    import_test_project(&conn, "Beta", "/tmp/wp-test-name-beta", None);
    import_test_project(&conn, "Alpha", "/tmp/wp-test-name-alpha", None);
    let mut q = ListProjectsQuery::default();
    q.sort_by = Some(SortField::Name);
    q.sort_order = Some(SortOrder::Asc);
    let projects = list(&conn, &q);
    assert_eq!(projects[0].name, "Alpha");
    assert_eq!(projects[1].name, "Beta");
}

#[test]
fn test_search_by_name() {
    let conn = open();
    import_test_project(&conn, "My Track", "/tmp/wp-test-search1", None);
    import_test_project(&conn, "Another Track", "/tmp/wp-test-search2", None);
    import_test_project(&conn, "Something Else", "/tmp/wp-test-search3", None);
    let mut q = ListProjectsQuery::default();
    q.search = Some("Track".to_string());
    assert_eq!(list(&conn, &q).len(), 2);
}

#[test]
fn test_search_by_artist() {
    let conn = open();
    import_test_project(&conn, "Song 1", "/tmp/wp-test-art1", Some("Artist1"));
    import_test_project(&conn, "Song 2", "/tmp/wp-test-art2", Some("Artist2"));
    let mut q = ListProjectsQuery::default();
    q.artist = Some("Artist1".to_string());
    let projects = list(&conn, &q);
    assert_eq!(projects.len(), 1);
    assert_eq!(projects[0].name, "Song 1");
}

#[test]
fn test_toggle_favorite() {
    let conn = open();
    let project = import_test_project(&conn, "Fav Test", "/tmp/wp-test-fav", None);
    assert!(!project.favorite);
    assert!(toggle(&conn, &project.id));
    let updated = one(&conn, &get_project_by_id(&project.id), row_to_project).unwrap();
    assert!(updated.favorite);
    assert!(!toggle(&conn, &project.id));
}

#[test]
fn test_update_project() {
    let conn = open();
    let project = import_test_project(&conn, "Original", "/tmp/wp-test-update", None);
    let mut req = no_update(&project.id);
    req.name = Some("Updated".to_string());
    req.bpm_bits = Some(128.0f64.to_bits());
    req.musical_key = Some("Cm".to_string());
    let updated = update(&conn, &req).expect("Should update");
    assert_eq!(updated.name, "Updated");
    assert_eq!(updated.bpm_bits.map(f64::from_bits), Some(128.0));
    assert_eq!(updated.musical_key, Some("Cm".to_string()));
}

#[test]
fn test_delete_project() {
    let conn = open();
    let project = import_test_project(&conn, "Delete Me", "/tmp/wp-test-delete", None);
    exec(&conn, &wavepilot::services::project::delete_project(&project.id)).expect("Should delete");
    assert!(list(&conn, &ListProjectsQuery::default()).is_empty());
}

#[test]
fn test_favorite_only_filter() {
    let conn = open();
    let p1 = import_test_project(&conn, "Fav 1", "/tmp/wp-test-favonly1", None);
    import_test_project(&conn, "Not Fav", "/tmp/wp-test-favonly2", None);
    toggle(&conn, &p1.id);
    let mut q = ListProjectsQuery::default();
    q.favorite_only = Some(true);
    let projects = list(&conn, &q);
    assert_eq!(projects.len(), 1);
    assert!(projects[0].favorite);
}

#[test]
fn test_reimport_with_canonical_path() {
    let conn = open();
    import_test_project(&conn, "First", "/tmp", None);
    let result = import(&conn, bare_import("Second", "/tmp/"), PathProbe::Resolved("/tmp".to_string()));
    assert!(result.is_err());
}

#[test]
fn test_update_partial_fields_only() {
    let conn = open();
    let project = import_test_project(&conn, "Partial", "/tmp/wp-test-partial", Some("Artist A"));
    let mut req = no_update(&project.id);
    req.artist = Some("Artist B".to_string());
    let updated = update(&conn, &req).expect("Should update artist only");
    assert_eq!(updated.name, "Partial");
    assert_eq!(updated.artist, Some("Artist B".to_string()));
}

#[test]
fn test_update_no_fields() {
    let conn = open();
    let project = import_test_project(&conn, "No-op", "/tmp/wp-test-noop", None);
    assert!(update(&conn, &no_update(&project.id)).is_ok());
}

#[test]
fn test_search_by_keywords() {
    let conn = open();
    import_test_project(&conn, "Study Track", "/tmp/wp-test-kw1", None);
    let mut q = ListProjectsQuery::default();
    q.keywords = Some("chill".to_string());
    assert_eq!(list(&conn, &q).len(), 1);
}

#[test]
fn tag_filters_and_tempo_ranges_run_against_the_store() {
    let conn = open();
    let p = import_test_project(&conn, "Tagged", "/tmp/wp-test-tags", None);
    let mut plain = bare_import("Plain", "/tmp/wp-test-plain");
    plain.notes = Some(String::new());
    import(&conn, plain, PathProbe::Resolved("/tmp/wp-test-plain".to_string())).unwrap();
    let mut req = no_update(&p.id);
    req.bpm_bits = Some(90.0f64.to_bits());
    req.tags = Some(vec!["lofi".to_string(), "ambient".to_string()]);
    update(&conn, &req).unwrap();
    let tags: Vec<String> = all(&conn, &get_project_tags(&p.id), |r| r.get(0));
    assert_eq!(tags, vec!["ambient".to_string(), "lofi".to_string()]);

    let mut q = ListProjectsQuery::default();
    q.tags = Some(vec!["LOFI".to_string(), "amb%".to_string()]);
    let found = list(&conn, &q);
    assert_eq!(found.len(), 1);
    assert_eq!(found[0].name, "Tagged");

    let mut q = ListProjectsQuery::default();
    q.bpm_min_bits = Some(100.0f64.to_bits());
    q.sort_by = Some(SortField::Bpm);
    q.sort_order = Some(SortOrder::Asc);
    let names: Vec<String> = list(&conn, &q).into_iter().map(|p| p.name).collect();
    // a project without a tempo passes the range, and sorts last
    assert_eq!(names, vec!["Plain".to_string()]);
    q.bpm_min_bits = Some(80.0f64.to_bits());
    let names: Vec<String> = list(&conn, &q).into_iter().map(|p| p.name).collect();
    assert_eq!(names, vec!["Tagged".to_string(), "Plain".to_string()]);
}

// ---------------------------------------------------------------- lyrics

#[test]
fn test_create_lyric() {
    let conn = open();
    let project_id = import_test_project(&conn, "Test Project", "/tmp/wp-lyrics-test", None).id;
    let lyric = create_lyric(
        &conn,
        CreateLyricRequest {
            project_id: project_id.clone(),
            title: Some("Verse 1".to_string()),
            content: "Hello world".to_string(),
            section: Some("verse".to_string()),
            language: Some("en".to_string()),
        },
    );
    assert_eq!(lyric.project_id, project_id);
    assert_eq!(lyric.title, Some("Verse 1".to_string()));
    assert_eq!(lyric.content, "Hello world");
    assert_eq!(lyric.section, Some("verse".to_string()));
    assert!(!lyric.id.is_empty());
}

#[test]
fn test_list_lyrics_for_project() {
    let conn = open();
    let project_id = import_test_project(&conn, "Test Project", "/tmp/wp-lyrics-test", None).id;
    create_lyric(&conn, lyric_request(&project_id, Some("Verse 1"), "First"));
    create_lyric(&conn, lyric_request(&project_id, Some("Chorus"), "Second"));
    assert_eq!(all(&conn, &list_lyrics_for_project(&project_id), row_to_lyric).len(), 2);
}

#[test]
fn test_update_lyric() {
    let conn = open();
    let project_id = import_test_project(&conn, "Test Project", "/tmp/wp-lyrics-test", None).id;
    let lyric = create_lyric(&conn, lyric_request(&project_id, Some("Old Title"), "Old content"));
    let (st, read) = update_lyric(&UpdateLyricRequest {
        id: lyric.id,
        title: Some("New Title".to_string()),
        content: Some("New content".to_string()),
        section: None,
        language: None,
    });
    exec(&conn, &st.unwrap()).expect("Should update");
    let updated = one(&conn, &read, row_to_lyric).unwrap();
    assert_eq!(updated.title, Some("New Title".to_string()));
    assert_eq!(updated.content, "New content");
}

#[test]
fn test_delete_lyric() {
    let conn = open();
    let project_id = import_test_project(&conn, "Test Project", "/tmp/wp-lyrics-test", None).id;
    let lyric = create_lyric(&conn, lyric_request(&project_id, None, "Delete me"));
    exec(&conn, &delete_lyric(&lyric.id)).expect("Should delete");
    assert!(all(&conn, &list_lyrics_for_project(&project_id), row_to_lyric).is_empty());
}

#[test]
fn test_search_lyrics() {
    let conn = open();
    let project_id = import_test_project(&conn, "Test Project", "/tmp/wp-lyrics-test", None).id;
    create_lyric(&conn, lyric_request(&project_id, Some("Verse 1"), "The quick brown fox"));
    assert_eq!(all(&conn, &search_lyrics("fox"), row_to_lyric).len(), 1);
    assert!(all(&conn, &search_lyrics("nothing"), row_to_lyric).is_empty());
}

#[test]
fn test_create_lyric_minimal() {
    let conn = open();
    let project_id = import_test_project(&conn, "Test Project", "/tmp/wp-lyrics-test", None).id;
    let lyric = create_lyric(&conn, lyric_request(&project_id, None, "Just content"));
    assert!(lyric.title.is_none());
    assert_eq!(lyric.content, "Just content");
}

// ---------------------------------------------------------------- checklists

#[test]
fn test_create_checklist() {
    let conn = open();
    let project_id = import_test_project(&conn, "Test Project", "/tmp/wp-releases-test", None).id;
    let checklist = create_checklist(&conn, &project_id);
    assert_eq!(checklist.project_id, project_id);
    let items = parse_items(&checklist.items);
    assert_eq!(items.len(), 7);
    assert!(!items[0].done);
    assert_eq!(items[0].label, "Mix finished");
}

#[test]
fn test_toggle_item() {
    let conn = open();
    let project_id = import_test_project(&conn, "Test Project", "/tmp/wp-releases-test", None).id;
    let checklist = create_checklist(&conn, &project_id);
    let items = parse_items(&checklist.items);
    let first_item_id = items[0].id.clone();
    let marked = set_item_done(items, &first_item_id, true).expect("Should toggle");
    let updated = save(&conn, &checklist.id, &marked);
    assert!(parse_items(&updated.items)[0].done);
}

#[test]
fn test_add_item() {
    let conn = open();
    let project_id = import_test_project(&conn, "Test Project", "/tmp/wp-releases-test", None).id;
    let checklist = create_checklist(&conn, &project_id);
    let added = append_item(parse_items(&checklist.items), "Custom item".to_string());
    let updated = save(&conn, &checklist.id, &added);
    let items = parse_items(&updated.items);
    assert_eq!(items.len(), 8);
    assert_eq!(items.last().unwrap().label, "Custom item");
}

#[test]
fn test_remove_item() {
    let conn = open();
    let project_id = import_test_project(&conn, "Test Project", "/tmp/wp-releases-test", None).id;
    let checklist = create_checklist(&conn, &project_id);
    let items = parse_items(&checklist.items);
    let first_item_id = items[0].id.clone();
    let updated = save(&conn, &checklist.id, &remove_item(items, &first_item_id));
    assert_eq!(parse_items(&updated.items).len(), 6);
}

#[test]
fn test_get_checklist_for_project() {
    let conn = open();
    let project_id = import_test_project(&conn, "Test Project", "/tmp/wp-releases-test", None).id;
    create_checklist(&conn, &project_id);
    assert!(one(&conn, &get_checklist_for_project(&project_id), row_to_checklist).is_ok());
    assert!(matches!(
        one(&conn, &get_checklist_for_project("nonexistent"), row_to_checklist),
        Err(rusqlite::Error::QueryReturnedNoRows)
    ));
}

#[test]
fn test_delete_checklist() {
    let conn = open();
    let project_id = import_test_project(&conn, "Test Project", "/tmp/wp-releases-test", None).id;
    let checklist = create_checklist(&conn, &project_id);
    exec(&conn, &delete_checklist(&checklist.id)).expect("Should delete");
    assert!(one(&conn, &get_checklist(&checklist.id), row_to_checklist).is_err());
}

// ---------------------------------------------------------------- settings

#[test]
fn settings_written_are_read_back_and_reset() {
    let conn = open();
    exec(&conn, &update_setting("theme", "light")).unwrap();
    exec(&conn, &update_setting("autosave_interval_seconds", "90")).unwrap();
    exec(&conn, &update_setting("theme", "solarized")).unwrap();
    let rows: Vec<(String, String)> = all(&conn, &read_settings(), |r| Ok((r.get(0)?, r.get(1)?)));
    let s = get_settings(rows);
    assert_eq!(s.theme, "solarized");
    assert_eq!(s.autosave_interval_seconds, 90);
    exec(&conn, &reset_settings()).unwrap();
    let rows: Vec<(String, String)> = all(&conn, &read_settings(), |r| Ok((r.get(0)?, r.get(1)?)));
    assert_eq!(get_settings(rows).theme, "dark");
}

// ---------------------------------------------------------------- backup directories

#[test]
fn test_add_and_list_directories() {
    let conn = open();
    let added = add_directory(&conn, "/tmp/wp-test-bu-add", Some("Test Dir")).expect("Should add");
    assert_eq!(added.label, Some("Test Dir".to_string()));
    let dirs = all(&conn, &list_backup_directories(), row_to_directory);
    assert_eq!(dirs.len(), 1);
    assert_eq!(dirs[0].id, added.id);
}

#[test]
fn test_add_directory_not_exists() {
    let result = resolve_canonical_path("/tmp/wp-test-nonexistent-xxx", PathProbe::Missing);
    assert!(result.is_err());
    assert!(result.unwrap_err().contains("does not exist"));
}

#[test]
fn test_remove_directory() {
    let conn = open();
    let added = add_directory(&conn, "/tmp/wp-test-bu-remove", None).expect("Should add");
    exec(&conn, &remove_backup_directory(&added.id)).expect("Should remove");
    assert!(all(&conn, &list_backup_directories(), row_to_directory).is_empty());
}

#[test]
fn test_add_duplicate_directory() {
    let conn = open();
    add_directory(&conn, "/tmp/wp-test-dup-dir", None).expect("First add");
    let result = add_directory(&conn, "/tmp/wp-test-dup-dir", None);
    assert!(result.is_err());
    assert!(result.unwrap_err().contains("already added"));
}

#[test]
fn test_history_empty_when_no_cleanups() {
    let conn = open();
    assert!(all(&conn, &get_cleanup_history(), row_to_history).is_empty());
}

#[test]
fn test_history_after_cleanup() {
    let conn = open();
    let added = add_directory(&conn, "/tmp/wp-test-history", None).expect("Should add");
    let outcomes = vec![DeletionOutcome { path: "/tmp/wp-test-history/old.bak".to_string(), size_bytes: 4, error: None }];
    record_cleanup(&conn, &added.id, &outcomes);
    let history = all(&conn, &get_cleanup_history(), row_to_history);
    assert_eq!(history.len(), 1);
    assert_eq!(history[0].files_deleted, 1);
    assert_eq!(history[0].directory_path, "/tmp/wp-test-history");
    assert_eq!(history[0].status, "completed");
    assert_eq!(history[0].space_freed_bytes, 4);
}

#[test]
fn test_cleanup_nonexistent_file() {
    let conn = open();
    let added = add_directory(&conn, "/tmp/wp-test-exec-nonexist", None).expect("Should add");
    let outcomes = vec![DeletionOutcome {
        path: "/tmp/wp-test-nonexistent-file.bak".to_string(),
        size_bytes: 0,
        error: Some("No such file or directory (os error 2)".to_string()),
    }];
    let result = record_cleanup(&conn, &added.id, &outcomes);
    assert_eq!(result.files_deleted, 0);
    assert_eq!(result.files_failed, 1);
    assert!(!result.errors.is_empty());
    let history = all(&conn, &get_cleanup_history(), row_to_history);
    assert_eq!(history[0].status, "partial");
    assert_eq!(history[0].total_files, 1);
}

// ---------------------------------------------------------------- analysis cache

fn cache_row(conn: &Connection, project_id: &str, hash: &str, at: &str) -> String {
    let id = format!("{}-{}", hash, at);
    let json = format!("{{\"id\":\"{}\",\"file_hash\":\"{}\"}}", id, hash);
    exec(conn, &cache_analysis_statement(&id, project_id, &json, at)).unwrap();
    id
}

fn cached_id(conn: &Connection, project_id: &str, hash: &str) -> Option<String> {
    let rows: Vec<String> = all(conn, &cached_analysis_query(project_id), |r| r.get(0));
    let parsed: Vec<Option<serde_json::Value>> = rows.iter().map(|j| serde_json::from_str(j).ok()).collect();
    let hashes: Vec<Option<String>> = parsed
        .iter()
        .map(|v| v.as_ref().and_then(|v| v["file_hash"].as_str().map(String::from)))
        .collect();
    cached_result_index(&hashes, hash).map(|i| parsed[i].as_ref().unwrap()["id"].as_str().unwrap().to_string())
}

#[test]
fn unchanged_file_is_found_in_the_cache_after_another_file_was_analysed() {
    let conn = open();
    let p = import_test_project(&conn, "Cached", "/tmp/wp-test-cache", None);
    let first = cache_row(&conn, &p.id, "aaa", "2024-01-01T00:00:00+00:00");
    let other = cache_row(&conn, &p.id, "bbb", "2024-01-02T00:00:00+00:00");
    assert_eq!(cached_id(&conn, &p.id, "aaa"), Some(first));
    assert_eq!(cached_id(&conn, &p.id, "bbb"), Some(other));
    assert_eq!(cached_id(&conn, &p.id, "ccc"), None);
    let newer = cache_row(&conn, &p.id, "aaa", "2024-01-03T00:00:00+00:00");
    assert_eq!(cached_id(&conn, &p.id, "aaa"), Some(newer));
    assert_eq!(cached_id(&conn, "another project", "aaa"), None);
}

#[test]
fn new_ids_are_hyphenated_uuids() {
    let conn = open();
    let p = import_test_project(&conn, "Ids", "/tmp/wp-test-ids", None);
    assert_eq!(p.id.len(), 36);
    let l = create_lyric(&conn, lyric_request(&p.id, None, "x"));
    assert_eq!(l.id.len(), 36);
    assert_ne!(p.id, l.id);
}

// ---------------------------------------------------------------- scans and cleanups
// The walk and the deletions are the application's I/O; here they are given
// as the entries a walk meets and the outcome of each deletion.

fn file_entry(path: &str, age_days: u64) -> FileProbe {
    FileProbe {
        path: path.to_string(),
        is_dir: false,
        is_file: true,
        metadata: Ok(FileMetadata { size_bytes: 4, modified_secs: Some(1_700_000_000), age_days: Some(age_days) }),
    }
}

fn dir_entry(path: &str) -> FileProbe {
    FileProbe {
        path: path.to_string(),
        is_dir: true,
        is_file: false,
        metadata: Ok(FileMetadata { size_bytes: 0, modified_secs: None, age_days: None }),
    }
}

fn scan_directory(conn: &Connection, directory_id: &str, walk: &Vec<FileProbe>, min_file_age_days: u32) -> Result<BackupScanResult, String> {
    let dirs = all(conn, &list_backup_directories(), row_to_directory);
    let _dir = find_backup_directory(dirs, directory_id)?;
    Ok(scan_result(directory_id, collect_backup_files(walk, min_file_age_days)))
}

#[test]
fn test_scan_directory() {
    let conn = open();
    let added = add_directory(&conn, "/tmp/wp-test-scan-dir", None).expect("Should add");
    let walk = vec![
        dir_entry("/tmp/wp-test-scan-dir"),
        file_entry("/tmp/wp-test-scan-dir/backup1.bak", 0),
        file_entry("/tmp/wp-test-scan-dir/backup2.bak", 0),
        file_entry("/tmp/wp-test-scan-dir/project.flp", 0),
    ];
    let result = scan_directory(&conn, &added.id, &walk, 0).expect("Should scan");
    assert_eq!(result.total_files, 2);
    assert_eq!(result.total_size_bytes, 8);
    assert_eq!(
        scan_directory(&conn, "unknown", &walk, 0).unwrap_err(),
        "Backup directory not found"
    );
}

#[test]
fn test_scan_with_min_age() {
    let conn = open();
    let added = add_directory(&conn, "/tmp/wp-test-scan-age", None).expect("Should add");
    let walk = vec![
        dir_entry("/tmp/wp-test-scan-age"),
        file_entry("/tmp/wp-test-scan-age/old.bak", 10),
        file_entry("/tmp/wp-test-scan-age/recent.bak", 0),
    ];
    let result = scan_directory(&conn, &added.id, &walk, 5).expect("Should scan");
    assert_eq!(result.total_files, 1);
    assert_eq!(result.files[0].name, "old.bak");
}

#[test]
fn test_execute_cleanup() {
    let conn = open();
    let added = add_directory(&conn, "/tmp/wp-test-exec", None).expect("Should add");
    let outcomes = vec![DeletionOutcome { path: "/tmp/wp-test-exec/del.bak".to_string(), size_bytes: 4, error: None }];
    let result = record_cleanup(&conn, &added.id, &outcomes);
    assert_eq!(result.files_deleted, 1);
    assert_eq!(result.files_failed, 0);
    let history = all(&conn, &get_cleanup_history(), row_to_history);
    assert!(!history.is_empty());
}
