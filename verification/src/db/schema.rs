//! Rows of the SQLite tables.

use vstd::prelude::*;

verus! {

/// A row of `projects`.
#[derive(Debug, Clone)]
pub struct Project {
    pub id: String,
    pub name: String,
    pub path: String,
    pub artist: Option<String>,
    /// Bit pattern of the tempo (`f64::to_bits`).
    pub bpm_bits: Option<u64>,
    pub musical_key: Option<String>,
    pub root_note: Option<String>,
    /// The tags as a JSON array, as they were given at import.
    pub tags: Option<String>,
    pub keywords: Option<String>,
    pub notes: Option<String>,
    pub description: String,
    pub favorite: bool,
    pub daw_type: Option<String>,
    pub last_opened: Option<String>,
    pub created_at: String,
    pub updated_at: String,
}

/// A row of `lyrics`.
#[derive(Debug, Clone)]
pub struct Lyric {
    pub id: String,
    pub project_id: String,
    pub title: Option<String>,
    pub content: String,
    pub section: Option<String>,
    pub language: Option<String>,
    pub created_at: String,
    pub updated_at: String,
}

/// A row of `backup_rules`.
#[derive(Debug, Clone)]
pub struct BackupRule {
    pub id: String,
    pub project_id: Option<String>,
    pub max_backups: i32,
    pub created_at: String,
    pub updated_at: String,
}

/// A row of `release_checklists`; `items` is the JSON array of its items.
#[derive(Debug, Clone)]
pub struct ReleaseChecklist {
    pub id: String,
    pub project_id: String,
    pub items: String,
    pub created_at: String,
    pub updated_at: String,
}

/// A row of `analysis_cache`.
#[derive(Debug, Clone)]
pub struct AnalysisCache {
    pub id: String,
    pub project_id: String,
    pub analysis_type: String,
    pub result: String,
    pub created_at: String,
}

/// A row of `settings`.
#[derive(Debug, Clone)]
pub struct Setting {
    pub key: String,
    pub value: String,
    pub updated_at: String,
}

/// A row of `project_tags`.
#[derive(Debug, Clone)]
pub struct ProjectTag {
    pub id: String,
    pub project_id: String,
    pub tag: String,
}

} // verus!
