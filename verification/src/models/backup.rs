//! Backup cleaner types.

use vstd::prelude::*;

verus! {

/// A directory that the user asked to watch for backup files.
#[derive(Debug, Clone)]
pub struct BackupDirectory {
    pub id: String,
    pub path: String,
    pub label: Option<String>,
    pub recursive: bool,
    pub created_at: String,
    pub updated_at: String,
}

/// A request to watch a directory.
#[derive(Debug, Clone)]
pub struct AddBackupDirectoryRequest {
    pub path: String,
    pub label: Option<String>,
    pub recursive: Option<bool>,
}

/// A backup file found by a scan.
#[derive(Debug, Clone)]
pub struct BackupFileEntry {
    pub path: String,
    pub name: String,
    pub size_bytes: u64,
    pub modified: String,
    pub parent_project: Option<String>,
}

/// Progress of a running scan.
#[derive(Debug, Clone)]
pub struct BackupScanProgress {
    pub current_file: String,
    pub files_found: u64,
    pub phase: ScanPhase,
}

/// The phase a scan is in.
#[derive(Debug, Clone, Copy, PartialEq, Eq, Structural)]
pub enum ScanPhase {
    Scanning,
    Analyzing,
    Complete,
}

/// What a scan of one directory found.
#[derive(Debug, Clone)]
pub struct BackupScanResult {
    pub directory_id: String,
    pub files: Vec<BackupFileEntry>,
    pub total_files: u64,
    pub total_size_bytes: u64,
    pub skipped_count: u64,
    pub skipped_log: Vec<String>,
}

/// The files that a cleanup would delete.
#[derive(Debug, Clone)]
pub struct CleanupPreview {
    pub directory_id: String,
    pub files_to_delete: Vec<BackupFileEntry>,
    pub total_files: u64,
    pub total_size_bytes: u64,
    pub kept_files: u64,
}

/// A request to delete the listed files.
#[derive(Debug, Clone)]
pub struct ExecuteCleanupRequest {
    pub directory_id: String,
    pub file_paths: Vec<String>,
}

/// What a cleanup did.
#[derive(Debug, Clone)]
pub struct CleanupResult {
    pub files_deleted: u64,
    pub files_failed: u64,
    pub space_freed_bytes: u64,
    pub errors: Vec<String>,
}

/// One line of the cleanup history.
#[derive(Debug, Clone)]
pub struct BackupHistoryEntry {
    pub id: String,
    pub directory_id: String,
    pub directory_path: String,
    pub scanned_at: String,
    pub total_files: u64,
    pub files_deleted: u64,
    pub space_freed_bytes: u64,
    pub status: String,
    pub error: Option<String>,
}

/// How the cleaner behaves.
#[derive(Debug, Clone)]
pub struct BackupSettings {
    pub backups_to_keep: u32,
    pub min_file_age_days: u32,
    pub recursive_scan: bool,
    pub confirm_before_delete: bool,
}

impl Default for BackupSettings {
    fn default() -> (r: Self)
        ensures
            r.backups_to_keep == 5,
            r.min_file_age_days == 0,
            r.recursive_scan,
            r.confirm_before_delete,
    {
        BackupSettings {
            backups_to_keep: 5,
            min_file_age_days: 0,
            recursive_scan: true,
            confirm_before_delete: true,
        }
    }
}

} // verus!
