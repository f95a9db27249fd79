use wavepilot::models::backup::{
    AddBackupDirectoryRequest, BackupDirectory, BackupFileEntry, BackupScanResult, CleanupResult,
};
use wavepilot::services::backup::{
    add_backup_directory_plan, add_directory_error, cleanup_history_record, collect_backup_files,
    detect_parent_project, find_backup_directory, is_backup_directory, is_backup_file, is_hidden,
    missing_directory_error, modified_timestamp, not_a_directory_error, scan_result, sum_sizes,
    tally_cleanup, DeletionOutcome, FileMetadata, FileProbe,
};
use wavepilot::services::preview::{preview_cleanup, removed_size_fits};
use wavepilot::sql::SqlValue;

fn entry(path: &str, name: &str, size: u64, modified: &str, project: Option<&str>) -> BackupFileEntry {
    BackupFileEntry {
        path: path.to_string(),
        name: name.to_string(),
        size_bytes: size,
        modified: modified.to_string(),
        parent_project: project.map(|p| p.to_string()),
    }
}

fn scan(files: Vec<BackupFileEntry>) -> BackupScanResult {
    let total: u64 = files.iter().map(|f| f.size_bytes).sum();
    BackupScanResult {
        directory_id: "test".to_string(),
        total_files: files.len() as u64,
        total_size_bytes: total,
        files,
        skipped_count: 0,
        skipped_log: vec![],
    }
}

fn file_probe(path: &str, size: u64) -> FileProbe {
    FileProbe {
        path: path.to_string(),
        is_dir: false,
        is_file: true,
        metadata: Ok(FileMetadata { size_bytes: size, modified_secs: Some(0), age_days: Some(100) }),
    }
}

#[test]
fn test_is_backup_file() {
    assert!(is_backup_file("project.bak"));
    assert!(is_backup_file("song.backup"));
    assert!(is_backup_file("track_Backup.als"));
    assert!(is_backup_file("song.rpp-bak"));
    assert!(!is_backup_file("project.wav"));
    assert!(!is_backup_file("track.als"));
}

#[test]
fn backup_file_names_are_matched_without_case() {
    assert!(is_backup_file("PROJECT.BAK"));
    assert!(is_backup_file("mix.old"));
    assert!(is_backup_file("take-backup.wav"));
    assert!(is_backup_file("v2.bak.als"));
    assert!(!is_backup_file("bakery.wav"));
    assert!(!is_backup_file(""));
}

#[test]
fn backup_directory_names() {
    assert!(is_backup_directory("Backup"));
    assert!(is_backup_directory("backups"));
    assert!(is_backup_directory("Project Backup"));
    assert!(is_backup_directory("_Backup"));
    assert!(!is_backup_directory("BACKUP"));
    assert!(!is_backup_directory("Samples"));
}

#[test]
fn hidden_entries_start_with_a_dot() {
    assert!(is_hidden("/tmp/scan/.hidden.bak"));
    assert!(is_hidden(".git"));
    assert!(!is_hidden("/tmp/scan/project.bak"));
    assert!(!is_hidden("/"));
}

#[test]
fn test_parent_project_detection() {
    assert_eq!(
        detect_parent_project("/Projects/MyTrack/Backup/old.bak"),
        Some("MyTrack".to_string())
    );
    assert_eq!(
        detect_parent_project("/Projects/MyTrack/old.bak"),
        Some("MyTrack".to_string())
    );
}

#[test]
fn parent_project_of_top_level_file() {
    assert_eq!(detect_parent_project("/old.bak"), None);
    assert_eq!(detect_parent_project("old.bak"), None);
    assert_eq!(detect_parent_project("/Backup/old.bak"), None);
}

#[test]
fn test_preview_cleanup_keeps_latest() {
    let mut files = Vec::new();
    for i in 0..10 {
        let modified = format!("2024-01-{:02}T00:00:00+00:00", i + 1);
        files.push(entry(
            &format!("/tmp/b{}.bak", i),
            &format!("b{}.bak", i),
            100,
            &modified,
            Some("TestProject"),
        ));
    }
    let preview = preview_cleanup(&scan(files), 3);
    assert_eq!(preview.total_files, 7);
    assert_eq!(preview.kept_files, 3);
    assert_eq!(preview.total_size_bytes, 700);
}

#[test]
fn test_preview_cleanup_below_threshold() {
    let files: Vec<_> = (0..3)
        .map(|i| {
            entry(
                &format!("/tmp/f{}.bak", i),
                &format!("f{}.bak", i),
                100,
                &format!("2024-01-{:02}T00:00:00+00:00", i + 1),
                Some("Proj"),
            )
        })
        .collect();
    let preview = preview_cleanup(&scan(files), 5);
    assert_eq!(preview.total_files, 0);
    assert_eq!(preview.kept_files, 3);
}

#[test]
fn test_preview_multiple_projects() {
    let files = vec![
        entry("/tmp/proj1/old.bak", "old.bak", 100, "2024-01-01T00:00:00+00:00", Some("proj1")),
        entry("/tmp/proj1/newer.bak", "newer.bak", 100, "2024-01-02T00:00:00+00:00", Some("proj1")),
        entry("/tmp/proj2/only.bak", "only.bak", 100, "2024-01-01T00:00:00+00:00", Some("proj2")),
    ];
    let preview = preview_cleanup(&scan(files), 1);
    assert_eq!(preview.total_files, 1);
    assert_eq!(preview.kept_files, 2);
}

#[test]
fn preview_removes_the_oldest_and_lists_groups_in_scan_order() {
    let files = vec![
        entry("/a/3.bak", "3.bak", 30, "2024-03-01", Some("A")),
        entry("/b/1.bak", "1.bak", 5, "2024-01-01", Some("B")),
        entry("/a/1.bak", "1.bak", 10, "2024-01-01", Some("A")),
        entry("/x.bak", "x.bak", 7, "2023-01-01", None),
        entry("/a/2.bak", "2.bak", 20, "2024-02-01", Some("A")),
        entry("/b/2.bak", "2.bak", 6, "2024-02-01", Some("B")),
        entry("/y.bak", "y.bak", 8, "2022-01-01", None),
    ];
    let preview = preview_cleanup(&scan(files), 1);
    let paths: Vec<&str> = preview.files_to_delete.iter().map(|f| f.path.as_str()).collect();
    assert_eq!(paths, vec!["/a/2.bak", "/a/1.bak", "/b/1.bak", "/y.bak"]);
    assert_eq!(preview.total_files, 4);
    assert_eq!(preview.kept_files, 3);
    assert_eq!(preview.total_size_bytes, 20 + 10 + 5 + 8);
    assert_eq!(preview.directory_id, "test");
}

#[test]
fn preview_keeping_none_removes_everything() {
    let files = vec![
        entry("/a/1.bak", "1.bak", 1, "2024-01-01", Some("A")),
        entry("/a/2.bak", "2.bak", 2, "2024-01-01", Some("A")),
    ];
    let preview = preview_cleanup(&scan(files), 0);
    let paths: Vec<&str> = preview.files_to_delete.iter().map(|f| f.path.as_str()).collect();
    // equal times keep scan order
    assert_eq!(paths, vec!["/a/1.bak", "/a/2.bak"]);
    assert_eq!(preview.kept_files, 0);
}

#[test]
fn test_collect_backup_files() {
    let probes = vec![
        file_probe("/tmp/wp-test-scan/project.wav", 4),
        file_probe("/tmp/wp-test-scan/project.bak", 4),
        file_probe("/tmp/wp-test-scan/song.backup", 4),
        file_probe("/tmp/wp-test-scan/track_Backup.als", 4),
        file_probe("/tmp/wp-test-scan/.hidden.bak", 4),
        FileProbe {
            path: "/tmp/wp-test-scan/Backup".to_string(),
            is_dir: true,
            is_file: false,
            metadata: Ok(FileMetadata { size_bytes: 0, modified_secs: None, age_days: None }),
        },
        file_probe("/tmp/wp-test-scan/Backup/old_version.bak", 4),
    ];
    let (files, skipped, log) = collect_backup_files(&probes, 0);
    assert_eq!(files.len(), 4);
    assert!(files.iter().any(|f| f.name == "project.bak"));
    assert!(files.iter().any(|f| f.name == "song.backup"));
    assert!(files.iter().any(|f| f.name == "old_version.bak"));
    assert_eq!(skipped, 0);
    assert!(log.is_empty());
    let old = files.iter().find(|f| f.name == "old_version.bak").unwrap();
    assert_eq!(old.parent_project, Some("wp-test-scan".to_string()));
    assert_eq!(old.modified, "1970-01-01T00:00:00+00:00");

    // without recursion the walk meets only the directory's own entries
    let flat: Vec<FileProbe> = probes.into_iter().filter(|p| !p.path.contains("/Backup/")).collect();
    let (flat_files, _, _) = collect_backup_files(&flat, 0);
    assert_eq!(flat_files.len(), 3);
}

#[test]
fn collect_respects_minimum_age_and_logs_unreadable_files() {
    let mut recent = file_probe("/d/recent.bak", 1);
    recent.metadata = Ok(FileMetadata { size_bytes: 1, modified_secs: Some(86400), age_days: Some(2) });
    let old = file_probe("/d/old.bak", 2);
    let broken = FileProbe {
        path: "/d/broken.bak".to_string(),
        is_dir: false,
        is_file: true,
        metadata: Err("permission denied".to_string()),
    };
    let probes = vec![recent, old, broken];
    let (files, skipped, log) = collect_backup_files(&probes, 10);
    assert_eq!(files.len(), 1);
    assert_eq!(files[0].name, "old.bak");
    assert_eq!(skipped, 1);
    assert_eq!(log, vec!["Skipped (metadata): /d/broken.bak - permission denied".to_string()]);
}

#[test]
fn modified_time_as_text() {
    assert_eq!(modified_timestamp(Some(0)), "1970-01-01T00:00:00+00:00");
    assert_eq!(modified_timestamp(Some(86400)), "1970-01-02T00:00:00+00:00");
    assert_eq!(modified_timestamp(None), "");
}

#[test]
fn scan_result_counts_and_sums() {
    let files = vec![
        entry("/a.bak", "a.bak", 10, "t", None),
        entry("/b.bak", "b.bak", 32, "t", None),
    ];
    assert_eq!(sum_sizes(&files), 42);
    let r = scan_result("dir-1", (files, 3, vec!["x".to_string()]));
    assert_eq!(r.directory_id, "dir-1");
    assert_eq!(r.total_files, 2);
    assert_eq!(r.total_size_bytes, 42);
    assert_eq!(r.skipped_count, 3);
    assert_eq!(r.skipped_log, vec!["x".to_string()]);
}

fn dir(id: &str, path: &str) -> BackupDirectory {
    BackupDirectory {
        id: id.to_string(),
        path: path.to_string(),
        label: None,
        recursive: true,
        created_at: "t".to_string(),
        updated_at: "t".to_string(),
    }
}

#[test]
fn find_watched_directory_by_id() {
    let dirs = vec![dir("a", "/a"), dir("b", "/b"), dir("b", "/b2")];
    assert_eq!(find_backup_directory(dirs.clone(), "b").unwrap().path, "/b");
    assert_eq!(find_backup_directory(dirs, "zz").unwrap_err(), "Backup directory not found");
}

#[test]
fn directory_errors() {
    assert!(missing_directory_error("/gone").contains("no longer exists"));
    assert_eq!(not_a_directory_error("/f.txt"), "Path is not a directory: /f.txt");
    assert!(add_directory_error("UNIQUE constraint failed: backup_directories.path")
        .contains("already added"));
    assert_eq!(add_directory_error("disk I/O error"), "disk I/O error");
}

#[test]
fn add_directory_plan_binds_the_new_directory() {
    let (st, d) = add_backup_directory_plan(
        AddBackupDirectoryRequest { path: "/raw".to_string(), label: Some("Test Dir".to_string()), recursive: None },
        "/canonical".to_string(),
    );
    assert_eq!(d.path, "/canonical");
    assert_eq!(d.label, Some("Test Dir".to_string()));
    assert!(d.recursive);
    assert_eq!(d.created_at, d.updated_at);
    assert!(st.sql.starts_with("INSERT INTO backup_directories"));
    assert_eq!(st.params.len(), 6);
    assert!(matches!(&st.params[0], SqlValue::Text(id) if *id == d.id));
    assert!(matches!(&st.params[3], SqlValue::Int(1)));
    let (_, flat) = add_backup_directory_plan(
        AddBackupDirectoryRequest { path: "/raw".to_string(), label: None, recursive: Some(false) },
        "/c".to_string(),
    );
    assert!(!flat.recursive);
}

fn outcome(path: &str, size: u64, error: Option<&str>) -> DeletionOutcome {
    DeletionOutcome { path: path.to_string(), size_bytes: size, error: error.map(|e| e.to_string()) }
}

#[test]
fn tally_counts_deleted_and_failed_files() {
    let outcomes = vec![
        outcome("/a.bak", 100, None),
        outcome("/missing.bak", 0, Some("No such file or directory (os error 2)")),
        outcome("/b.bak", 50, None),
    ];
    let r = tally_cleanup(&outcomes);
    assert_eq!(r.files_deleted, 2);
    assert_eq!(r.files_failed, 1);
    assert_eq!(r.space_freed_bytes, 150);
    assert_eq!(r.errors, vec!["/missing.bak: No such file or directory (os error 2)".to_string()]);
}

#[test]
fn history_record_of_a_cleanup() {
    let result = CleanupResult { files_deleted: 2, files_failed: 1, space_freed_bytes: 150, errors: vec!["e".to_string()] };
    let st = cleanup_history_record("dir-1", &result);
    assert!(st.sql.starts_with("INSERT INTO backup_scan_history"));
    assert!(st.params.iter().any(|p| matches!(p, SqlValue::Text(s) if s == "dir-1")));
    let clean = CleanupResult { files_deleted: 1, files_failed: 0, space_freed_bytes: 1, errors: vec![] };
    let st2 = cleanup_history_record("dir-1", &clean);
    assert!(st2.params.iter().any(|p| matches!(p, SqlValue::Text(s) if s == "completed")));
}

#[test]
fn keeping_more_backups_frees_less() {
    let files: Vec<_> = (0..6)
        .map(|i| {
            entry(
                &format!("/p/{}.bak", i),
                &format!("{}.bak", i),
                10 * (i + 1),
                &format!("2024-02-{:02}", i + 1),
                Some(if i % 2 == 0 { "Even" } else { "Odd" }),
            )
        })
        .collect();
    let s = scan(files);
    let mut last_size = u64::MAX;
    let mut last_count = u64::MAX;
    for keep in 0..5 {
        let p = preview_cleanup(&s, keep);
        assert!(p.total_size_bytes <= last_size);
        assert!(p.total_files <= last_count);
        // each project keeps min(size, keep)
        assert_eq!(p.kept_files, 2 * std::cmp::min(3, keep as u64));
        last_size = p.total_size_bytes;
        last_count = p.total_files;
    }
}

#[test]
fn removed_sizes_must_fit_in_a_u64() {
    let files = vec![
        entry("/a/new.bak", "new.bak", u64::MAX, "2024-02-01", Some("A")),
        entry("/a/old1.bak", "old1.bak", u64::MAX - 1, "2024-01-01", Some("A")),
        entry("/a/old2.bak", "old2.bak", 1, "2023-01-01", Some("A")),
    ];
    let s = scan(vec![]);
    assert!(removed_size_fits(&s, 0));
    let big = BackupScanResult { files, ..s };
    // keeping the newest, the two older ones sum to u64::MAX exactly
    assert!(removed_size_fits(&big, 1));
    assert_eq!(preview_cleanup(&big, 1).total_size_bytes, u64::MAX);
    // keeping none adds the newest as well
    assert!(!removed_size_fits(&big, 0));
    assert!(removed_size_fits(&big, 3));
}
