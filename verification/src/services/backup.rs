//! The backup cleaner: which files count as backups, which project a backup
//! belongs to, what a scan collects, which backups a cleanup removes, and
//! what a cleanup reports.

use vstd::prelude::*;
use crate::models::backup::{
    AddBackupDirectoryRequest, BackupDirectory, BackupFileEntry, BackupHistoryEntry,
    BackupScanResult, CleanupPreview, CleanupResult,
};
use crate::paths::{file_name, parent, path_file_name, path_parent};
use crate::sql::{opt_text, opt_text_value, statement, text_value, views, SqlValue, SqlValueView, Statement};
use crate::text::{
    chars_of, concat2, lowercase, opt_view, seq_contains, seq_ends_with, seq_starts_with,
    str_equal, str_starts_with, texts, to_lowercase, vec_contains, vec_ends_with,
};
use crate::utils::{new_id, now_timestamp, rfc3339_of_unix_seconds, unix_seconds_rfc3339};

verus! {

// ---------------------------------------------------------------- names

/// Endings of backup file names: a dot and a backup extension.
pub open spec fn backup_extensions() -> Seq<Seq<char>> {
    seq![".bak"@, ".backup"@, ".old"@, ".rpp-bak"@]
}

/// Marks that make a file name a backup name wherever they occur.
pub open spec fn backup_name_marks() -> Seq<Seq<char>> {
    seq!["_backup"@, "-backup"@, " backup"@, "_Backup"@, "-Backup"@, "_bak"@, ".bak."@]
}

/// Names of the folders in which DAWs keep their backups.
pub open spec fn backup_dir_names() -> Seq<Seq<char>> {
    seq!["Backup"@, "backup"@, "Backups"@, "backups"@, "_Backup"@, "Project Backup"@]
}

/// A lowercased file name is a backup name: it ends with a backup extension
/// or contains a backup mark.
pub open spec fn is_backup_name(lower: Seq<char>) -> bool {
    (exists|k: int|
        0 <= k < backup_extensions().len() && seq_ends_with(lower, backup_extensions()[k]))
        || (exists|k: int|
        0 <= k < backup_name_marks().len() && seq_contains(lower, backup_name_marks()[k]))
}

/// Whether the lowercased file name `lower` is a backup name.
pub fn backup_name(lower: &str) -> (r: bool)
    ensures
        r == is_backup_name(lower@),
{
    let name = chars_of(lower);
    let exts = vec![".bak", ".backup", ".old", ".rpp-bak"];
    let mut i: usize = 0;
    while i < exts.len()
        invariant
            i <= exts@.len(),
            exts@.len() == 4,
            name@ == lower@,
            forall|k: int| 0 <= k < 4 ==> #[trigger] exts@[k]@ == backup_extensions()[k],
            forall|k: int| 0 <= k < i ==> !seq_ends_with(lower@, backup_extensions()[k]),
        decreases exts.len() - i,
    {
        if vec_ends_with(&name, &chars_of(exts[i])) {
            assert(seq_ends_with(lower@, backup_extensions()[i as int]));
            return true;
        }
        i = i + 1;
    }
    let marks = vec!["_backup", "-backup", " backup", "_Backup", "-Backup", "_bak", ".bak."];
    let mut j: usize = 0;
    while j < marks.len()
        invariant
            j <= marks@.len(),
            marks@.len() == 7,
            name@ == lower@,
            forall|k: int| 0 <= k < 7 ==> #[trigger] marks@[k]@ == backup_name_marks()[k],
            forall|k: int| 0 <= k < 4 ==> !seq_ends_with(lower@, backup_extensions()[k]),
            forall|k: int| 0 <= k < j ==> !seq_contains(lower@, backup_name_marks()[k]),
        decreases marks.len() - j,
    {
        if vec_contains(&name, &chars_of(marks[j])) {
            assert(seq_contains(lower@, backup_name_marks()[j as int]));
            return true;
        }
        j = j + 1;
    }
    false
}

/// Whether `name` is the name of a backup file: its lowercase form ends with
/// `.bak`, `.backup`, `.old` or `.rpp-bak`, or contains a backup mark.
pub fn is_backup_file(name: &str) -> (r: bool)
    ensures
        r == is_backup_name(lowercase(name@)),
{
    let lower = to_lowercase(name);
    backup_name(lower.as_str())
}

/// Which lowercased names are backup names: exactly those that end with
/// `.bak`, `.backup`, `.old` or `.rpp-bak`, or contain one of the marks
/// `_backup`, `-backup`, ` backup`, `_Backup`, `-Backup`, `_bak`, `.bak.`.
pub proof fn lemma_backup_name_rules(lower: Seq<char>)
    ensures
        is_backup_name(lower) <==> (seq_ends_with(lower, ".bak"@) || seq_ends_with(lower, ".backup"@)
            || seq_ends_with(lower, ".old"@) || seq_ends_with(lower, ".rpp-bak"@)
            || seq_contains(lower, "_backup"@) || seq_contains(lower, "-backup"@)
            || seq_contains(lower, " backup"@) || seq_contains(lower, "_Backup"@)
            || seq_contains(lower, "-Backup"@) || seq_contains(lower, "_bak"@)
            || seq_contains(lower, ".bak."@)),
{
    let e = backup_extensions();
    let m = backup_name_marks();
    assert(e[0] == ".bak"@ && e[1] == ".backup"@ && e[2] == ".old"@ && e[3] == ".rpp-bak"@);
    assert(m[0] == "_backup"@ && m[1] == "-backup"@ && m[2] == " backup"@ && m[3] == "_Backup"@);
    assert(m[4] == "-Backup"@ && m[5] == "_bak"@ && m[6] == ".bak."@);
    if is_backup_name(lower) {
        if exists|k: int| 0 <= k < e.len() && seq_ends_with(lower, e[k]) {
            let k = choose|k: int| 0 <= k < e.len() && seq_ends_with(lower, e[k]);
            assert(k == 0 || k == 1 || k == 2 || k == 3);
        } else {
            let k = choose|k: int| 0 <= k < m.len() && seq_contains(lower, m[k]);
            assert(k == 0 || k == 1 || k == 2 || k == 3 || k == 4 || k == 5 || k == 6);
        }
    }
}

/// A scan reports every file that it looks at, whose metadata it can read,
/// that is old enough, and whose lowercased name contains ` backup` (or any
/// other backup mark or ending).
pub proof fn lemma_scan_reports_backup_names(p: FileProbe, min_age: u32)
    requires
        considered(p),
        p.metadata is Ok,
        !too_young(min_age, p.metadata),
        ({
            let lower = lowercase(name_of(p.path@));
            seq_ends_with(lower, ".bak"@) || seq_ends_with(lower, ".backup"@)
            || seq_ends_with(lower, ".old"@) || seq_ends_with(lower, ".rpp-bak"@)
            || seq_contains(lower, "_backup"@) || seq_contains(lower, "-backup"@)
            || seq_contains(lower, " backup"@) || seq_contains(lower, "_Backup"@)
            || seq_contains(lower, "-Backup"@) || seq_contains(lower, "_bak"@)
            || seq_contains(lower, ".bak."@)
        }),
    ensures
        probe_outcome(p, min_age) matches ProbeOutcome::Found(f) && f.path == p.path@ && f.name
            == name_of(p.path@),
{
    lemma_backup_name_rules(lowercase(name_of(p.path@)));
}

/// `name` is one of the backup folder names (exactly, case included).
pub open spec fn is_backup_dir_name(name: Seq<char>) -> bool {
    exists|k: int| 0 <= k < backup_dir_names().len() && name == backup_dir_names()[k]
}

/// Whether `name` is the name of a backup folder.
pub fn is_backup_directory(name: &str) -> (r: bool)
    ensures
        r == is_backup_dir_name(name@),
{
    let names = vec!["Backup", "backup", "Backups", "backups", "_Backup", "Project Backup"];
    let mut i: usize = 0;
    while i < names.len()
        invariant
            i <= names@.len(),
            names@.len() == 6,
            forall|k: int| 0 <= k < 6 ==> #[trigger] names@[k]@ == backup_dir_names()[k],
            forall|k: int| 0 <= k < i ==> name@ != backup_dir_names()[k],
        decreases names.len() - i,
    {
        if str_equal(name, names[i]) {
            return true;
        }
        i = i + 1;
    }
    false
}

/// The final component of `path` starts with a dot.
pub open spec fn is_hidden_path(path: Seq<char>) -> bool {
    match path_file_name(path) {
        Some(n) => seq_starts_with(n, "."@),
        None => false,
    }
}

/// Whether `path` names a hidden entry.
pub fn is_hidden(path: &str) -> (r: bool)
    ensures
        r == is_hidden_path(path@),
{
    match file_name(path) {
        Some(n) => str_starts_with(n.as_str(), "."),
        None => false,
    }
}

/// The project a backup at `path` belongs to: the folder holding it, or,
/// when that folder is a backup folder, the folder above.
pub open spec fn parent_project_of(path: Seq<char>) -> Option<Seq<char>> {
    match path_parent(path) {
        None => None,
        Some(par) => match path_file_name(par) {
            None => None,
            Some(name) => if is_backup_dir_name(name) {
                match path_parent(par) {
                    Some(gp) => path_file_name(gp),
                    None => None,
                }
            } else {
                Some(name)
            },
        },
    }
}

/// The project the backup at `path` belongs to.
pub fn detect_parent_project(path: &str) -> (r: Option<String>)
    ensures
        opt_view(r) == parent_project_of(path@),
{
    let par = match parent(path) {
        Some(p) => p,
        None => return None,
    };
    let name = match file_name(par.as_str()) {
        Some(n) => n,
        None => return None,
    };
    if is_backup_directory(name.as_str()) {
        match parent(par.as_str()) {
            Some(gp) => file_name(gp.as_str()),
            None => None,
        }
    } else {
        Some(name)
    }
}


// ---------------------------------------------------------------- scanning

/// What the file system reported of an entry's metadata.
#[derive(Debug, Clone)]
pub struct FileMetadata {
    pub size_bytes: u64,
    /// Whole seconds from the Unix epoch to the last modification, when known.
    pub modified_secs: Option<u64>,
    /// Whole days since the last modification, when known and not in the future.
    pub age_days: Option<u64>,
}

/// One entry met while walking a backup directory.
#[derive(Debug)]
pub struct FileProbe {
    pub path: String,
    pub is_dir: bool,
    pub is_file: bool,
    /// The metadata, or the text of the error that reading it gave.
    pub metadata: Result<FileMetadata, String>,
}

/// A backup file that a scan reports.
pub struct FoundFile {
    pub path: Seq<char>,
    pub name: Seq<char>,
    pub size: u64,
    pub modified: Seq<char>,
    pub parent: Option<Seq<char>>,
}

/// What a scan does with one entry.
pub enum ProbeOutcome {
    Ignored,
    /// The entry is a backup whose metadata could not be read; the text is
    /// the line of the skip log.
    Skipped(Seq<char>),
    Found(FoundFile),
}

/// The file name of `path`, or the empty text when it has none.
pub open spec fn name_of(path: Seq<char>) -> Seq<char> {
    match path_file_name(path) {
        Some(n) => n,
        None => Seq::empty(),
    }
}

/// The entry was modified fewer than `min_age` days ago (only checked when a
/// minimum age is set and the age is known; the age is narrowed to 32 bits
/// before the comparison).
pub open spec fn too_young(min_age: u32, m: Result<FileMetadata, String>) -> bool {
    min_age > 0 && match m {
        Ok(md) => match md.age_days {
            Some(a) => (a as u32) < min_age,
            None => false,
        },
        Err(_) => false,
    }
}

/// The modification time as RFC 3339 text, or the empty text when unknown.
pub open spec fn modified_text(secs: Option<u64>) -> Seq<char> {
    match secs {
        Some(s) => match rfc3339_of_unix_seconds(s as i64) {
            Some(t) => t,
            None => Seq::empty(),
        },
        None => Seq::empty(),
    }
}

/// What a scan does with a file: files whose name is not a backup name, and
/// backups younger than the minimum age, are ignored; a backup whose
/// metadata cannot be read is logged as skipped; any other backup is reported
/// with its size, modification time and project.
pub open spec fn file_outcome(p: FileProbe, min_age: u32) -> ProbeOutcome {
    let name = name_of(p.path@);
    if !is_backup_name(lowercase(name)) || too_young(min_age, p.metadata) {
        ProbeOutcome::Ignored
    } else {
        match p.metadata {
            Err(e) => ProbeOutcome::Skipped("Skipped (metadata): "@ + p.path@ + " - "@ + e@),
            Ok(m) => ProbeOutcome::Found(
                FoundFile {
                    path: p.path@,
                    name,
                    size: m.size_bytes,
                    modified: modified_text(m.modified_secs),
                    parent: parent_project_of(p.path@),
                },
            ),
        }
    }
}

/// Entries that a scan looks at: files that are not hidden.
pub open spec fn considered(p: FileProbe) -> bool {
    !p.is_dir && p.is_file && !is_hidden_path(p.path@)
}

/// What a scan does with any entry.
pub open spec fn probe_outcome(p: FileProbe, min_age: u32) -> ProbeOutcome {
    if considered(p) {
        file_outcome(p, min_age)
    } else {
        ProbeOutcome::Ignored
    }
}

/// The backups a scan of `probes` reports, in walk order.
pub open spec fn found_files(probes: Seq<FileProbe>, min_age: u32) -> Seq<FoundFile>
    decreases probes.len(),
{
    if probes.len() == 0 {
        Seq::empty()
    } else {
        let rest = found_files(probes.drop_last(), min_age);
        match probe_outcome(probes.last(), min_age) {
            ProbeOutcome::Found(f) => rest.push(f),
            _ => rest,
        }
    }
}

/// The skip log of a scan of `probes`, in walk order.
pub open spec fn skip_log(probes: Seq<FileProbe>, min_age: u32) -> Seq<Seq<char>>
    decreases probes.len(),
{
    if probes.len() == 0 {
        Seq::empty()
    } else {
        let rest = skip_log(probes.drop_last(), min_age);
        match probe_outcome(probes.last(), min_age) {
            ProbeOutcome::Skipped(m) => rest.push(m),
            _ => rest,
        }
    }
}

/// A scan reports backups only: every file it reports has a backup name, and
/// none of them is hidden.
pub proof fn lemma_found_files_are_backups(probes: Seq<FileProbe>, min_age: u32)
    ensures
        forall|k: int|
            0 <= k < found_files(probes, min_age).len() ==> {
                let f = #[trigger] found_files(probes, min_age)[k];
                &&& f.name == name_of(f.path)
                &&& is_backup_name(lowercase(f.name))
                &&& !is_hidden_path(f.path)
            },
    decreases probes.len(),
{
    if probes.len() > 0 {
        lemma_found_files_are_backups(probes.drop_last(), min_age);
    }
}

/// Entry `e` reports the backup `f`.
pub open spec fn entry_is(e: BackupFileEntry, f: FoundFile) -> bool {
    &&& e.path@ == f.path
    &&& e.name@ == f.name
    &&& e.size_bytes == f.size
    &&& e.modified@ == f.modified
    &&& opt_view(e.parent_project) == f.parent
}

/// The entries `es` report the backups `fs`, one for one.
pub open spec fn entries_are(es: Seq<BackupFileEntry>, fs: Seq<FoundFile>) -> bool {
    es.len() == fs.len() && forall|i: int| 0 <= i < es.len() ==> entry_is(#[trigger] es[i], fs[i])
}

/// The RFC 3339 text of a modification time, or the empty text.
pub fn modified_timestamp(secs: Option<u64>) -> (r: String)
    ensures
        r@ == modified_text(secs),
{
    match secs {
        Some(s) => match unix_seconds_rfc3339(s as i64) {
            Some(t) => t,
            None => String::new(),
        },
        None => String::new(),
    }
}

/// Handles one file of a scan: reports it in `files`, logs it in
/// `skipped_log` and counts it in `skipped`, or leaves it out, as
/// `file_outcome` says.
pub fn collect_single_file(
    probe: &FileProbe,
    min_file_age_days: u32,
    files: &mut Vec<BackupFileEntry>,
    skipped: &mut u64,
    skipped_log: &mut Vec<String>,
)
    requires
        *old(skipped) < u64::MAX,
    ensures
        match file_outcome(*probe, min_file_age_days) {
            ProbeOutcome::Ignored => {
                &&& final(files)@ == old(files)@
                &&& *final(skipped) == *old(skipped)
                &&& final(skipped_log)@ == old(skipped_log)@
            },
            ProbeOutcome::Skipped(m) => {
                &&& final(files)@ == old(files)@
                &&& *final(skipped) == *old(skipped) + 1
                &&& final(skipped_log)@.len() == old(skipped_log)@.len() + 1
                &&& final(skipped_log)@.drop_last() == old(skipped_log)@
                &&& final(skipped_log)@.last()@ == m
            },
            ProbeOutcome::Found(f) => {
                &&& final(files)@.len() == old(files)@.len() + 1
                &&& final(files)@.drop_last() == old(files)@
                &&& entry_is(final(files)@.last(), f)
                &&& *final(skipped) == *old(skipped)
                &&& final(skipped_log)@ == old(skipped_log)@
            },
        },
{
    let path = probe.path.as_str();
    let fname = match file_name(path) {
        Some(n) => n,
        None => String::new(),
    };
    assert(fname@ == name_of(probe.path@));
    if !is_backup_file(fname.as_str()) {
        return;
    }
    if min_file_age_days > 0 {
        if let Ok(md) = &probe.metadata {
            if let Some(age) = md.age_days {
                if (age as u32) < min_file_age_days {
                    return;
                }
            }
        }
    }
    match &probe.metadata {
        Err(e) => {
            let mut line = String::from_str("Skipped (metadata): ");
            line.append(path);
            line.append(" - ");
            line.append(e.as_str());
            let ghost before = skipped_log@;
            skipped_log.push(line);
            assert(skipped_log@.drop_last() =~= before);
            *skipped = *skipped + 1;
        },
        Ok(md) => {
            let modified = modified_timestamp(md.modified_secs);
            let parent_project = detect_parent_project(path);
            let entry = BackupFileEntry {
                path: String::from_str(path),
                name: fname,
                size_bytes: md.size_bytes,
                modified,
                parent_project,
            };
            let ghost before = files@;
            files.push(entry);
            assert(files@.drop_last() =~= before);
        },
    }
}

/// The result of walking a directory: the backups found, how many were
/// skipped, and the skip log.
pub open spec fn is_collection(
    r: (Vec<BackupFileEntry>, u64, Vec<String>),
    probes: Seq<FileProbe>,
    min_age: u32,
) -> bool {
    &&& entries_are(r.0@, found_files(probes, min_age))
    &&& r.1 == skip_log(probes, min_age).len()
    &&& texts(r.2@) == skip_log(probes, min_age)
}

/// Collects the backups among the entries of a walk, in walk order: hidden
/// entries and everything but files are passed over, the rest go through
/// `collect_single_file`.
pub fn collect_backup_files(probes: &Vec<FileProbe>, min_file_age_days: u32) -> (r: (
    Vec<BackupFileEntry>,
    u64,
    Vec<String>,
))
    requires
        probes@.len() < u64::MAX,
    ensures
        is_collection(r, probes@, min_file_age_days),
{
    let mut files: Vec<BackupFileEntry> = Vec::new();
    let mut skipped: u64 = 0;
    let mut skipped_log: Vec<String> = Vec::new();
    let mut i: usize = 0;
    assert(probes@.subrange(0, 0) =~= Seq::<FileProbe>::empty());
    assert(texts(skipped_log@) =~= Seq::<Seq<char>>::empty());
    while i < probes.len()
        invariant
            i <= probes@.len(),
            probes@.len() < u64::MAX,
            skipped <= i,
            is_collection((files, skipped, skipped_log), probes@.subrange(0, i as int), min_file_age_days),
        decreases probes.len() - i,
    {
        let ghost pre = probes@.subrange(0, i as int);
        let ghost next = probes@.subrange(0, i + 1);
        assert(next.drop_last() =~= pre);
        assert(next.last() == probes@[i as int]);
        let ghost f0 = files@;
        let ghost l0 = skipped_log@;
        let probe = &probes[i];
        if !probe.is_dir && probe.is_file && !is_hidden(probe.path.as_str()) {
            collect_single_file(probe, min_file_age_days, &mut files, &mut skipped, &mut skipped_log);
            proof {
                match file_outcome(*probe, min_file_age_days) {
                    ProbeOutcome::Found(f) => {
                        assert forall|k: int| 0 <= k < files@.len() implies entry_is(
                            #[trigger] files@[k],
                            found_files(next, min_file_age_days)[k],
                        ) by {
                            if k < f0.len() {
                                assert(files@[k] == f0[k]);
                            }
                        }
                    },
                    ProbeOutcome::Skipped(m) => {
                        assert(texts(skipped_log@) =~= texts(l0).push(m));
                    },
                    ProbeOutcome::Ignored => {},
                }
            }
        }
        i = i + 1;
    }
    assert(probes@.subrange(0, probes@.len() as int) =~= probes@);
    (files, skipped, skipped_log)
}


/// The sum of the sizes of `files`.
pub open spec fn total_size(files: Seq<BackupFileEntry>) -> nat
    decreases files.len(),
{
    if files.len() == 0 {
        0
    } else {
        total_size(files.drop_last()) + files.last().size_bytes as nat
    }
}

/// The sum of the sizes of `files`.
pub fn sum_sizes(files: &Vec<BackupFileEntry>) -> (r: u64)
    requires
        total_size(files@) <= u64::MAX,
    ensures
        r == total_size(files@),
{
    let mut total: u64 = 0;
    let mut i: usize = 0;
    while i < files.len()
        invariant
            i <= files@.len(),
            total_size(files@) <= u64::MAX,
            total == total_size(files@.subrange(0, i as int)),
        decreases files.len() - i,
    {
        proof {
            lemma_total_size_prefix(files@, i as int + 1);
            assert(files@.subrange(0, i + 1).drop_last() =~= files@.subrange(0, i as int));
        }
        total = total + files[i].size_bytes;
        i = i + 1;
    }
    assert(files@.subrange(0, files@.len() as int) =~= files@);
    total
}

/// A prefix of `files` weighs no more than all of them.
pub proof fn lemma_total_size_prefix(files: Seq<BackupFileEntry>, n: int)
    requires
        0 <= n <= files.len(),
    ensures
        total_size(files.subrange(0, n)) <= total_size(files),
    decreases files.len() - n,
{
    if n < files.len() {
        lemma_total_size_prefix(files, n + 1);
        assert(files.subrange(0, n + 1).drop_last() =~= files.subrange(0, n));
    } else {
        assert(files.subrange(0, n) =~= files);
    }
}

/// Position `i` holds the first directory of `dirs` with id `id`.
pub open spec fn first_with_id(dirs: Seq<BackupDirectory>, id: Seq<char>, i: int) -> bool {
    0 <= i < dirs.len() && dirs[i].id@ == id && forall|j: int| 0 <= j < i ==> (#[trigger] dirs[j]).id@ != id
}

/// The watched directory with id `id`, or the error when none has it.
pub fn find_backup_directory(dirs: Vec<BackupDirectory>, id: &str) -> (r: Result<
    BackupDirectory,
    String,
>)
    ensures
        match r {
            Ok(d) => exists|i: int| #[trigger] first_with_id(dirs@, id@, i) && dirs@[i] == d,
            Err(e) => e@ == "Backup directory not found"@ && forall|j: int|
                0 <= j < dirs@.len() ==> (#[trigger] dirs@[j]).id@ != id@,
        },
{
    let mut i: usize = 0;
    while i < dirs.len()
        invariant
            i <= dirs@.len(),
            forall|j: int| 0 <= j < i ==> (#[trigger] dirs@[j]).id@ != id@,
        decreases dirs.len() - i,
    {
        if str_equal(dirs[i].id.as_str(), id) {
            assert(first_with_id(dirs@, id@, i as int));
            let mut list = dirs;
            let d = list.remove(i);
            return Ok(d);
        }
        i = i + 1;
    }
    Err(String::from_str("Backup directory not found"))
}

/// The error of a scan of a watched directory that has disappeared.
pub fn missing_directory_error(path: &str) -> (r: String)
    ensures
        r@ == "Directory no longer exists: "@ + path@,
{
    concat2("Directory no longer exists: ", path)
}

/// The report of a scan of directory `directory_id`: the backups found, their
/// count and total size, and what was skipped.
pub fn scan_result(directory_id: &str, collected: (Vec<BackupFileEntry>, u64, Vec<String>)) -> (r: BackupScanResult)
    requires
        total_size(collected.0@) <= u64::MAX,
    ensures
        r.directory_id@ == directory_id@,
        r.files@ == collected.0@,
        r.total_files == collected.0@.len(),
        r.total_size_bytes == total_size(collected.0@),
        r.skipped_count == collected.1,
        r.skipped_log@ == collected.2@,
{
    let (files, skipped, skipped_log) = collected;
    let total_size_bytes = sum_sizes(&files);
    BackupScanResult {
        directory_id: String::from_str(directory_id),
        total_files: files.len() as u64,
        total_size_bytes,
        files,
        skipped_count: skipped,
        skipped_log,
    }
}

// ---------------------------------------------------------------- cleanup

/// What happened when one file was deleted.
#[derive(Debug, Clone)]
pub struct DeletionOutcome {
    pub path: String,
    /// The size the file had before the deletion (0 when unknown).
    pub size_bytes: u64,
    /// `None` when the file was deleted, else the text of the error.
    pub error: Option<String>,
}

/// How many deletions succeeded.
pub open spec fn deleted_count(outs: Seq<DeletionOutcome>) -> nat
    decreases outs.len(),
{
    if outs.len() == 0 {
        0
    } else {
        deleted_count(outs.drop_last()) + if outs.last().error is None { 1nat } else { 0 }
    }
}

/// How many deletions failed.
pub open spec fn failed_count(outs: Seq<DeletionOutcome>) -> nat
    decreases outs.len(),
{
    if outs.len() == 0 {
        0
    } else {
        failed_count(outs.drop_last()) + if outs.last().error is Some { 1nat } else { 0 }
    }
}

/// The space freed: the sizes of the files that were deleted.
pub open spec fn freed_bytes(outs: Seq<DeletionOutcome>) -> nat
    decreases outs.len(),
{
    if outs.len() == 0 {
        0
    } else {
        freed_bytes(outs.drop_last()) + if outs.last().error is None {
            outs.last().size_bytes as nat
        } else {
            0
        }
    }
}

/// One line per failed deletion: the path and the error.
pub open spec fn error_lines(outs: Seq<DeletionOutcome>) -> Seq<Seq<char>>
    decreases outs.len(),
{
    if outs.len() == 0 {
        Seq::empty()
    } else {
        let rest = error_lines(outs.drop_last());
        match outs.last().error {
            Some(e) => rest.push(outs.last().path@ + ": "@ + e@),
            None => rest,
        }
    }
}

/// Every outcome is a success or a failure.
pub proof fn lemma_outcomes_partition(outs: Seq<DeletionOutcome>)
    ensures
        deleted_count(outs) + failed_count(outs) == outs.len(),
    decreases outs.len(),
{
    if outs.len() > 0 {
        lemma_outcomes_partition(outs.drop_last());
    }
}

/// A deletion that failed frees nothing; one that succeeded frees the size
/// the file had.
pub proof fn lemma_freed_by_one_more(outs: Seq<DeletionOutcome>, o: DeletionOutcome)
    ensures
        o.error is Some ==> freed_bytes(outs.push(o)) == freed_bytes(outs),
        o.error is None ==> freed_bytes(outs.push(o)) == freed_bytes(outs) + o.size_bytes,
{
    assert(outs.push(o).drop_last() =~= outs);
}

/// The space freed is made of the sizes of deleted files only: it is 0 when
/// every deletion failed, and leaving out a failed deletion does not change it.
pub proof fn lemma_freed_only_from_deleted(outs: Seq<DeletionOutcome>)
    ensures
        (forall|k: int| 0 <= k < outs.len() ==> (#[trigger] outs[k]).error is Some) ==> freed_bytes(outs) == 0,
        forall|k: int|
            0 <= k < outs.len() && (#[trigger] outs[k]).error is Some ==> freed_bytes(outs)
                == freed_bytes(outs.remove(k)),
    decreases outs.len(),
{
    if outs.len() > 0 {
        let rest = outs.drop_last();
        lemma_freed_only_from_deleted(rest);
        if forall|k: int| 0 <= k < outs.len() ==> (#[trigger] outs[k]).error is Some {
            assert forall|k: int| 0 <= k < rest.len() implies (#[trigger] rest[k]).error is Some by {
                assert(rest[k] == outs[k]);
            }
        }
        assert forall|k: int|
            0 <= k < outs.len() && (#[trigger] outs[k]).error is Some implies freed_bytes(outs)
                == freed_bytes(outs.remove(k)) by {
            if k == outs.len() - 1 {
                assert(outs.remove(k) =~= rest);
            } else {
                assert(rest[k] == outs[k]);
                assert(outs.remove(k) =~= rest.remove(k).push(outs.last()));
                lemma_freed_by_one_more(rest.remove(k), outs.last());
            }
        }
    }
}

/// A prefix of the outcomes frees no more space than all of them.
pub proof fn lemma_freed_prefix(outs: Seq<DeletionOutcome>, n: int)
    requires
        0 <= n <= outs.len(),
    ensures
        freed_bytes(outs.subrange(0, n)) <= freed_bytes(outs),
    decreases outs.len() - n,
{
    if n < outs.len() {
        lemma_freed_prefix(outs, n + 1);
        assert(outs.subrange(0, n + 1).drop_last() =~= outs.subrange(0, n));
    } else {
        assert(outs.subrange(0, n) =~= outs);
    }
}

/// The report of a cleanup: how many files went, how many could not be
/// deleted, the space freed, and one error line per failure, in order.
pub fn tally_cleanup(outcomes: &Vec<DeletionOutcome>) -> (r: CleanupResult)
    requires
        freed_bytes(outcomes@) <= u64::MAX,
    ensures
        r.files_deleted == deleted_count(outcomes@),
        r.files_failed == failed_count(outcomes@),
        r.files_deleted + r.files_failed == outcomes@.len(),
        r.space_freed_bytes == freed_bytes(outcomes@),
        texts(r.errors@) == error_lines(outcomes@),
{
    let mut deleted: u64 = 0;
    let mut failed: u64 = 0;
    let mut freed: u64 = 0;
    let mut errors: Vec<String> = Vec::new();
    let mut i: usize = 0;
    assert(outcomes@.subrange(0, 0) =~= Seq::<DeletionOutcome>::empty());
    assert(texts(errors@) =~= Seq::<Seq<char>>::empty());
    while i < outcomes.len()
        invariant
            i <= outcomes@.len(),
            freed_bytes(outcomes@) <= u64::MAX,
            deleted == deleted_count(outcomes@.subrange(0, i as int)),
            failed == failed_count(outcomes@.subrange(0, i as int)),
            deleted + failed == i,
            freed == freed_bytes(outcomes@.subrange(0, i as int)),
            texts(errors@) == error_lines(outcomes@.subrange(0, i as int)),
        decreases outcomes.len() - i,
    {
        let ghost next = outcomes@.subrange(0, i + 1);
        proof {
            assert(next.drop_last() =~= outcomes@.subrange(0, i as int));
            lemma_freed_prefix(outcomes@, i + 1);
        }
        let o = &outcomes[i];
        match &o.error {
            None => {
                deleted = deleted + 1;
                freed = freed + o.size_bytes;
            },
            Some(e) => {
                failed = failed + 1;
                let mut line = String::from_str(o.path.as_str());
                line.append(": ");
                line.append(e.as_str());
                let ghost before = errors@;
                errors.push(line);
                assert(texts(errors@) =~= texts(before).push(line@));
            },
        }
        i = i + 1;
    }
    assert(outcomes@.subrange(0, outcomes@.len() as int) =~= outcomes@);
    CleanupResult { files_deleted: deleted, files_failed: failed, space_freed_bytes: freed, errors }
}

/// The status a cleanup is recorded with: partial when a deletion failed.
pub open spec fn cleanup_status(result: CleanupResult) -> Seq<char> {
    if result.files_failed > 0 {
        "partial"@
    } else {
        "completed"@
    }
}

/// The history record of cleanup `result` in directory `directory_id`,
/// under a fresh id and the current time.
pub fn cleanup_history_record(directory_id: &str, result: &CleanupResult) -> (r: Statement)
    requires
        result.files_deleted + result.files_failed <= u64::MAX,
    ensures
        r.sql@ == "INSERT INTO backup_scan_history (id, directory_id, scanned_at, total_files, files_deleted, space_freed_bytes, status) VALUES (?1, ?2, ?3, ?4, ?5, ?6, ?7)"@,
        views(r.params@).len() == 7,
        views(r.params@)[0] is Text,
        views(r.params@)[1] == SqlValueView::Text(directory_id@),
        views(r.params@)[2] is Text,
        views(r.params@)[3] == SqlValueView::UInt((result.files_deleted + result.files_failed) as u64),
        views(r.params@)[4] == SqlValueView::UInt(result.files_deleted),
        views(r.params@)[5] == SqlValueView::UInt(result.space_freed_bytes),
        views(r.params@)[6] == SqlValueView::Text(cleanup_status(*result)),
{
    let status = if result.files_failed > 0 {
        "partial"
    } else {
        "completed"
    };
    let params = vec![
        SqlValue::Text(new_id()),
        text_value(directory_id),
        SqlValue::Text(now_timestamp()),
        SqlValue::UInt(result.files_deleted + result.files_failed),
        SqlValue::UInt(result.files_deleted),
        SqlValue::UInt(result.space_freed_bytes),
        text_value(status),
    ];
    statement(
        "INSERT INTO backup_scan_history (id, directory_id, scanned_at, total_files, files_deleted, space_freed_bytes, status) VALUES (?1, ?2, ?3, ?4, ?5, ?6, ?7)",
        params,
    )
}

// ---------------------------------------------------------------- watched directories

/// The watched directory that an add of `req` creates at `canonical`, and the
/// insertion of it: a fresh id, the current time, recursive unless the
/// request says otherwise.
pub fn add_backup_directory_plan(req: AddBackupDirectoryRequest, canonical: String) -> (r: (
    Statement,
    BackupDirectory,
))
    ensures
        r.1.id@.len() == 36,
        r.1.path == canonical,
        r.1.label == req.label,
        r.1.recursive == match req.recursive {
            Some(b) => b,
            None => true,
        },
        r.1.updated_at@ == r.1.created_at@,
        r.0.sql@ == "INSERT INTO backup_directories (id, path, label, recursive, created_at, updated_at) VALUES (?1, ?2, ?3, ?4, ?5, ?6)"@,
        views(r.0.params@) == seq![
            SqlValueView::Text(r.1.id@),
            SqlValueView::Text(r.1.path@),
            opt_text(r.1.label),
            SqlValueView::Int(if r.1.recursive { 1 } else { 0 }),
            SqlValueView::Text(r.1.created_at@),
            SqlValueView::Text(r.1.updated_at@),
        ],
{
    let id = new_id();
    let now = now_timestamp();
    let recursive = match req.recursive {
        Some(b) => b,
        None => true,
    };
    let params = vec![
        text_value(id.as_str()),
        text_value(canonical.as_str()),
        opt_text_value(&req.label),
        SqlValue::Int(if recursive { 1 } else { 0 }),
        text_value(now.as_str()),
        text_value(now.as_str()),
    ];
    let st = statement(
        "INSERT INTO backup_directories (id, path, label, recursive, created_at, updated_at) VALUES (?1, ?2, ?3, ?4, ?5, ?6)",
        params,
    );
    let dir = BackupDirectory {
        id,
        path: canonical,
        label: req.label,
        recursive,
        created_at: now.clone(),
        updated_at: now,
    };
    assert(views(st.params@) =~= seq![
        SqlValueView::Text(dir.id@),
        SqlValueView::Text(dir.path@),
        opt_text(dir.label),
        SqlValueView::Int(if dir.recursive { 1 } else { 0 }),
        SqlValueView::Text(dir.created_at@),
        SqlValueView::Text(dir.updated_at@),
    ]);
    (st, dir)
}

/// The error of an add whose path is not a directory.
pub fn not_a_directory_error(path: &str) -> (r: String)
    ensures
        r@ == "Path is not a directory: "@ + path@,
{
    concat2("Path is not a directory: ", path)
}

/// The error the user sees when inserting a watched directory fails: a
/// uniqueness violation means the directory is already watched.
pub fn add_directory_error(db_error: &str) -> (r: String)
    ensures
        seq_contains(db_error@, "UNIQUE"@) ==> r@ == "Directory already added"@,
        !seq_contains(db_error@, "UNIQUE"@) ==> r@ == db_error@,
{
    if crate::text::str_contains(db_error, "UNIQUE") {
        String::from_str("Directory already added")
    } else {
        String::from_str(db_error)
    }
}

/// All watched directories, most recently added first.
pub fn list_backup_directories() -> (r: Statement)
    ensures
        r.sql@ == "SELECT id, path, label, recursive, created_at, updated_at FROM backup_directories ORDER BY created_at DESC"@,
        r.params@.len() == 0,
{
    statement(
        "SELECT id, path, label, recursive, created_at, updated_at FROM backup_directories ORDER BY created_at DESC",
        Vec::new(),
    )
}

/// A watched directory from the columns of its row; any `recursive` value
/// but 0 means recursive.
pub fn backup_directory_from_row(
    id: String,
    path: String,
    label: Option<String>,
    recursive: i32,
    created_at: String,
    updated_at: String,
) -> (r: BackupDirectory)
    ensures
        r.id == id,
        r.path == path,
        r.label == label,
        r.recursive == (recursive != 0),
        r.created_at == created_at,
        r.updated_at == updated_at,
{
    BackupDirectory { id, path, label, recursive: recursive != 0, created_at, updated_at }
}

/// The removal of watched directory `id`.
pub fn remove_backup_directory(id: &str) -> (r: Statement)
    ensures
        r.sql@ == "DELETE FROM backup_directories WHERE id = ?1"@,
        views(r.params@) == seq![SqlValueView::Text(id@)],
{
    let params = vec![text_value(id)];
    assert(views(params@) =~= seq![SqlValueView::Text(id@)]);
    statement("DELETE FROM backup_directories WHERE id = ?1", params)
}

/// The last hundred cleanups, newest first, with the path of their directory.
pub fn get_cleanup_history() -> (r: Statement)
    ensures
        r.sql@ == "SELECT h.id, h.directory_id, d.path, h.scanned_at, h.total_files, h.files_deleted, h.space_freed_bytes, h.status, h.error FROM backup_scan_history h LEFT JOIN backup_directories d ON h.directory_id = d.id ORDER BY h.scanned_at DESC LIMIT 100"@,
        r.params@.len() == 0,
{
    statement(
        "SELECT h.id, h.directory_id, d.path, h.scanned_at, h.total_files, h.files_deleted, h.space_freed_bytes, h.status, h.error FROM backup_scan_history h LEFT JOIN backup_directories d ON h.directory_id = d.id ORDER BY h.scanned_at DESC LIMIT 100",
        Vec::new(),
    )
}

/// A history line from the columns of its row: a directory that is gone
/// shows an empty path, and the counts are read as unsigned (two's complement).
pub fn history_entry_from_row(
    id: String,
    directory_id: String,
    directory_path: Option<String>,
    scanned_at: String,
    total_files: i64,
    files_deleted: i64,
    space_freed_bytes: i64,
    status: String,
    error: Option<String>,
) -> (r: BackupHistoryEntry)
    ensures
        r.id == id,
        r.directory_id == directory_id,
        r.directory_path@ == match directory_path {
            Some(p) => p@,
            None => Seq::empty(),
        },
        r.scanned_at == scanned_at,
        r.total_files == total_files as u64,
        r.files_deleted == files_deleted as u64,
        r.space_freed_bytes == space_freed_bytes as u64,
        r.status == status,
        r.error == error,
{
    BackupHistoryEntry {
        id,
        directory_id,
        directory_path: match directory_path {
            Some(p) => p,
            None => String::new(),
        },
        scanned_at,
        total_files: total_files as u64,
        files_deleted: files_deleted as u64,
        space_freed_bytes: space_freed_bytes as u64,
        status,
        error,
    }
}

/// The exclusion of paths matching `pattern` from directory `directory_id`,
/// under a fresh id and the current time.
pub fn add_excluded_path(directory_id: &str, pattern: &str) -> (r: Statement)
    ensures
        r.sql@ == "INSERT INTO backup_excluded_paths (id, directory_id, pattern, created_at) VALUES (?1, ?2, ?3, ?4)"@,
        views(r.params@).len() == 4,
        views(r.params@)[0] is Text,
        views(r.params@)[1] == SqlValueView::Text(directory_id@),
        views(r.params@)[2] == SqlValueView::Text(pattern@),
        views(r.params@)[3] is Text,
{
    let params = vec![
        SqlValue::Text(new_id()),
        text_value(directory_id),
        text_value(pattern),
        SqlValue::Text(now_timestamp()),
    ];
    statement(
        "INSERT INTO backup_excluded_paths (id, directory_id, pattern, created_at) VALUES (?1, ?2, ?3, ?4)",
        params,
    )
}

/// The exclusion patterns of a directory, oldest first.
pub fn list_excluded_paths(directory_id: &str) -> (r: Statement)
    ensures
        r.sql@ == "SELECT pattern FROM backup_excluded_paths WHERE directory_id = ?1 ORDER BY created_at"@,
        views(r.params@) == seq![SqlValueView::Text(directory_id@)],
{
    let params = vec![text_value(directory_id)];
    assert(views(params@) =~= seq![SqlValueView::Text(directory_id@)]);
    statement(
        "SELECT pattern FROM backup_excluded_paths WHERE directory_id = ?1 ORDER BY created_at",
        params,
    )
}

/// The removal of an exclusion pattern of a directory.
pub fn remove_excluded_path(directory_id: &str, pattern: &str) -> (r: Statement)
    ensures
        r.sql@ == "DELETE FROM backup_excluded_paths WHERE directory_id = ?1 AND pattern = ?2"@,
        views(r.params@) == seq![SqlValueView::Text(directory_id@), SqlValueView::Text(pattern@)],
{
    let params = vec![text_value(directory_id), text_value(pattern)];
    assert(views(params@) =~= seq![SqlValueView::Text(directory_id@), SqlValueView::Text(pattern@)]);
    statement("DELETE FROM backup_excluded_paths WHERE directory_id = ?1 AND pattern = ?2", params)
}

} // verus!
