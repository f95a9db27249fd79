//! The cleanup preview: which backups a cleanup removes when it keeps the
//! newest backups of each project.
//!
//! Backups are grouped by project (backups without a project form the group
//! "unknown"); inside a group they are ordered newest first by their
//! modification text (compared as UTF-8 bytes, like `String`'s ordering),
//! ties keeping scan order. The first `keep` backups of each group stay;
//! the others are removed.

use vstd::prelude::*;
use vstd::utf8::encode_utf8;
use vstd::set_lib::{lemma_int_range, lemma_len_subset, lemma_map_size, lemma_subset_equality, set_int_range};
use crate::models::backup::{BackupFileEntry, BackupScanResult, CleanupPreview};

verus! {

broadcast use {vstd::seq_lib::to_multiset_insert, vstd::seq_lib::to_multiset_contains};

// ---------------------------------------------------------------- ordering

/// The group a backup belongs to: its project, or "unknown".
pub open spec fn group_of(f: BackupFileEntry) -> Seq<char> {
    match f.parent_project {
        Some(p) => p@,
        None => "unknown"@,
    }
}

/// The bytes of a backup's modification text.
pub open spec fn stamp(f: BackupFileEntry) -> Seq<u8> {
    encode_utf8(f.modified@)
}

/// Lexicographic order on byte strings (a proper prefix comes first).
pub open spec fn bytes_lt(a: Seq<u8>, b: Seq<u8>) -> bool
    decreases a.len(),
{
    if a.len() == 0 {
        b.len() > 0
    } else if b.len() == 0 {
        false
    } else if a[0] != b[0] {
        a[0] < b[0]
    } else {
        bytes_lt(a.drop_first(), b.drop_first())
    }
}

/// Backup `j` comes before backup `i` in newest-first order: it is newer, or
/// equally new and earlier in the scan.
pub open spec fn sorts_before(files: Seq<BackupFileEntry>, j: int, i: int) -> bool {
    bytes_lt(stamp(files[i]), stamp(files[j])) || (stamp(files[j]) == stamp(files[i]) && j < i)
}

/// Backup `j` is in the group of backup `i` and comes before it.
pub open spec fn outranks(files: Seq<BackupFileEntry>, j: int, i: int) -> bool {
    group_of(files[j]) == group_of(files[i]) && sorts_before(files, j, i)
}

/// How many of the first `m` backups outrank backup `i`.
pub open spec fn rank_below(files: Seq<BackupFileEntry>, i: int, m: int) -> nat
    decreases m,
{
    if m <= 0 {
        0
    } else {
        rank_below(files, i, m - 1) + if outranks(files, m - 1, i) { 1nat } else { 0 }
    }
}

/// The position of backup `i` in its group, newest first (0 for the newest).
pub open spec fn rank(files: Seq<BackupFileEntry>, i: int) -> nat {
    rank_below(files, i, files.len() as int)
}

/// Backup `i` is removed when its group keeps `keep` backups: at least `keep`
/// backups of its group come before it.
pub open spec fn is_deleted(files: Seq<BackupFileEntry>, keep: nat, i: int) -> bool {
    rank(files, i) >= keep
}

/// `l` is the first backup of the group of backup `i`.
pub open spec fn is_leader(files: Seq<BackupFileEntry>, l: int, i: int) -> bool {
    &&& 0 <= l <= i
    &&& group_of(files[l]) == group_of(files[i])
    &&& forall|m: int| 0 <= m < l ==> group_of(#[trigger] files[m]) != group_of(files[i])
}

/// The first backup of the group of backup `i`.
pub open spec fn leader(files: Seq<BackupFileEntry>, i: int) -> int {
    choose|l: int| is_leader(files, l, i)
}

/// In a preview, backup `a` is listed no later than backup `b`: groups in the
/// order they first appear in the scan, and inside a group newest first.
pub open spec fn listed_before(files: Seq<BackupFileEntry>, a: int, b: int) -> bool {
    leader(files, a) < leader(files, b) || (leader(files, a) == leader(files, b) && rank(files, a)
        <= rank(files, b))
}

/// `idx` lists every removed backup exactly once, in preview order.
pub open spec fn is_cleanup_order(files: Seq<BackupFileEntry>, keep: nat, idx: Seq<usize>) -> bool {
    &&& idx.no_duplicates()
    &&& forall|k: int| 0 <= k < idx.len() ==> #[trigger] idx[k] < files.len() && is_deleted(files, keep, idx[k] as int)
    &&& forall|i: int| 0 <= i < files.len() && is_deleted(files, keep, i) ==> idx.contains(i as usize)
    &&& forall|k1: int, k2: int| 0 <= k1 < k2 < idx.len() ==> listed_before(files, #[trigger] idx[k1] as int, #[trigger] idx[k2] as int)
}

/// The combined size of the removed backups among the first `m`.
pub open spec fn deleted_total_below(files: Seq<BackupFileEntry>, keep: nat, m: int) -> nat
    decreases m,
{
    if m <= 0 {
        0
    } else {
        deleted_total_below(files, keep, m - 1) + if is_deleted(files, keep, m - 1) {
            files[m - 1].size_bytes as nat
        } else {
            0
        }
    }
}

/// The combined size of the removed backups.
pub open spec fn deleted_total(files: Seq<BackupFileEntry>, keep: nat) -> nat {
    deleted_total_below(files, keep, files.len() as int)
}

/// How many backups among the first `m` are removed.
pub open spec fn deleted_count_below(files: Seq<BackupFileEntry>, keep: nat, m: int) -> nat
    decreases m,
{
    if m <= 0 {
        0
    } else {
        deleted_count_below(files, keep, m - 1) + if is_deleted(files, keep, m - 1) { 1nat } else { 0 }
    }
}

// ---------------------------------------------------------------- byte comparison

/// Equal bytes at position `k` leave the comparison to what follows them.
proof fn lemma_bytes_lt_step(a: Seq<u8>, b: Seq<u8>, k: int)
    requires
        0 <= k < a.len(),
        k < b.len(),
        a[k] == b[k],
    ensures
        bytes_lt(a.skip(k), b.skip(k)) == bytes_lt(a.skip(k + 1), b.skip(k + 1)),
{
    assert(a.skip(k).drop_first() =~= a.skip(k + 1));
    assert(b.skip(k).drop_first() =~= b.skip(k + 1));
}

/// Whether byte string `a` comes before `b`.
fn bytes_less(a: &[u8], b: &[u8]) -> (r: bool)
    ensures
        r == bytes_lt(a@, b@),
{
    let mut k: usize = 0;
    assert(a@.skip(0) =~= a@);
    assert(b@.skip(0) =~= b@);
    while k < a.len() && k < b.len()
        invariant
            k <= a@.len(),
            k <= b@.len(),
            bytes_lt(a@, b@) == bytes_lt(a@.skip(k as int), b@.skip(k as int)),
        decreases a.len() - k,
    {
        if a[k] != b[k] {
            return a[k] < b[k];
        }
        proof {
            lemma_bytes_lt_step(a@, b@, k as int);
        }
        k = k + 1;
    }
    k == a.len() && k < b.len()
}

/// Whether two byte strings are equal.
fn bytes_equal(a: &[u8], b: &[u8]) -> (r: bool)
    ensures
        r == (a@ == b@),
{
    if a.len() != b.len() {
        return false;
    }
    let mut k: usize = 0;
    while k < a.len()
        invariant
            k <= a@.len(),
            a@.len() == b@.len(),
            forall|m: int| 0 <= m < k ==> a@[m] == b@[m],
        decreases a.len() - k,
    {
        if a[k] != b[k] {
            return false;
        }
        k = k + 1;
    }
    assert(a@ =~= b@);
    true
}

// ---------------------------------------------------------------- building blocks

/// A copy of a backup entry.
pub fn clone_entry(e: &BackupFileEntry) -> (r: BackupFileEntry)
    ensures
        r == *e,
{
    BackupFileEntry {
        path: e.path.clone(),
        name: e.name.clone(),
        size_bytes: e.size_bytes,
        modified: e.modified.clone(),
        parent_project: match &e.parent_project {
            Some(p) => Some(p.clone()),
            None => None,
        },
    }
}

/// The group of each backup.
fn group_keys(files: &Vec<BackupFileEntry>) -> (r: Vec<String>)
    ensures
        r@.len() == files@.len(),
        forall|i: int| 0 <= i < files@.len() ==> (#[trigger] r@[i])@ == group_of(files@[i]),
{
    let mut r: Vec<String> = Vec::new();
    let mut i: usize = 0;
    while i < files.len()
        invariant
            i <= files@.len(),
            r@.len() == i,
            forall|k: int| 0 <= k < i ==> (#[trigger] r@[k])@ == group_of(files@[k]),
        decreases files.len() - i,
    {
        let key = match &files[i].parent_project {
            Some(p) => p.clone(),
            None => String::from_str("unknown"),
        };
        r.push(key);
        i = i + 1;
    }
    r
}

/// Whether backup `j` comes before backup `i` in newest-first order.
fn sorts_before_exec(files: &Vec<BackupFileEntry>, j: usize, i: usize) -> (r: bool)
    requires
        j < files@.len(),
        i < files@.len(),
    ensures
        r == sorts_before(files@, j as int, i as int),
{
    let bi = files[i].modified.as_str().as_bytes();
    let bj = files[j].modified.as_str().as_bytes();
    bytes_less(bi, bj) || (bytes_equal(bj, bi) && j < i)
}

/// The rank of each backup in its group.
fn ranks_of(files: &Vec<BackupFileEntry>, keys: &Vec<String>) -> (r: Vec<usize>)
    requires
        keys@.len() == files@.len(),
        forall|i: int| 0 <= i < files@.len() ==> (#[trigger] keys@[i])@ == group_of(files@[i]),
    ensures
        r@.len() == files@.len(),
        forall|i: int| 0 <= i < files@.len() ==> #[trigger] r@[i] == rank(files@, i),
{
    let n = files.len();
    let mut r: Vec<usize> = Vec::new();
    let mut i: usize = 0;
    while i < n
        invariant
            n == files@.len(),
            keys@.len() == n,
            forall|i: int| 0 <= i < n ==> (#[trigger] keys@[i])@ == group_of(files@[i]),
            i <= n,
            r@.len() == i,
            forall|k: int| 0 <= k < i ==> #[trigger] r@[k] == rank(files@, k),
        decreases n - i,
    {
        let mut count: usize = 0;
        let mut j: usize = 0;
        while j < n
            invariant
                n == files@.len(),
                keys@.len() == n,
                forall|i: int| 0 <= i < n ==> (#[trigger] keys@[i])@ == group_of(files@[i]),
                i < n,
                j <= n,
                count == rank_below(files@, i as int, j as int),
                count <= j,
            decreases n - j,
        {
            if keys[j] == keys[i] && sorts_before_exec(files, j, i) {
                count = count + 1;
            }
            proof {
                assert(keys@[j as int]@ == group_of(files@[j as int]));
                assert(keys@[i as int]@ == group_of(files@[i as int]));
            }
            j = j + 1;
        }
        r.push(count);
        i = i + 1;
    }
    r
}

/// The first backup of the group of backup `i` is unique.
proof fn lemma_leader(files: Seq<BackupFileEntry>, l: int, i: int)
    requires
        is_leader(files, l, i),
    ensures
        leader(files, i) == l,
{
    let c = leader(files, i);
    assert(is_leader(files, c, i));
    if c < l {
        assert(group_of(files[c]) != group_of(files[i]));
    }
    if l < c {
        assert(group_of(files[l]) != group_of(files[i]));
    }
}

/// The first backup of each backup's group.
fn leaders_of(files: &Vec<BackupFileEntry>, keys: &Vec<String>) -> (r: Vec<usize>)
    requires
        keys@.len() == files@.len(),
        forall|i: int| 0 <= i < files@.len() ==> (#[trigger] keys@[i])@ == group_of(files@[i]),
    ensures
        r@.len() == files@.len(),
        forall|i: int| 0 <= i < files@.len() ==> #[trigger] r@[i] == leader(files@, i),
{
    let n = files.len();
    let mut r: Vec<usize> = Vec::new();
    let mut i: usize = 0;
    while i < n
        invariant
            n == files@.len(),
            keys@.len() == n,
            forall|i: int| 0 <= i < n ==> (#[trigger] keys@[i])@ == group_of(files@[i]),
            i <= n,
            r@.len() == i,
            forall|k: int| 0 <= k < i ==> #[trigger] r@[k] == leader(files@, k),
        decreases n - i,
    {
        let mut j: usize = 0;
        while !(keys[j] == keys[i])
            invariant
                n == files@.len(),
                keys@.len() == n,
                forall|i: int| 0 <= i < n ==> (#[trigger] keys@[i])@ == group_of(files@[i]),
                i < n,
                j <= i,
                forall|m: int| 0 <= m < j ==> group_of(#[trigger] files@[m]) != group_of(files@[i as int]),
            decreases i - j,
        {
            proof {
                assert(keys@[j as int]@ == group_of(files@[j as int]));
                assert(keys@[i as int]@ == group_of(files@[i as int]));
            }
            j = j + 1;
        }
        proof {
            assert(keys@[j as int]@ == group_of(files@[j as int]));
            assert(keys@[i as int]@ == group_of(files@[i as int]));
            lemma_leader(files@, j as int, i as int);
        }
        r.push(j);
        i = i + 1;
    }
    r
}

// ---------------------------------------------------------------- stable sort

/// Element `a` orders no later than `b` by the key pair (`primary`, `secondary`).
pub open spec fn key_le(primary: Seq<usize>, secondary: Seq<usize>, a: usize, b: usize) -> bool {
    primary[a as int] < primary[b as int] || (primary[a as int] == primary[b as int]
        && secondary[a as int] <= secondary[b as int])
}

/// `items` in key order; equal keys keep their order.
fn sort_by_keys(items: &Vec<usize>, primary: &Vec<usize>, secondary: &Vec<usize>) -> (r: Vec<usize>)
    requires
        forall|k: int| 0 <= k < items@.len() ==> #[trigger] items@[k] < primary@.len() && items@[k] < secondary@.len(),
    ensures
        r@.to_multiset() == items@.to_multiset(),
        forall|k1: int, k2: int| 0 <= k1 < k2 < r@.len() ==> key_le(primary@, secondary@, #[trigger] r@[k1], #[trigger] r@[k2]),
{
    let mut out: Vec<usize> = Vec::new();
    let mut i: usize = 0;
    while i < items.len()
        invariant
            i <= items@.len(),
            forall|k: int| 0 <= k < items@.len() ==> #[trigger] items@[k] < primary@.len() && items@[k] < secondary@.len(),
            out@.to_multiset() == items@.subrange(0, i as int).to_multiset(),
            forall|k: int| 0 <= k < out@.len() ==> #[trigger] out@[k] < primary@.len() && out@[k] < secondary@.len(),
            forall|k1: int, k2: int| 0 <= k1 < k2 < out@.len() ==> key_le(primary@, secondary@, #[trigger] out@[k1], #[trigger] out@[k2]),
        decreases items.len() - i,
    {
        let x = items[i];
        let mut p: usize = 0;
        while p < out.len() && !(primary[x] < primary[out[p]] || (primary[x] == primary[out[p]] && secondary[x] < secondary[out[p]]))
            invariant
                p <= out@.len(),
                x < primary@.len(),
                x < secondary@.len(),
                forall|k: int| 0 <= k < out@.len() ==> #[trigger] out@[k] < primary@.len() && out@[k] < secondary@.len(),
                forall|k: int| 0 <= k < p ==> key_le(primary@, secondary@, #[trigger] out@[k], x),
            decreases out.len() - p,
        {
            p = p + 1;
        }
        let ghost before = out@;
        out.insert(p, x);
        proof {
            assert(items@.subrange(0, i + 1) =~= items@.subrange(0, i as int).push(x));
            vstd::seq_lib::to_multiset_build(items@.subrange(0, i as int), x);
            assert(out@ == before.insert(p as int, x));
            assert forall|k1: int, k2: int| 0 <= k1 < k2 < out@.len() implies key_le(
                primary@,
                secondary@,
                #[trigger] out@[k1],
                #[trigger] out@[k2],
            ) by {
                if k2 < p {
                    assert(out@[k1] == before[k1] && out@[k2] == before[k2]);
                } else if k2 == p {
                    assert(out@[k1] == before[k1]);
                } else if k1 < p {
                    assert(out@[k1] == before[k1] && out@[k2] == before[k2 - 1]);
                    assert(key_le(primary@, secondary@, before[k1], before[p as int]));
                } else if k1 == p {
                    assert(out@[k2] == before[k2 - 1]);
                    assert(key_le(primary@, secondary@, before[p as int], before[k2 - 1]) || k2 - 1 == p);
                } else {
                    assert(out@[k1] == before[k1 - 1] && out@[k2] == before[k2 - 1]);
                }
            }
        }
        i = i + 1;
    }
    assert(items@.subrange(0, items@.len() as int) =~= items@);
    out
}


// ---------------------------------------------------------------- preview

/// What a cleanup keeping `backups_to_keep` backups per project would remove:
/// every backup with at least that many newer backups in its project, listed
/// project by project (in the order the projects first appear in the scan),
/// newest first; their count and combined size; and how many backups stay.
pub fn preview_cleanup(scan_result: &BackupScanResult, backups_to_keep: u32) -> (r: CleanupPreview)
    requires
        deleted_total(scan_result.files@, backups_to_keep as nat) <= u64::MAX,
    ensures
        r.directory_id == scan_result.directory_id,
        exists|idx: Seq<usize>|
            #[trigger] is_cleanup_order(scan_result.files@, backups_to_keep as nat, idx)
                && r.files_to_delete@ == idx.map_values(|i: usize| scan_result.files@[i as int]),
        r.total_files == r.files_to_delete@.len(),
        r.total_files == deleted_count_below(scan_result.files@, backups_to_keep as nat, scan_result.files@.len() as int),
        r.total_size_bytes == deleted_total(scan_result.files@, backups_to_keep as nat),
        r.kept_files + r.total_files == scan_result.files@.len(),
{
    let files = &scan_result.files;
    let ghost fs = files@;
    let ghost keep = backups_to_keep as nat;
    let n = files.len();
    let keys = group_keys(files);
    let ranks = ranks_of(files, &keys);
    let leads = leaders_of(files, &keys);

    // The removed backups in scan order, and their combined size.
    let mut removed: Vec<usize> = Vec::new();
    let mut total: u64 = 0;
    let mut i: usize = 0;
    while i < n
        invariant
            n == fs.len(),
            fs == files@,
            keep == backups_to_keep as nat,
            ranks@.len() == n,
            forall|k: int| 0 <= k < n ==> #[trigger] ranks@[k] == rank(fs, k),
            deleted_total(fs, keep) <= u64::MAX,
            i <= n,
            total == deleted_total_below(fs, keep, i as int),
            removed@.len() == deleted_count_below(fs, keep, i as int),
            removed@.len() <= i,
            forall|k: int| 0 <= k < removed@.len() ==> #[trigger] removed@[k] < i && is_deleted(fs, keep, removed@[k] as int),
            forall|k1: int, k2: int| 0 <= k1 < k2 < removed@.len() ==> #[trigger] removed@[k1] < #[trigger] removed@[k2],
            forall|m: int| 0 <= m < i && is_deleted(fs, keep, m) ==> removed@.contains(m as usize),
        decreases n - i,
    {
        proof {
            lemma_deleted_total_monotone(fs, keep, i as int + 1, n as int);
        }
        if ranks[i] >= backups_to_keep as usize {
            let ghost before = removed@;
            removed.push(i);
            total = total + files[i].size_bytes;
            proof {
                assert forall|m: int| 0 <= m < i + 1 && is_deleted(fs, keep, m) implies removed@.contains(m as usize) by {
                    if m == i {
                        assert(removed@[removed@.len() - 1] == i);
                    } else {
                        let k = choose|k: int| 0 <= k < before.len() && before[k] == m as usize;
                        assert(removed@[k] == m as usize);
                    }
                }
            }
        }
        i = i + 1;
    }

    // Project by project, newest first.
    let order = sort_by_keys(&removed, &leads, &ranks);
    proof {
        assert(removed@.no_duplicates());
        removed@.lemma_multiset_has_no_duplicates();
        assert forall|x: usize| order@.to_multiset().contains(x) implies order@.to_multiset().count(x) == 1 by {
            assert(removed@.to_multiset().contains(x));
        }
        order@.lemma_multiset_has_no_duplicates_conv();
        assert forall|k: int| 0 <= k < order@.len() implies #[trigger] order@[k] < fs.len() && is_deleted(fs, keep, order@[k] as int) by {
            assert(order@.to_multiset().count(order@[k]) > 0);
            assert(removed@.contains(order@[k]));
        }
        assert forall|m: int| 0 <= m < fs.len() && is_deleted(fs, keep, m) implies order@.contains(m as usize) by {
            assert(removed@.contains(m as usize));
            assert(removed@.to_multiset().count(m as usize) > 0);
        }
        assert forall|k1: int, k2: int| 0 <= k1 < k2 < order@.len() implies listed_before(fs, #[trigger] order@[k1] as int, #[trigger] order@[k2] as int) by {
            assert(key_le(leads@, ranks@, order@[k1], order@[k2]));
        }
        assert(is_cleanup_order(fs, keep, order@));
        vstd::seq_lib::to_multiset_len(order@);
        vstd::seq_lib::to_multiset_len(removed@);
    }

    let mut out: Vec<BackupFileEntry> = Vec::new();
    let mut k: usize = 0;
    while k < order.len()
        invariant
            k <= order@.len(),
            fs == files@,
            forall|j: int| 0 <= j < order@.len() ==> #[trigger] order@[j] < fs.len(),
            out@ == order@.subrange(0, k as int).map_values(|i: usize| fs[i as int]),
        decreases order.len() - k,
    {
        let e = clone_entry(&files[order[k]]);
        out.push(e);
        proof {
            assert(order@.subrange(0, k + 1).map_values(|i: usize| fs[i as int]) =~= order@.subrange(0, k as int).map_values(|i: usize| fs[i as int]).push(fs[order@[k as int] as int]));
        }
        k = k + 1;
    }
    assert(order@.subrange(0, order@.len() as int) =~= order@);
    let count = out.len() as u64;
    CleanupPreview {
        directory_id: scan_result.directory_id.clone(),
        files_to_delete: out,
        total_files: count,
        total_size_bytes: total,
        kept_files: (n - order.len()) as u64,
    }
}

// ---------------------------------------------------------------- laws

/// No byte string comes before itself.
proof fn lemma_bytes_lt_irreflexive(a: Seq<u8>)
    ensures
        !bytes_lt(a, a),
    decreases a.len(),
{
    if a.len() > 0 {
        lemma_bytes_lt_irreflexive(a.drop_first());
    }
}

/// The byte order is transitive.
proof fn lemma_bytes_lt_transitive(a: Seq<u8>, b: Seq<u8>, c: Seq<u8>)
    requires
        bytes_lt(a, b),
        bytes_lt(b, c),
    ensures
        bytes_lt(a, c),
    decreases a.len(),
{
    if a.len() > 0 && b.len() > 0 && c.len() > 0 && a[0] == b[0] && b[0] == c[0] {
        lemma_bytes_lt_transitive(a.drop_first(), b.drop_first(), c.drop_first());
    }
}

/// Of two different byte strings, one comes before the other.
proof fn lemma_bytes_lt_total(a: Seq<u8>, b: Seq<u8>)
    ensures
        a == b || bytes_lt(a, b) || bytes_lt(b, a),
    decreases a.len(),
{
    if a.len() == 0 && b.len() == 0 {
        assert(a =~= b);
    } else if a.len() > 0 && b.len() > 0 && a[0] == b[0] {
        lemma_bytes_lt_total(a.drop_first(), b.drop_first());
        if a.drop_first() == b.drop_first() {
            assert(a.len() == a.drop_first().len() + 1);
            assert(b.len() == b.drop_first().len() + 1);
            assert forall|k: int| 0 <= k < a.len() implies a[k] == b[k] by {
                if k > 0 {
                    assert(a[k] == a.drop_first()[k - 1]);
                    assert(b[k] == b.drop_first()[k - 1]);
                }
            }
            assert(a =~= b);
        }
    }
}

/// Newest-first order is transitive.
proof fn lemma_sorts_before_transitive(files: Seq<BackupFileEntry>, a: int, b: int, c: int)
    requires
        sorts_before(files, a, b),
        sorts_before(files, b, c),
    ensures
        sorts_before(files, a, c),
{
    if bytes_lt(stamp(files[b]), stamp(files[a])) && bytes_lt(stamp(files[c]), stamp(files[b])) {
        lemma_bytes_lt_transitive(stamp(files[c]), stamp(files[b]), stamp(files[a]));
    }
}

/// Of two different backups, one comes before the other in newest-first order.
proof fn lemma_sorts_before_total(files: Seq<BackupFileEntry>, a: int, b: int)
    requires
        a != b,
    ensures
        sorts_before(files, a, b) || sorts_before(files, b, a),
{
    lemma_bytes_lt_total(stamp(files[a]), stamp(files[b]));
}

/// No backup comes before itself.
proof fn lemma_not_sorts_before_self(files: Seq<BackupFileEntry>, a: int)
    ensures
        !sorts_before(files, a, a),
{
    lemma_bytes_lt_irreflexive(stamp(files[a]));
}

/// When backup `i` outranks backup `j`, every backup among the first `m`
/// that outranks `i` outranks `j` too, and so does `i` itself.
proof fn lemma_rank_below_dominates(files: Seq<BackupFileEntry>, i: int, j: int, m: int)
    requires
        0 <= i < files.len(),
        0 <= j < files.len(),
        outranks(files, i, j),
    ensures
        rank_below(files, j, m) >= rank_below(files, i, m) + if 0 <= i < m { 1int } else { 0int },
    decreases m,
{
    if m > 0 {
        lemma_rank_below_dominates(files, i, j, m - 1);
        let x = m - 1;
        if outranks(files, x, i) {
            lemma_sorts_before_transitive(files, x, i, j);
        }
        if x == i {
            lemma_not_sorts_before_self(files, i);
        }
    }
}

/// Inside a project, every kept backup comes before every removed one in
/// newest-first order: a cleanup never removes a backup while keeping an
/// older one of the same project.
pub proof fn lemma_kept_newer_than_removed(files: Seq<BackupFileEntry>, keep: nat, i: int, j: int)
    requires
        0 <= i < files.len(),
        0 <= j < files.len(),
        group_of(files[i]) == group_of(files[j]),
        is_deleted(files, keep, i),
        !is_deleted(files, keep, j),
    ensures
        sorts_before(files, j, i),
{
    if !sorts_before(files, j, i) {
        lemma_sorts_before_total(files, i, j);
        lemma_rank_below_dominates(files, i, j, files.len() as int);
    }
}

/// When `b` does not come before `a` in byte order, `a` is a prefix of `b` or
/// the first byte where they differ is smaller in `a`.
proof fn lemma_not_lt_is_le(a: Seq<u8>, b: Seq<u8>)
    requires
        !bytes_lt(b, a),
    ensures
        (a.len() <= b.len() && a == b.subrange(0, a.len() as int)) || (exists|k: int|
            0 <= k < a.len() && k < b.len() && a.subrange(0, k) == b.subrange(0, k) && a[k] < b[k]),
    decreases a.len(),
{
    if a.len() == 0 {
        assert(a =~= b.subrange(0, 0));
    } else if b.len() > 0 {
        if a[0] != b[0] {
            assert(a.subrange(0, 0) =~= b.subrange(0, 0));
        } else {
            let a1 = a.drop_first();
            let b1 = b.drop_first();
            lemma_not_lt_is_le(a1, b1);
            if a1.len() <= b1.len() && a1 == b1.subrange(0, a1.len() as int) {
                assert forall|m: int| 0 <= m < a.len() implies #[trigger] a[m] == b.subrange(0, a.len() as int)[m] by {
                    if m > 0 {
                        assert(a[m] == a1[m - 1]);
                        assert(b[m] == b1[m - 1]);
                        assert(a1[m - 1] == b1.subrange(0, a1.len() as int)[m - 1]);
                    }
                }
                assert(a =~= b.subrange(0, a.len() as int));
            } else {
                let k = choose|k: int|
                    0 <= k < a1.len() && k < b1.len() && a1.subrange(0, k) == b1.subrange(0, k) && a1[k] < b1[k];
                assert forall|m: int| 0 <= m < k + 1 implies #[trigger] a.subrange(0, k + 1)[m] == b.subrange(0, k + 1)[m] by {
                    if m > 0 {
                        assert(a1.subrange(0, k)[m - 1] == b1.subrange(0, k)[m - 1]);
                    }
                }
                assert(a.subrange(0, k + 1) =~= b.subrange(0, k + 1));
                assert(a[k + 1] == a1[k] && b[k + 1] == b1[k]);
            }
        }
    }
}

/// A cleanup orders backups by their whole modification text: inside a
/// project, the UTF-8 text of every removed backup is no greater than that
/// of any kept backup (a prefix of it, or smaller at the first byte where
/// they differ), however much of the text the two have in common.
pub proof fn lemma_removed_not_newer_than_kept(files: Seq<BackupFileEntry>, keep: nat, i: int, j: int)
    requires
        0 <= i < files.len(),
        0 <= j < files.len(),
        group_of(files[i]) == group_of(files[j]),
        is_deleted(files, keep, i),
        !is_deleted(files, keep, j),
    ensures
        ({
            let a = encode_utf8(files[i].modified@);
            let b = encode_utf8(files[j].modified@);
            (a.len() <= b.len() && a == b.subrange(0, a.len() as int)) || (exists|k: int|
                0 <= k < a.len() && k < b.len() && a.subrange(0, k) == b.subrange(0, k) && a[k] < b[k])
        }),
{
    let a = encode_utf8(files[i].modified@);
    let b = encode_utf8(files[j].modified@);
    lemma_kept_newer_than_removed(files, keep, i, j);
    if bytes_lt(b, a) {
        if bytes_lt(a, b) {
            lemma_bytes_lt_transitive(a, b, a);
            lemma_bytes_lt_irreflexive(a);
        } else {
            lemma_bytes_lt_irreflexive(a);
        }
    }
    lemma_not_lt_is_le(a, b);
}

/// The positions of the backups of group `g`.
pub open spec fn members(files: Seq<BackupFileEntry>, g: Seq<char>) -> Set<int> {
    Set::new(|i: int| 0 <= i < files.len() && group_of(files[i]) == g)
}

/// The positions of the backups of group `g` that a cleanup keeping `keep`
/// per group leaves in place.
pub open spec fn kept_members(files: Seq<BackupFileEntry>, keep: nat, g: Seq<char>) -> Set<int> {
    Set::new(|i: int| 0 <= i < files.len() && group_of(files[i]) == g && !is_deleted(files, keep, i))
}

/// The positions among the first `m` of the backups that outrank backup `i`.
spec fn outrankers(files: Seq<BackupFileEntry>, i: int, m: int) -> Set<int> {
    Set::new(|j: int| 0 <= j < m && outranks(files, j, i))
}

/// `rank_below` counts the backups among the first `m` that outrank backup `i`.
proof fn lemma_rank_below_counts(files: Seq<BackupFileEntry>, i: int, m: int)
    requires
        0 <= m,
    ensures
        outrankers(files, i, m).finite(),
        rank_below(files, i, m) == outrankers(files, i, m).len(),
    decreases m,
{
    if m == 0 {
        assert(outrankers(files, i, 0) =~= Set::<int>::empty());
    } else {
        lemma_rank_below_counts(files, i, m - 1);
        let before = outrankers(files, i, m - 1);
        if outranks(files, m - 1, i) {
            assert(outrankers(files, i, m) =~= before.insert(m - 1));
        } else {
            assert(outrankers(files, i, m) =~= before);
        }
    }
}

/// A group has finitely many members, no more than there are backups.
proof fn lemma_members_finite(files: Seq<BackupFileEntry>, g: Seq<char>)
    ensures
        members(files, g).finite(),
        members(files, g).len() <= files.len(),
{
    lemma_int_range(0, files.len() as int);
    lemma_len_subset(members(files, g), set_int_range(0, files.len() as int));
}

/// A backup's rank is less than the size of its group.
proof fn lemma_rank_in_group(files: Seq<BackupFileEntry>, i: int)
    requires
        0 <= i < files.len(),
    ensures
        rank(files, i) < members(files, group_of(files[i])).len(),
{
    let g = group_of(files[i]);
    let n = files.len() as int;
    lemma_rank_below_counts(files, i, n);
    lemma_members_finite(files, g);
    lemma_not_sorts_before_self(files, i);
    let others = members(files, g).remove(i);
    assert(outrankers(files, i, n).subset_of(others));
    lemma_len_subset(outrankers(files, i, n), others);
}

/// Two backups of one group never share a rank.
proof fn lemma_rank_injective(files: Seq<BackupFileEntry>, i: int, j: int)
    requires
        0 <= i < files.len(),
        0 <= j < files.len(),
        i != j,
        group_of(files[i]) == group_of(files[j]),
    ensures
        rank(files, i) != rank(files, j),
{
    lemma_sorts_before_total(files, i, j);
    if sorts_before(files, i, j) {
        lemma_rank_below_dominates(files, i, j, files.len() as int);
    } else {
        lemma_rank_below_dominates(files, j, i, files.len() as int);
    }
}

/// A cleanup keeps, in each project, as many backups as it is told to keep,
/// or all of them when the project has fewer.
pub proof fn lemma_kept_per_group(files: Seq<BackupFileEntry>, keep: nat, g: Seq<char>)
    ensures
        kept_members(files, keep, g).finite(),
        kept_members(files, keep, g).len() == if members(files, g).len() <= keep {
            members(files, g).len()
        } else {
            keep
        },
{
    let all = members(files, g);
    let kept = kept_members(files, keep, g);
    let n = all.len() as int;
    let f = |i: int| rank(files, i) as int;
    lemma_members_finite(files, g);
    assert(kept.subset_of(all));
    lemma_len_subset(kept, all);
    assert forall|x: int, y: int| all.contains(x) && all.contains(y) && #[trigger] f(x) == #[trigger] f(y) implies x == y by {
        if x != y {
            lemma_rank_injective(files, x, y);
        }
    }
    let img = all.map(f);
    lemma_map_size(all, img, f);
    lemma_int_range(0, n);
    assert forall|r: int| #[trigger] img.contains(r) implies set_int_range(0, n).contains(r) by {
        let x = choose|x: int| all.contains(x) && r == f(x);
        lemma_rank_in_group(files, x);
    }
    lemma_subset_equality(img, set_int_range(0, n));
    let m = if n <= keep { n } else { keep as int };
    let kimg = kept.map(f);
    assert forall|r: int| #[trigger] kimg.contains(r) implies set_int_range(0, m).contains(r) by {
        let x = choose|x: int| kept.contains(x) && r == f(x);
        lemma_rank_in_group(files, x);
    }
    assert forall|r: int| #[trigger] set_int_range(0, m).contains(r) implies kimg.contains(r) by {
        assert(set_int_range(0, n).contains(r));
        assert(img.contains(r));
        let x = choose|x: int| all.contains(x) && r == f(x);
        assert(kept.contains(x));
    }
    assert(kimg =~= set_int_range(0, m));
    lemma_int_range(0, m);
    lemma_map_size(kept, kimg, f);
}

/// A project with no more backups than are kept loses none of them; backups
/// of other projects (the project being the parent project's name, or
/// "unknown" for none) play no part.
pub proof fn lemma_small_project_keeps_all(files: Seq<BackupFileEntry>, keep: nat, i: int)
    requires
        0 <= i < files.len(),
        Set::new(|j: int| 0 <= j < files.len() && (match files[j].parent_project {
            Some(p) => p@,
            None => "unknown"@,
        }) == (match files[i].parent_project {
            Some(p) => p@,
            None => "unknown"@,
        })).len() <= keep,
    ensures
        !is_deleted(files, keep, i),
{
    let g = group_of(files[i]);
    assert(members(files, g) =~= Set::new(|j: int| 0 <= j < files.len() && (match files[j].parent_project {
        Some(p) => p@,
        None => "unknown"@,
    }) == (match files[i].parent_project {
        Some(p) => p@,
        None => "unknown"@,
    })));
    lemma_rank_in_group(files, i);
}

/// Keeping more backups per project never removes a backup that keeping
/// fewer would have kept, and never frees more space.
pub proof fn lemma_keep_more_removes_less(files: Seq<BackupFileEntry>, fewer: nat, more: nat)
    requires
        fewer <= more,
    ensures
        forall|i: int| 0 <= i < files.len() && is_deleted(files, more, i) ==> is_deleted(files, fewer, i),
        deleted_total(files, more) <= deleted_total(files, fewer),
        deleted_count_below(files, more, files.len() as int) <= deleted_count_below(files, fewer, files.len() as int),
{
    lemma_keep_more_prefix(files, fewer, more, files.len() as int);
}

/// Among the first `m` backups, keeping more removes no more.
proof fn lemma_keep_more_prefix(files: Seq<BackupFileEntry>, fewer: nat, more: nat, m: int)
    requires
        fewer <= more,
    ensures
        deleted_total_below(files, more, m) <= deleted_total_below(files, fewer, m),
        deleted_count_below(files, more, m) <= deleted_count_below(files, fewer, m),
    decreases m,
{
    if m > 0 {
        lemma_keep_more_prefix(files, fewer, more, m - 1);
    }
}

/// Whether the backups that a cleanup keeping `backups_to_keep` per project
/// removes weigh no more than a `u64` holds, which `preview_cleanup` needs.
pub fn removed_size_fits(scan_result: &BackupScanResult, backups_to_keep: u32) -> (r: bool)
    ensures
        r == (deleted_total(scan_result.files@, backups_to_keep as nat) <= u64::MAX),
{
    let files = &scan_result.files;
    let ghost fs = files@;
    let ghost keep = backups_to_keep as nat;
    let n = files.len();
    let keys = group_keys(files);
    let ranks = ranks_of(files, &keys);
    let mut total: u64 = 0;
    let mut i: usize = 0;
    while i < n
        invariant
            n == fs.len(),
            fs == files@,
            fs == scan_result.files@,
            keep == backups_to_keep as nat,
            ranks@.len() == n,
            forall|k: int| 0 <= k < n ==> #[trigger] ranks@[k] == rank(fs, k),
            i <= n,
            total == deleted_total_below(fs, keep, i as int),
        decreases n - i,
    {
        if ranks[i] >= backups_to_keep as usize {
            if files[i].size_bytes > u64::MAX - total {
                proof {
                    assert(is_deleted(fs, keep, i as int));
                    assert(deleted_total_below(fs, keep, i as int + 1) == total + fs[i as int].size_bytes);
                    lemma_deleted_total_monotone(fs, keep, i as int + 1, n as int);
                }
                return false;
            }
            total = total + files[i].size_bytes;
        }
        i = i + 1;
    }
    true
}

/// The removed backups among the first `m` weigh no more than among the first `n`.
proof fn lemma_deleted_total_monotone(files: Seq<BackupFileEntry>, keep: nat, m: int, n: int)
    requires
        0 <= m <= n,
    ensures
        deleted_total_below(files, keep, m) <= deleted_total_below(files, keep, n),
    decreases n - m,
{
    if m < n {
        lemma_deleted_total_monotone(files, keep, m, n - 1);
    }
}

} // verus!
