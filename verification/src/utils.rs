//! Shared helpers: collecting query rows, fresh identifiers, timestamps and
//! the outcome of resolving a path.

use vstd::prelude::*;

verus! {

/// The `Ok` values of `rows`, in order; the errors are left out.
pub open spec fn ok_values<T, E>(rows: Seq<Result<T, E>>) -> Seq<T>
    decreases rows.len(),
{
    if rows.len() == 0 {
        Seq::empty()
    } else {
        let rest = ok_values(rows.drop_first());
        match rows[0] {
            Ok(v) => seq![v] + rest,
            Err(_) => rest,
        }
    }
}

/// Keeps the rows that were read without error, in order, and drops the others.
pub fn collect_ok<T, E>(rows: Vec<Result<T, E>>) -> (r: Vec<T>)
    ensures
        r@ == ok_values(rows@),
{
    let mut rows = rows;
    let ghost all = rows@;
    let mut r: Vec<T> = Vec::new();
    while rows.len() > 0
        invariant
            all == all.subrange(0, all.len() - rows@.len()) + rows@,
            rows@.len() <= all.len(),
            r@ + ok_values(rows@) == ok_values(all),
        decreases rows.len(),
    {
        let ghost before = rows@;
        let first = rows.remove(0);
        proof {
            assert(before.drop_first() =~= rows@);
            assert(all.subrange(0, all.len() - rows@.len()) =~= all.subrange(
                0,
                all.len() - before.len(),
            ).push(first));
        }
        match first {
            Ok(v) => {
                let ghost r_old = r@;
                r.push(v);
                proof {
                    assert(r@ + ok_values(rows@) =~= r_old + (seq![r@.last()] + ok_values(rows@)));
                }
            },
            Err(_) => {},
        }
    }
    assert(r@ + ok_values(rows@) =~= r@);
    r
}

/// A fresh random identifier: a version-4 UUID in its hyphenated form.
/// Calls `uuid::Uuid::new_v4` and formats it with `Display`, which writes the
/// 32 hex digits and 4 hyphens of the hyphenated form; the contract states
/// that length only, since the digits are random.
#[verifier::external_body]
pub fn new_id() -> (r: String)
    ensures
        r@.len() == 36,
{
    uuid::Uuid::new_v4().to_string()
}

/// The current time as an RFC 3339 timestamp. Calls `chrono::Utc::now` and
/// formats it with `DateTime::to_rfc3339`; the result depends on the clock,
/// so nothing is stated of it.
#[verifier::external_body]
pub fn now_timestamp() -> (r: String) {
    chrono::Utc::now().to_rfc3339()
}

/// The RFC 3339 text of the UTC instant `secs` seconds after the Unix epoch,
/// or `None` where chrono cannot represent it.
pub uninterp spec fn rfc3339_of_unix_seconds(secs: i64) -> Option<Seq<char>>;

/// Formats a Unix timestamp. Calls `chrono::DateTime::from_timestamp(secs, 0)`
/// and, when that gives a date, `DateTime::to_rfc3339`; the contract names
/// the result after `secs` alone.
#[verifier::external_body]
pub(crate) fn unix_seconds_rfc3339(secs: i64) -> (r: Option<String>)
    ensures
        match r {
            Some(s) => rfc3339_of_unix_seconds(secs) == Some(s@),
            None => rfc3339_of_unix_seconds(secs) is None,
        },
{
    chrono::DateTime::from_timestamp(secs, 0).map(|d| d.to_rfc3339())
}

/// What the file system said of a path that the user typed.
#[derive(Debug, Clone)]
pub enum PathProbe {
    /// Nothing exists at the path.
    Missing,
    /// The path exists and resolves to this absolute, symlink-free path.
    Resolved(String),
    /// The path exists but could not be resolved; the text is the error.
    Unresolvable(String),
}

/// The canonical form of `raw`, or the error the user sees: a missing path is
/// reported as such, a path that exists but cannot be resolved with the
/// resolver's error.
pub fn resolve_canonical_path(raw: &str, probe: PathProbe) -> (r: Result<String, String>)
    ensures
        match probe {
            PathProbe::Missing => r matches Err(e) && e@ == "Path does not exist: "@ + raw@,
            PathProbe::Resolved(c) => r == Ok::<String, String>(c),
            PathProbe::Unresolvable(err) => r matches Err(e) && e@
                == "Failed to resolve path: "@ + err@,
        },
{
    match probe {
        PathProbe::Missing => Err(crate::text::concat2("Path does not exist: ", raw)),
        PathProbe::Resolved(c) => Ok(c),
        PathProbe::Unresolvable(err) => Err(
            crate::text::concat2("Failed to resolve path: ", err.as_str()),
        ),
    }
}

} // verus!
