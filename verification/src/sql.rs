//! SQL statements as plain values: the text and the values bound to its
//! placeholders. The library decides every statement; the application runs
//! them against its SQLite store.

use vstd::prelude::*;
use crate::text::{join, join_strings, texts};

verus! {

/// A value bound to a placeholder.
#[derive(Debug, Clone)]
pub enum SqlValue {
    Null,
    Int(i64),
    UInt(u64),
    /// The bit pattern of an `f64` (`f64::to_bits`).
    Real(u64),
    Text(String),
}

/// What a bound value is, with its text as characters.
pub enum SqlValueView {
    Null,
    Int(i64),
    UInt(u64),
    Real(u64),
    Text(Seq<char>),
}

impl View for SqlValue {
    type V = SqlValueView;

    open spec fn view(&self) -> SqlValueView {
        match self {
            SqlValue::Null => SqlValueView::Null,
            SqlValue::Int(i) => SqlValueView::Int(*i),
            SqlValue::UInt(u) => SqlValueView::UInt(*u),
            SqlValue::Real(b) => SqlValueView::Real(*b),
            SqlValue::Text(s) => SqlValueView::Text(s@),
        }
    }
}

/// A statement: its text and the values of its placeholders, in order.
#[derive(Debug, Clone)]
pub struct Statement {
    pub sql: String,
    pub params: Vec<SqlValue>,
}

impl Statement {
    /// The values bound to the placeholders, by view.
    pub open spec fn values(&self) -> Seq<SqlValueView> {
        self.params@.map_values(|p: SqlValue| p@)
    }
}

/// The view of an optional text value: `NULL` when absent.
pub open spec fn opt_text(v: Option<String>) -> SqlValueView {
    match v {
        Some(s) => SqlValueView::Text(s@),
        None => SqlValueView::Null,
    }
}

/// A text value holding a copy of `s`.
pub fn text_value(s: &str) -> (r: SqlValue)
    ensures
        r@ == SqlValueView::Text(s@),
{
    SqlValue::Text(String::from_str(s))
}

/// A text value holding a copy of `v`, or `NULL`.
pub fn opt_text_value(v: &Option<String>) -> (r: SqlValue)
    ensures
        r@ == opt_text(*v),
{
    match v {
        Some(s) => SqlValue::Text(String::from_str(s.as_str())),
        None => SqlValue::Null,
    }
}

/// A statement from its text and values.
pub fn statement(sql: &str, params: Vec<SqlValue>) -> (r: Statement)
    ensures
        r.sql@ == sql@,
        r.params@ == params@,
{
    Statement { sql: String::from_str(sql), params }
}

/// The decimal digit `d` as text.
pub open spec fn digit_text(d: int) -> Seq<char> {
    if d == 0 {
        "0"@
    } else if d == 1 {
        "1"@
    } else if d == 2 {
        "2"@
    } else if d == 3 {
        "3"@
    } else if d == 4 {
        "4"@
    } else if d == 5 {
        "5"@
    } else if d == 6 {
        "6"@
    } else if d == 7 {
        "7"@
    } else if d == 8 {
        "8"@
    } else {
        "9"@
    }
}

/// The decimal notation of `n`, as `Display` writes it.
pub open spec fn decimal(n: nat) -> Seq<char>
    decreases n,
{
    if n < 10 {
        digit_text(n as int)
    } else {
        decimal(n / 10) + digit_text((n % 10) as int)
    }
}

/// The decimal digit `d` as a string.
fn digit_string(d: u64) -> (r: String)
    requires
        d < 10,
    ensures
        r@ == digit_text(d as int),
{
    if d == 0 {
        String::from_str("0")
    } else if d == 1 {
        String::from_str("1")
    } else if d == 2 {
        String::from_str("2")
    } else if d == 3 {
        String::from_str("3")
    } else if d == 4 {
        String::from_str("4")
    } else if d == 5 {
        String::from_str("5")
    } else if d == 6 {
        String::from_str("6")
    } else if d == 7 {
        String::from_str("7")
    } else if d == 8 {
        String::from_str("8")
    } else {
        String::from_str("9")
    }
}

/// The decimal notation of `n`.
pub fn decimal_string(n: u64) -> (r: String)
    ensures
        r@ == decimal(n as nat),
    decreases n,
{
    if n < 10 {
        digit_string(n)
    } else {
        let mut s = decimal_string(n / 10);
        let d = digit_string(n % 10);
        s.append(d.as_str());
        s
    }
}

/// The placeholder `?n`.
pub open spec fn placeholder(n: nat) -> Seq<char> {
    "?"@ + decimal(n)
}

/// The text `?n`.
pub fn placeholder_string(n: u64) -> (r: String)
    ensures
        r@ == placeholder(n as nat),
{
    let mut s = String::from_str("?");
    let d = decimal_string(n);
    s.append(d.as_str());
    s
}


/// The views of bound values.
pub open spec fn views(v: Seq<SqlValue>) -> Seq<SqlValueView> {
    v.map_values(|p: SqlValue| p@)
}

/// A column assignment: the column and the value it receives.
pub type Assignment = (Seq<char>, SqlValueView);

/// The assignment of `column` when a value is given, none otherwise.
pub open spec fn assign_if(column: Seq<char>, v: Option<SqlValueView>) -> Seq<Assignment> {
    match v {
        Some(x) => seq![(column, x)],
        None => Seq::empty(),
    }
}

/// A given text as a value.
pub open spec fn text_given(v: Option<String>) -> Option<SqlValueView> {
    match v {
        Some(s) => Some(SqlValueView::Text(s@)),
        None => None,
    }
}

/// The `SET` terms of an update: one `column = ?` for each assignment and
/// one for the modification time.
pub open spec fn set_terms(assigns: Seq<Assignment>) -> Seq<Seq<char>> {
    assigns.map_values(|a: Assignment| a.0 + " = ?"@).push("updated_at = ?"@)
}

/// The update of row `id` of `table` with `assigns`, stamped `now`.
pub open spec fn update_sql(table: Seq<char>, assigns: Seq<Assignment>) -> Seq<char> {
    "UPDATE "@ + table + " SET "@ + join(set_terms(assigns), ", "@) + " WHERE id = ?"@
}

/// The values of an update: the assigned ones, the time, the row's id.
pub open spec fn update_values(assigns: Seq<Assignment>, now: Seq<char>, id: Seq<char>) -> Seq<
    SqlValueView,
> {
    assigns.map_values(|a: Assignment| a.1) + seq![SqlValueView::Text(now), SqlValueView::Text(id)]
}

/// Terms and values collected so far match `assigns`.
pub open spec fn holds_assignments(parts: Seq<String>, values: Seq<SqlValue>, assigns: Seq<Assignment>) -> bool {
    &&& texts(parts) == assigns.map_values(|a: Assignment| a.0 + " = ?"@)
    &&& views(values) == assigns.map_values(|a: Assignment| a.1)
}

/// Adds the assignment of `column` when `v` is given.
pub fn add_assignment(
    parts: &mut Vec<String>,
    values: &mut Vec<SqlValue>,
    column: &str,
    v: Option<SqlValue>,
    Ghost(assigns): Ghost<Seq<Assignment>>,
)
    requires
        holds_assignments(old(parts)@, old(values)@, assigns),
    ensures
        holds_assignments(
            final(parts)@,
            final(values)@,
            assigns + assign_if(
                column@,
                match v {
                    Some(x) => Some(x@),
                    None => None,
                },
            ),
        ),
{
    let ghost vv = match &v {
        Some(x) => Some(x@),
        None => None::<SqlValueView>,
    };
    match v {
        Some(x) => {
            let ghost xv = x@;
            let mut term = String::from_str(column);
            term.append(" = ?");
            let ghost p0 = parts@;
            let ghost v0 = values@;
            parts.push(term);
            values.push(x);
            proof {
                let na = assigns + assign_if(column@, vv);
                assert(na =~= assigns.push((column@, xv)));
                assert(texts(parts@) =~= texts(p0).push(column@ + " = ?"@));
                assert(na.map_values(|a: Assignment| a.0 + " = ?"@) =~= assigns.map_values(
                    |a: Assignment| a.0 + " = ?"@,
                ).push(column@ + " = ?"@));
                assert(views(values@) =~= views(v0).push(xv));
                assert(na.map_values(|a: Assignment| a.1) =~= assigns.map_values(
                    |a: Assignment| a.1,
                ).push(xv));
            }
        },
        None => {
            assert(assigns + assign_if(column@, vv) =~= assigns);
        },
    }
}

/// The text of an optional value, as a value to bind.
pub fn given_text(v: &Option<String>) -> (r: Option<SqlValue>)
    ensures
        match r {
            Some(x) => Some(x@),
            None => None,
        } == text_given(*v),
{
    match v {
        Some(s) => Some(text_value(s.as_str())),
        None => None,
    }
}

/// The update statement of row `id` of `table` with the collected terms and
/// values, stamped `now`.
pub fn finish_update(
    table: &str,
    parts: Vec<String>,
    values: Vec<SqlValue>,
    now: &str,
    id: &str,
    Ghost(assigns): Ghost<Seq<Assignment>>,
) -> (r: Statement)
    requires
        holds_assignments(parts@, values@, assigns),
    ensures
        r.sql@ == update_sql(table@, assigns),
        views(r.params@) == update_values(assigns, now@, id@),
{
    let mut parts = parts;
    let mut values = values;
    let ghost p0 = parts@;
    let ghost v0 = values@;
    parts.push(String::from_str("updated_at = ?"));
    values.push(text_value(now));
    values.push(text_value(id));
    assert(texts(parts@) =~= set_terms(assigns));
    assert(views(values@) =~= update_values(assigns, now@, id@));
    let mut sql = String::from_str("UPDATE ");
    sql.append(table);
    sql.append(" SET ");
    let set = join_strings(&parts, ", ");
    sql.append(set.as_str());
    sql.append(" WHERE id = ?");
    Statement { sql, params: values }
}

} // verus!
