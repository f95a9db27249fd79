//! Projects: import with duplicate detection, the filtered and ordered list,
//! partial updates, favorites and tags.

use vstd::prelude::*;
use crate::db::schema::Project;
use crate::models::project::{
    ImportProjectRequest, ListProjectsQuery, SortField, SortOrder, UpdateProjectRequest,
};
use crate::sql::{
    opt_text, opt_text_value, placeholder, views, add_assignment, assign_if, finish_update, given_text, holds_assignments, text_given, update_sql, update_values, Assignment, placeholder_string, statement, text_value, SqlValue,
    SqlValueView, Statement,
};
use crate::text::{concat3, join, join_strings, opt_view, seq_contains, seq_occurs_at, texts};
use crate::utils::{new_id, now_timestamp};

verus! {

/// The columns of a project row, in the order the queries select them.
pub const PROJECT_COLUMNS: &'static str = "id, name, path, artist, bpm, musical_key, root_note, tags, keywords, notes, description, favorite, daw_type, last_opened, created_at, updated_at";

// ---------------------------------------------------------------- ordering

/// The column a sort field orders by.
pub open spec fn sort_column(field: SortField) -> Seq<char> {
    match field {
        SortField::Name => "name"@,
        SortField::DateAdded => "created_at"@,
        SortField::LastOpened => "last_opened"@,
        SortField::Bpm => "bpm"@,
        SortField::Artist => "artist"@,
    }
}

/// The SQL word of a direction.
pub open spec fn sort_direction(order: SortOrder) -> Seq<char> {
    match order {
        SortOrder::Asc => "ASC"@,
        SortOrder::Desc => "DESC"@,
    }
}

/// The `ORDER BY` terms: by the field in the given direction, and for the
/// columns that may be empty (tempo, last opened) with the empty ones last.
pub open spec fn spec_sort_clause(field: SortField, order: SortOrder) -> Seq<char> {
    let col = sort_column(field);
    let dir = sort_direction(order);
    match field {
        SortField::Bpm | SortField::LastOpened => col + " IS NULL, "@ + col + " "@ + dir,
        _ => col + " "@ + dir,
    }
}

/// The `ORDER BY` terms for `field` and `order`.
pub fn sort_clause(field: &SortField, order: &SortOrder) -> (r: String)
    ensures
        r@ == spec_sort_clause(*field, *order),
{
    let col = match field {
        SortField::Name => "name",
        SortField::DateAdded => "created_at",
        SortField::LastOpened => "last_opened",
        SortField::Bpm => "bpm",
        SortField::Artist => "artist",
    };
    let dir = match order {
        SortOrder::Asc => "ASC",
        SortOrder::Desc => "DESC",
    };
    assert(col@ == sort_column(*field));
    assert(dir@ == sort_direction(*order));
    match field {
        SortField::Bpm | SortField::LastOpened => {
            let mut r = concat3(col, " IS NULL, ", col);
            r.append(" ");
            r.append(dir);
            r
        },
        _ => concat3(col, " ", dir),
    }
}

/// The field a query sorts by: newest first unless it says otherwise.
pub open spec fn query_sort_field(query: ListProjectsQuery) -> SortField {
    match query.sort_by {
        Some(f) => f,
        None => SortField::DateAdded,
    }
}

/// The direction a query sorts in: descending unless it says otherwise.
pub open spec fn query_sort_order(query: ListProjectsQuery) -> SortOrder {
    match query.sort_order {
        Some(o) => o,
        None => SortOrder::Desc,
    }
}

/// `sql` followed by the `ORDER BY` clause of `query`.
pub fn apply_sort(sql: String, query: &ListProjectsQuery) -> (r: String)
    ensures
        r@ == sql@ + " ORDER BY "@ + spec_sort_clause(
            query_sort_field(*query),
            query_sort_order(*query),
        ),
{
    let sort_by = match &query.sort_by {
        Some(f) => *f,
        None => SortField::DateAdded,
    };
    let sort_order = match &query.sort_order {
        Some(o) => *o,
        None => SortOrder::Desc,
    };
    let mut sql = sql;
    sql.append(" ORDER BY ");
    let clause = sort_clause(&sort_by, &sort_order);
    sql.append(clause.as_str());
    sql
}


// ---------------------------------------------------------------- filtering

/// A `LIKE` pattern matching any text that contains `s`.
pub open spec fn like_pattern(s: Seq<char>) -> Seq<char> {
    "%"@ + s + "%"@
}

/// The condition of a free-text search bound at placeholder `n`: the name, the
/// artist or the keywords contain the text.
pub open spec fn search_clause(n: nat) -> Seq<char> {
    " AND (name LIKE "@ + placeholder(n) + " OR artist LIKE "@ + placeholder(n)
        + " OR keywords LIKE "@ + placeholder(n) + ")"@
}

/// The condition on the artist, bound at placeholder `n`.
pub open spec fn artist_clause(n: nat) -> Seq<char> {
    " AND artist LIKE "@ + placeholder(n)
}

/// The lower tempo bound at placeholder `n`; projects without a tempo pass.
pub open spec fn bpm_min_clause(n: nat) -> Seq<char> {
    " AND (bpm >= "@ + placeholder(n) + " OR bpm IS NULL)"@
}

/// The upper tempo bound at placeholder `n`; projects without a tempo pass.
pub open spec fn bpm_max_clause(n: nat) -> Seq<char> {
    " AND (bpm <= "@ + placeholder(n) + " OR bpm IS NULL)"@
}

/// The condition on the musical key, bound at placeholder `n`.
pub open spec fn key_clause(n: nat) -> Seq<char> {
    " AND musical_key = "@ + placeholder(n)
}

/// The condition on the root note, bound at placeholder `n`.
pub open spec fn note_clause(n: nat) -> Seq<char> {
    " AND root_note = "@ + placeholder(n)
}

/// The project carries a tag matching placeholder `n`.
pub open spec fn tag_condition(n: nat) -> Seq<char> {
    "id IN (SELECT project_id FROM project_tags WHERE tag LIKE "@ + placeholder(n) + ")"@
}

/// One tag condition for each of the placeholders `first .. first + count`.
pub open spec fn tag_conditions(first: nat, count: nat) -> Seq<Seq<char>> {
    Seq::new(count, |i: int| tag_condition((first + i) as nat))
}

/// The project carries every one of `count` tags bound from placeholder `first` on.
pub open spec fn tags_clause(first: nat, count: nat) -> Seq<char> {
    " AND ("@ + join(tag_conditions(first, count), " AND "@) + ")"@
}

/// The condition on the keywords, bound at placeholder `n`.
pub open spec fn keywords_clause(n: nat) -> Seq<char> {
    " AND keywords LIKE "@ + placeholder(n)
}

/// The conditions of a list query so far and the values they bind.
pub struct Filter {
    pub sql: Seq<char>,
    pub params: Seq<SqlValueView>,
}

/// Adds the condition `clause` (bound at the next placeholder) and its value.
pub open spec fn with_param(f: Filter, clause: spec_fn(nat) -> Seq<char>, v: SqlValueView) -> Filter {
    Filter { sql: f.sql + clause(f.params.len() + 1), params: f.params.push(v) }
}

/// The free-text search of `q`, if any.
pub open spec fn with_search(f: Filter, q: ListProjectsQuery) -> Filter {
    match q.search {
        Some(s) => with_param(f, |n: nat| search_clause(n), SqlValueView::Text(like_pattern(s@))),
        None => f,
    }
}

/// The artist filter of `q`, if any: the artist contains the text.
pub open spec fn with_artist(f: Filter, q: ListProjectsQuery) -> Filter {
    match q.artist {
        Some(s) => with_param(f, |n: nat| artist_clause(n), SqlValueView::Text(like_pattern(s@))),
        None => f,
    }
}

/// The lower tempo bound of `q`, if any.
pub open spec fn with_bpm_min(f: Filter, q: ListProjectsQuery) -> Filter {
    match q.bpm_min_bits {
        Some(b) => with_param(f, |n: nat| bpm_min_clause(n), SqlValueView::Real(b)),
        None => f,
    }
}

/// The upper tempo bound of `q`, if any.
pub open spec fn with_bpm_max(f: Filter, q: ListProjectsQuery) -> Filter {
    match q.bpm_max_bits {
        Some(b) => with_param(f, |n: nat| bpm_max_clause(n), SqlValueView::Real(b)),
        None => f,
    }
}

/// The musical key of `q`, if any: matched exactly.
pub open spec fn with_key(f: Filter, q: ListProjectsQuery) -> Filter {
    match q.musical_key {
        Some(s) => with_param(f, |n: nat| key_clause(n), SqlValueView::Text(s@)),
        None => f,
    }
}

/// The root note of `q`, if any: matched exactly.
pub open spec fn with_note(f: Filter, q: ListProjectsQuery) -> Filter {
    match q.root_note {
        Some(s) => with_param(f, |n: nat| note_clause(n), SqlValueView::Text(s@)),
        None => f,
    }
}

/// The tags of `q`, if any are given: the project carries each of them.
pub open spec fn with_tags(f: Filter, q: ListProjectsQuery) -> Filter {
    match q.tags {
        Some(tags) => if tags@.len() == 0 {
            f
        } else {
            Filter {
                sql: f.sql + tags_clause(f.params.len() + 1, tags@.len()),
                params: f.params + tags@.map_values(|t: String| SqlValueView::Text(t@)),
            }
        },
        None => f,
    }
}

/// The keyword filter of `q`, if any: the keywords contain the text.
pub open spec fn with_keywords(f: Filter, q: ListProjectsQuery) -> Filter {
    match q.keywords {
        Some(s) => with_param(f, |n: nat| keywords_clause(n), SqlValueView::Text(like_pattern(s@))),
        None => f,
    }
}

/// The favorites-only switch of `q`.
pub open spec fn with_favorite(f: Filter, q: ListProjectsQuery) -> Filter {
    if q.favorite_only == Some(true) {
        Filter { sql: f.sql + " AND favorite = 1"@, params: f.params }
    } else {
        f
    }
}

/// All conditions of `q`, in the order search, artist, lowest tempo, highest
/// tempo, key, root note, tags, keywords, favorites; each value is bound at the
/// placeholder numbered by its position.
pub open spec fn project_filter(q: ListProjectsQuery) -> Filter {
    let f0 = Filter { sql: Seq::empty(), params: Seq::empty() };
    with_favorite(
        with_keywords(
            with_tags(
                with_note(
                    with_key(with_bpm_max(with_bpm_min(with_artist(with_search(f0, q), q), q), q), q),
                    q,
                ),
                q,
            ),
            q,
        ),
        q,
    )
}

/// The statement that lists the projects matching `q`, in its order.
pub open spec fn list_projects_sql(q: ListProjectsQuery) -> Seq<char> {
    "SELECT "@ + PROJECT_COLUMNS@ + " FROM projects WHERE 1=1"@ + project_filter(q).sql
        + " ORDER BY "@ + spec_sort_clause(query_sort_field(q), query_sort_order(q))
}

/// Each later filter step keeps the conditions and values before it.
proof fn lemma_later_steps_extend(f: Filter, q: ListProjectsQuery)
    ensures
        ({
            let g = with_favorite(with_keywords(with_tags(f, q), q), q);
            &&& g.sql.len() >= f.sql.len()
            &&& g.sql.subrange(0, f.sql.len() as int) == f.sql
            &&& g.params.len() >= f.params.len()
            &&& g.params.subrange(0, f.params.len() as int) == f.params
        }),
{
    let t = with_tags(f, q);
    let k = with_keywords(t, q);
    let g = with_favorite(k, q);
    assert(t.sql.subrange(0, f.sql.len() as int) =~= f.sql);
    assert(t.params.subrange(0, f.params.len() as int) =~= f.params);
    assert(k.sql.subrange(0, t.sql.len() as int) =~= t.sql);
    assert(k.params.subrange(0, t.params.len() as int) =~= t.params);
    assert(g.sql.subrange(0, k.sql.len() as int) =~= k.sql);
    assert(g.params.subrange(0, k.params.len() as int) =~= k.params);
    assert(g.sql.subrange(0, f.sql.len() as int) =~= k.sql.subrange(0, t.sql.len() as int).subrange(0, f.sql.len() as int));
    assert(g.params.subrange(0, f.params.len() as int) =~= k.params.subrange(0, t.params.len() as int).subrange(0, f.params.len() as int));
}

/// A root-note filter binds the requested root note as it is: the list
/// statement compares `root_note` with a placeholder whose value is exactly
/// that text.
pub proof fn lemma_root_note_bound_unchanged(q: ListProjectsQuery)
    requires
        q.root_note is Some,
    ensures
        exists|k: int|
            0 <= k < project_filter(q).params.len() && project_filter(q).params[k] == SqlValueView::Text(
                q.root_note->0@,
            ) && seq_contains(list_projects_sql(q), " AND root_note = "@ + placeholder((k + 1) as nat)),
{
    let f0 = Filter { sql: Seq::empty(), params: Seq::empty() };
    let g = with_key(with_bpm_max(with_bpm_min(with_artist(with_search(f0, q), q), q), q), q);
    let h = with_note(g, q);
    let n = q.root_note->0;
    let k = g.params.len() as int;
    let pat = " AND root_note = "@ + placeholder((k + 1) as nat);
    assert(h.sql == g.sql + pat);
    assert(h.params == g.params.push(SqlValueView::Text(n@)));
    lemma_later_steps_extend(h, q);
    let fin = project_filter(q);
    assert(fin == with_favorite(with_keywords(with_tags(h, q), q), q));
    assert(fin.params[k] == h.params.subrange(0, h.params.len() as int)[k]);
    let head = "SELECT "@ + PROJECT_COLUMNS@ + " FROM projects WHERE 1=1"@;
    let tail = fin.sql.subrange(h.sql.len() as int, fin.sql.len() as int) + " ORDER BY "@
        + spec_sort_clause(query_sort_field(q), query_sort_order(q));
    assert(fin.sql =~= h.sql + fin.sql.subrange(h.sql.len() as int, fin.sql.len() as int));
    let whole = list_projects_sql(q);
    assert(whole =~= (head + g.sql) + pat + tail);
    let at = (head + g.sql).len() as int;
    assert(whole.subrange(at, at + pat.len()) =~= pat);
    assert(seq_occurs_at(whole, pat, at));
}

/// `g` holds the conditions and values of `f`, and possibly more after them.
spec fn extends(g: Filter, f: Filter) -> bool {
    &&& g.sql.len() >= f.sql.len()
    &&& g.sql.subrange(0, f.sql.len() as int) == f.sql
    &&& g.params.len() >= f.params.len()
    &&& g.params.subrange(0, f.params.len() as int) == f.params
}

/// Every filter step keeps the conditions and values before it.
proof fn lemma_steps_extend(f: Filter, q: ListProjectsQuery)
    ensures
        extends(with_search(f, q), f),
        extends(with_artist(f, q), f),
        extends(with_bpm_min(f, q), f),
        extends(with_bpm_max(f, q), f),
        extends(with_key(f, q), f),
        extends(with_note(f, q), f),
        extends(with_tags(f, q), f),
        extends(with_keywords(f, q), f),
        extends(with_favorite(f, q), f),
{
    assert(with_search(f, q).sql.subrange(0, f.sql.len() as int) =~= f.sql);
    assert(with_search(f, q).params.subrange(0, f.params.len() as int) =~= f.params);
    assert(with_artist(f, q).sql.subrange(0, f.sql.len() as int) =~= f.sql);
    assert(with_artist(f, q).params.subrange(0, f.params.len() as int) =~= f.params);
    assert(with_bpm_min(f, q).sql.subrange(0, f.sql.len() as int) =~= f.sql);
    assert(with_bpm_min(f, q).params.subrange(0, f.params.len() as int) =~= f.params);
    assert(with_bpm_max(f, q).sql.subrange(0, f.sql.len() as int) =~= f.sql);
    assert(with_bpm_max(f, q).params.subrange(0, f.params.len() as int) =~= f.params);
    assert(with_key(f, q).sql.subrange(0, f.sql.len() as int) =~= f.sql);
    assert(with_key(f, q).params.subrange(0, f.params.len() as int) =~= f.params);
    assert(with_note(f, q).sql.subrange(0, f.sql.len() as int) =~= f.sql);
    assert(with_note(f, q).params.subrange(0, f.params.len() as int) =~= f.params);
    assert(with_tags(f, q).sql.subrange(0, f.sql.len() as int) =~= f.sql);
    assert(with_tags(f, q).params.subrange(0, f.params.len() as int) =~= f.params);
    assert(with_keywords(f, q).sql.subrange(0, f.sql.len() as int) =~= f.sql);
    assert(with_keywords(f, q).params.subrange(0, f.params.len() as int) =~= f.params);
    assert(with_favorite(f, q).sql.subrange(0, f.sql.len() as int) =~= f.sql);
    assert(with_favorite(f, q).params.subrange(0, f.params.len() as int) =~= f.params);
}

/// Holding more after more is holding more.
proof fn lemma_extends_trans(a: Filter, b: Filter, c: Filter)
    requires
        extends(b, a),
        extends(c, b),
    ensures
        extends(c, a),
{
    assert(c.sql.subrange(0, a.sql.len() as int) =~= c.sql.subrange(0, b.sql.len() as int).subrange(0, a.sql.len() as int));
    assert(c.params.subrange(0, a.params.len() as int) =~= c.params.subrange(0, b.params.len() as int).subrange(0, a.params.len() as int));
}

/// A condition `pat` added right after the filter `g`, binding `v` at the
/// next position, stands in the list statement with `v` at that position.
proof fn lemma_condition_in_statement(q: ListProjectsQuery, g: Filter, h: Filter, pat: Seq<char>, more: Seq<char>, v: SqlValueView)
    requires
        h.sql == g.sql + pat + more,
        h.params == g.params.push(v),
        extends(project_filter(q), h),
    ensures
        g.params.len() < project_filter(q).params.len(),
        project_filter(q).params[g.params.len() as int] == v,
        seq_contains(list_projects_sql(q), pat),
{
    let fin = project_filter(q);
    let k = g.params.len() as int;
    assert(fin.params[k] == fin.params.subrange(0, h.params.len() as int)[k]);
    let head = "SELECT "@ + PROJECT_COLUMNS@ + " FROM projects WHERE 1=1"@;
    let tail = more + fin.sql.subrange(h.sql.len() as int, fin.sql.len() as int) + " ORDER BY "@
        + spec_sort_clause(query_sort_field(q), query_sort_order(q));
    assert(fin.sql =~= h.sql + fin.sql.subrange(h.sql.len() as int, fin.sql.len() as int));
    let whole = list_projects_sql(q);
    assert(whole =~= (head + g.sql) + pat + tail);
    let at = (head + g.sql).len() as int;
    assert(whole.subrange(at, at + pat.len()) =~= pat);
    assert(seq_occurs_at(whole, pat, at));
}


/// A text search binds the search text between `%` wildcards, compared with the name, artist and keywords through one placeholder.
pub proof fn lemma_search_filter_bound(q: ListProjectsQuery)
    requires
        q.search is Some,
    ensures
        exists|k: int|
            0 <= k < project_filter(q).params.len() && project_filter(q).params[k] == SqlValueView::Text("%"@ + q.search->0@ + "%"@)
                && seq_contains(list_projects_sql(q), " AND (name LIKE "@ + placeholder((k + 1) as nat)),
{
    let f0 = Filter { sql: Seq::empty(), params: Seq::empty() };
    let g = f0;
    let h = with_search(g, q);
    let k = g.params.len() as int;
    let f1 = h;
    let f2 = with_artist(f1, q);
    lemma_steps_extend(f1, q);
    let f3 = with_bpm_min(f2, q);
    lemma_steps_extend(f2, q);
    let f4 = with_bpm_max(f3, q);
    lemma_steps_extend(f3, q);
    let f5 = with_key(f4, q);
    lemma_steps_extend(f4, q);
    let f6 = with_note(f5, q);
    lemma_steps_extend(f5, q);
    let f7 = with_tags(f6, q);
    lemma_steps_extend(f6, q);
    let f8 = with_keywords(f7, q);
    lemma_steps_extend(f7, q);
    let f9 = with_favorite(f8, q);
    lemma_steps_extend(f8, q);
    assert(f9 == project_filter(q));
    assert(extends(f1, f1)) by {
        assert(f1.sql.subrange(0, f1.sql.len() as int) =~= f1.sql);
        assert(f1.params.subrange(0, f1.params.len() as int) =~= f1.params);
    }
    lemma_extends_trans(f1, f1, f2);
    lemma_extends_trans(f1, f2, f3);
    lemma_extends_trans(f1, f3, f4);
    lemma_extends_trans(f1, f4, f5);
    lemma_extends_trans(f1, f5, f6);
    lemma_extends_trans(f1, f6, f7);
    lemma_extends_trans(f1, f7, f8);
    lemma_extends_trans(f1, f8, f9);
    let pat = " AND (name LIKE "@ + placeholder((k + 1) as nat);
    let more = " OR artist LIKE "@ + placeholder((k + 1) as nat) + " OR keywords LIKE "@ + placeholder((k + 1) as nat) + ")"@;
    assert(h.sql =~= g.sql + pat + more);
    lemma_condition_in_statement(q, g, h, pat, more, SqlValueView::Text("%"@ + q.search->0@ + "%"@));
}

/// An artist filter binds the artist text between `%` wildcards.
pub proof fn lemma_artist_filter_bound(q: ListProjectsQuery)
    requires
        q.artist is Some,
    ensures
        exists|k: int|
            0 <= k < project_filter(q).params.len() && project_filter(q).params[k] == SqlValueView::Text("%"@ + q.artist->0@ + "%"@)
                && seq_contains(list_projects_sql(q), " AND artist LIKE "@ + placeholder((k + 1) as nat)),
{
    let f0 = Filter { sql: Seq::empty(), params: Seq::empty() };
    let g = with_search(f0, q);
    let h = with_artist(g, q);
    let k = g.params.len() as int;
    let f2 = h;
    let f3 = with_bpm_min(f2, q);
    lemma_steps_extend(f2, q);
    let f4 = with_bpm_max(f3, q);
    lemma_steps_extend(f3, q);
    let f5 = with_key(f4, q);
    lemma_steps_extend(f4, q);
    let f6 = with_note(f5, q);
    lemma_steps_extend(f5, q);
    let f7 = with_tags(f6, q);
    lemma_steps_extend(f6, q);
    let f8 = with_keywords(f7, q);
    lemma_steps_extend(f7, q);
    let f9 = with_favorite(f8, q);
    lemma_steps_extend(f8, q);
    assert(f9 == project_filter(q));
    assert(extends(f2, f2)) by {
        assert(f2.sql.subrange(0, f2.sql.len() as int) =~= f2.sql);
        assert(f2.params.subrange(0, f2.params.len() as int) =~= f2.params);
    }
    lemma_extends_trans(f2, f2, f3);
    lemma_extends_trans(f2, f3, f4);
    lemma_extends_trans(f2, f4, f5);
    lemma_extends_trans(f2, f5, f6);
    lemma_extends_trans(f2, f6, f7);
    lemma_extends_trans(f2, f7, f8);
    lemma_extends_trans(f2, f8, f9);
    let pat = " AND artist LIKE "@ + placeholder((k + 1) as nat);
    let more = Seq::<char>::empty();
    assert(h.sql =~= g.sql + pat + more);
    lemma_condition_in_statement(q, g, h, pat, more, SqlValueView::Text("%"@ + q.artist->0@ + "%"@));
}

/// A lower tempo bound is bound as the given tempo, and projects without a tempo pass it.
pub proof fn lemma_bpm_min_filter_bound(q: ListProjectsQuery)
    requires
        q.bpm_min_bits is Some,
    ensures
        exists|k: int|
            0 <= k < project_filter(q).params.len() && project_filter(q).params[k] == SqlValueView::Real(q.bpm_min_bits->0)
                && seq_contains(list_projects_sql(q), " AND (bpm >= "@ + placeholder((k + 1) as nat)),
{
    let f0 = Filter { sql: Seq::empty(), params: Seq::empty() };
    let g = with_artist(with_search(f0, q), q);
    let h = with_bpm_min(g, q);
    let k = g.params.len() as int;
    let f3 = h;
    let f4 = with_bpm_max(f3, q);
    lemma_steps_extend(f3, q);
    let f5 = with_key(f4, q);
    lemma_steps_extend(f4, q);
    let f6 = with_note(f5, q);
    lemma_steps_extend(f5, q);
    let f7 = with_tags(f6, q);
    lemma_steps_extend(f6, q);
    let f8 = with_keywords(f7, q);
    lemma_steps_extend(f7, q);
    let f9 = with_favorite(f8, q);
    lemma_steps_extend(f8, q);
    assert(f9 == project_filter(q));
    assert(extends(f3, f3)) by {
        assert(f3.sql.subrange(0, f3.sql.len() as int) =~= f3.sql);
        assert(f3.params.subrange(0, f3.params.len() as int) =~= f3.params);
    }
    lemma_extends_trans(f3, f3, f4);
    lemma_extends_trans(f3, f4, f5);
    lemma_extends_trans(f3, f5, f6);
    lemma_extends_trans(f3, f6, f7);
    lemma_extends_trans(f3, f7, f8);
    lemma_extends_trans(f3, f8, f9);
    let pat = " AND (bpm >= "@ + placeholder((k + 1) as nat);
    let more = " OR bpm IS NULL)"@;
    assert(h.sql =~= g.sql + pat + more);
    lemma_condition_in_statement(q, g, h, pat, more, SqlValueView::Real(q.bpm_min_bits->0));
}

/// An upper tempo bound is bound as the given tempo, and projects without a tempo pass it.
pub proof fn lemma_bpm_max_filter_bound(q: ListProjectsQuery)
    requires
        q.bpm_max_bits is Some,
    ensures
        exists|k: int|
            0 <= k < project_filter(q).params.len() && project_filter(q).params[k] == SqlValueView::Real(q.bpm_max_bits->0)
                && seq_contains(list_projects_sql(q), " AND (bpm <= "@ + placeholder((k + 1) as nat)),
{
    let f0 = Filter { sql: Seq::empty(), params: Seq::empty() };
    let g = with_bpm_min(with_artist(with_search(f0, q), q), q);
    let h = with_bpm_max(g, q);
    let k = g.params.len() as int;
    let f4 = h;
    let f5 = with_key(f4, q);
    lemma_steps_extend(f4, q);
    let f6 = with_note(f5, q);
    lemma_steps_extend(f5, q);
    let f7 = with_tags(f6, q);
    lemma_steps_extend(f6, q);
    let f8 = with_keywords(f7, q);
    lemma_steps_extend(f7, q);
    let f9 = with_favorite(f8, q);
    lemma_steps_extend(f8, q);
    assert(f9 == project_filter(q));
    assert(extends(f4, f4)) by {
        assert(f4.sql.subrange(0, f4.sql.len() as int) =~= f4.sql);
        assert(f4.params.subrange(0, f4.params.len() as int) =~= f4.params);
    }
    lemma_extends_trans(f4, f4, f5);
    lemma_extends_trans(f4, f5, f6);
    lemma_extends_trans(f4, f6, f7);
    lemma_extends_trans(f4, f7, f8);
    lemma_extends_trans(f4, f8, f9);
    let pat = " AND (bpm <= "@ + placeholder((k + 1) as nat);
    let more = " OR bpm IS NULL)"@;
    assert(h.sql =~= g.sql + pat + more);
    lemma_condition_in_statement(q, g, h, pat, more, SqlValueView::Real(q.bpm_max_bits->0));
}

/// A key filter binds the requested key as it is.
pub proof fn lemma_key_filter_bound(q: ListProjectsQuery)
    requires
        q.musical_key is Some,
    ensures
        exists|k: int|
            0 <= k < project_filter(q).params.len() && project_filter(q).params[k] == SqlValueView::Text(q.musical_key->0@)
                && seq_contains(list_projects_sql(q), " AND musical_key = "@ + placeholder((k + 1) as nat)),
{
    let f0 = Filter { sql: Seq::empty(), params: Seq::empty() };
    let g = with_bpm_max(with_bpm_min(with_artist(with_search(f0, q), q), q), q);
    let h = with_key(g, q);
    let k = g.params.len() as int;
    let f5 = h;
    let f6 = with_note(f5, q);
    lemma_steps_extend(f5, q);
    let f7 = with_tags(f6, q);
    lemma_steps_extend(f6, q);
    let f8 = with_keywords(f7, q);
    lemma_steps_extend(f7, q);
    let f9 = with_favorite(f8, q);
    lemma_steps_extend(f8, q);
    assert(f9 == project_filter(q));
    assert(extends(f5, f5)) by {
        assert(f5.sql.subrange(0, f5.sql.len() as int) =~= f5.sql);
        assert(f5.params.subrange(0, f5.params.len() as int) =~= f5.params);
    }
    lemma_extends_trans(f5, f5, f6);
    lemma_extends_trans(f5, f6, f7);
    lemma_extends_trans(f5, f7, f8);
    lemma_extends_trans(f5, f8, f9);
    let pat = " AND musical_key = "@ + placeholder((k + 1) as nat);
    let more = Seq::<char>::empty();
    assert(h.sql =~= g.sql + pat + more);
    lemma_condition_in_statement(q, g, h, pat, more, SqlValueView::Text(q.musical_key->0@));
}

/// A keyword filter binds the keyword text between `%` wildcards.
pub proof fn lemma_keywords_filter_bound(q: ListProjectsQuery)
    requires
        q.keywords is Some,
    ensures
        exists|k: int|
            0 <= k < project_filter(q).params.len() && project_filter(q).params[k] == SqlValueView::Text("%"@ + q.keywords->0@ + "%"@)
                && seq_contains(list_projects_sql(q), " AND keywords LIKE "@ + placeholder((k + 1) as nat)),
{
    let f0 = Filter { sql: Seq::empty(), params: Seq::empty() };
    let g = with_tags(with_note(with_key(with_bpm_max(with_bpm_min(with_artist(with_search(f0, q), q), q), q), q), q), q);
    let h = with_keywords(g, q);
    let k = g.params.len() as int;
    let f8 = h;
    let f9 = with_favorite(f8, q);
    lemma_steps_extend(f8, q);
    assert(f9 == project_filter(q));
    assert(extends(f8, f8)) by {
        assert(f8.sql.subrange(0, f8.sql.len() as int) =~= f8.sql);
        assert(f8.params.subrange(0, f8.params.len() as int) =~= f8.params);
    }
    lemma_extends_trans(f8, f8, f9);
    let pat = " AND keywords LIKE "@ + placeholder((k + 1) as nat);
    let more = Seq::<char>::empty();
    assert(h.sql =~= g.sql + pat + more);
    lemma_condition_in_statement(q, g, h, pat, more, SqlValueView::Text("%"@ + q.keywords->0@ + "%"@));
}
/// The next placeholder number, for a statement with `params` bound so far.
fn next_placeholder(params: &Vec<SqlValue>) -> (r: String)
    requires
        params@.len() < usize::MAX,
    ensures
        r@ == placeholder((params@.len() + 1) as nat),
{
    placeholder_string(params.len() as u64 + 1)
}

/// Appends a `LIKE '%s%'` value.
fn push_like(params: &mut Vec<SqlValue>, s: &String)
    ensures
        views(final(params)@) == views(old(params)@).push(SqlValueView::Text(like_pattern(s@))),
        final(params)@.len() == old(params)@.len() + 1,
{
    let mut p = String::from_str("%");
    p.append(s.as_str());
    p.append("%");
    let ghost before = old(params)@;
    params.push(SqlValue::Text(p));
    assert(views(params@) =~= views(before).push(SqlValueView::Text(like_pattern(s@))));
}

/// Appends a value to the bound values.
fn push_value(params: &mut Vec<SqlValue>, v: SqlValue)
    ensures
        views(final(params)@) == views(old(params)@).push(v@),
        final(params)@.len() == old(params)@.len() + 1,
{
    let ghost before = old(params)@;
    params.push(v);
    assert(views(params@) =~= views(before).push(v@));
}

/// The tag conditions for placeholders `first ..= first + count - 1`, joined.
fn tag_conditions_text(first: u64, count: usize) -> (r: String)
    requires
        first + count <= u64::MAX,
    ensures
        r@ == join(tag_conditions(first as nat, count as nat), " AND "@),
{
    let mut parts: Vec<String> = Vec::new();
    let mut i: usize = 0;
    while i < count
        invariant
            i <= count,
            first + count <= u64::MAX,
            texts(parts@) =~= tag_conditions(first as nat, i as nat),
        decreases count - i,
    {
        let ph = placeholder_string(first + i as u64);
        let cond = concat3(
            "id IN (SELECT project_id FROM project_tags WHERE tag LIKE ",
            ph.as_str(),
            ")",
        );
        let ghost before = parts@;
        parts.push(cond);
        assert(texts(parts@) =~= texts(before).push(cond@));
        i = i + 1;
    }
    join_strings(&parts, " AND ")
}

/// `sql` and `params` hold `head` followed by the conditions of `f`.
pub open spec fn holds_filter(sql: Seq<char>, params: Seq<SqlValue>, head: Seq<char>, f: Filter) -> bool {
    sql == head + f.sql && views(params) == f.params
}

/// Adds the search condition when the query has one.
fn add_search(sql: &mut String, params: &mut Vec<SqlValue>, query: &ListProjectsQuery, Ghost(head): Ghost<Seq<char>>, Ghost(f): Ghost<Filter>)
    requires
        holds_filter(old(sql)@, old(params)@, head, f),
        old(params)@.len() < 8,
    ensures
        holds_filter(final(sql)@, final(params)@, head, with_search(f, *query)),
        final(params)@.len() <= old(params)@.len() + 1,
{
    if let Some(search) = &query.search {
        let idx = next_placeholder(params);
        sql.append(" AND (name LIKE ");
        sql.append(idx.as_str());
        sql.append(" OR artist LIKE ");
        sql.append(idx.as_str());
        sql.append(" OR keywords LIKE ");
        sql.append(idx.as_str());
        sql.append(")");
        push_like(params, search);
    }
    assert(sql@ =~= head + with_search(f, *query).sql);
}

/// Adds the artist condition when the query has one.
fn add_artist(sql: &mut String, params: &mut Vec<SqlValue>, query: &ListProjectsQuery, Ghost(head): Ghost<Seq<char>>, Ghost(f): Ghost<Filter>)
    requires
        holds_filter(old(sql)@, old(params)@, head, f),
        old(params)@.len() < 8,
    ensures
        holds_filter(final(sql)@, final(params)@, head, with_artist(f, *query)),
        final(params)@.len() <= old(params)@.len() + 1,
{
    if let Some(artist) = &query.artist {
        let idx = next_placeholder(params);
        sql.append(" AND artist LIKE ");
        sql.append(idx.as_str());
        push_like(params, artist);
    }
    assert(sql@ =~= head + with_artist(f, *query).sql);
}

/// Adds the tempo bounds that the query gives.
fn add_bpm_bounds(sql: &mut String, params: &mut Vec<SqlValue>, query: &ListProjectsQuery, Ghost(head): Ghost<Seq<char>>, Ghost(f): Ghost<Filter>)
    requires
        holds_filter(old(sql)@, old(params)@, head, f),
        old(params)@.len() < 8,
    ensures
        holds_filter(final(sql)@, final(params)@, head, with_bpm_max(with_bpm_min(f, *query), *query)),
        final(params)@.len() <= old(params)@.len() + 2,
{
    if let Some(b) = query.bpm_min_bits {
        let idx = next_placeholder(params);
        sql.append(" AND (bpm >= ");
        sql.append(idx.as_str());
        sql.append(" OR bpm IS NULL)");
        push_value(params, SqlValue::Real(b));
    }
    let ghost g = with_bpm_min(f, *query);
    assert(sql@ =~= head + g.sql);
    if let Some(b) = query.bpm_max_bits {
        let idx = next_placeholder(params);
        sql.append(" AND (bpm <= ");
        sql.append(idx.as_str());
        sql.append(" OR bpm IS NULL)");
        push_value(params, SqlValue::Real(b));
    }
    assert(sql@ =~= head + with_bpm_max(g, *query).sql);
}

/// Adds the key and root-note conditions that the query gives.
fn add_key_and_note(sql: &mut String, params: &mut Vec<SqlValue>, query: &ListProjectsQuery, Ghost(head): Ghost<Seq<char>>, Ghost(f): Ghost<Filter>)
    requires
        holds_filter(old(sql)@, old(params)@, head, f),
        old(params)@.len() < 8,
    ensures
        holds_filter(final(sql)@, final(params)@, head, with_note(with_key(f, *query), *query)),
        final(params)@.len() <= old(params)@.len() + 2,
{
    if let Some(key) = &query.musical_key {
        let idx = next_placeholder(params);
        sql.append(" AND musical_key = ");
        sql.append(idx.as_str());
        push_value(params, text_value(key.as_str()));
    }
    let ghost g = with_key(f, *query);
    assert(sql@ =~= head + g.sql);
    if let Some(note) = &query.root_note {
        let idx = next_placeholder(params);
        sql.append(" AND root_note = ");
        sql.append(idx.as_str());
        push_value(params, text_value(note.as_str()));
    }
    assert(sql@ =~= head + with_note(g, *query).sql);
}

/// Adds one condition per tag of the query.
fn add_tags(sql: &mut String, params: &mut Vec<SqlValue>, query: &ListProjectsQuery, Ghost(head): Ghost<Seq<char>>, Ghost(f): Ghost<Filter>)
    requires
        holds_filter(old(sql)@, old(params)@, head, f),
        old(params)@.len() < 8,
        query.tags matches Some(t) ==> t@.len() < usize::MAX - 8,
    ensures
        holds_filter(final(sql)@, final(params)@, head, with_tags(f, *query)),
        final(params)@.len() <= old(params)@.len() + (match query.tags { Some(t) => t@.len(), None => 0 }),
{
    if let Some(tags) = &query.tags {
        if tags.len() > 0 {
            let first = params.len() as u64 + 1;
            let conds = tag_conditions_text(first, tags.len());
            sql.append(" AND (");
            sql.append(conds.as_str());
            sql.append(")");
            let ghost before = views(params@);
            let ghost len0 = params@.len();
            let mut i: usize = 0;
            while i < tags.len()
                invariant
                    i <= tags@.len(),
                    params@.len() == len0 + i,
                    views(params@) =~= before + tags@.subrange(0, i as int).map_values(
                        |t: String| SqlValueView::Text(t@),
                    ),
                decreases tags.len() - i,
            {
                let ghost prev = params@;
                push_value(params, text_value(tags[i].as_str()));
                proof {
                    assert(tags@.subrange(0, i + 1).map_values(|t: String| SqlValueView::Text(t@))
                        =~= tags@.subrange(0, i as int).map_values(|t: String| SqlValueView::Text(t@)).push(
                        SqlValueView::Text(tags@[i as int]@)));
                }
                i = i + 1;
            }
            assert(tags@.subrange(0, tags@.len() as int) =~= tags@);
        }
    }
    assert(sql@ =~= head + with_tags(f, *query).sql);
}

/// Adds the keyword condition and the favorites-only condition.
fn add_keywords_and_favorite(sql: &mut String, params: &mut Vec<SqlValue>, query: &ListProjectsQuery, Ghost(head): Ghost<Seq<char>>, Ghost(f): Ghost<Filter>)
    requires
        holds_filter(old(sql)@, old(params)@, head, f),
        old(params)@.len() < usize::MAX - 1,
    ensures
        holds_filter(final(sql)@, final(params)@, head, with_favorite(with_keywords(f, *query), *query)),
{
    if let Some(kw) = &query.keywords {
        let idx = next_placeholder(params);
        sql.append(" AND keywords LIKE ");
        sql.append(idx.as_str());
        push_like(params, kw);
    }
    let ghost g = with_keywords(f, *query);
    assert(sql@ =~= head + g.sql);
    if let Some(true) = query.favorite_only {
        sql.append(" AND favorite = 1");
    }
    assert(sql@ =~= head + with_favorite(g, *query).sql);
}

/// The statement listing the projects that match `query`: every given
/// filter as a condition with its value bound to the placeholder of its
/// position, then the order (newest first unless the query says otherwise).
pub fn list_projects_statement(query: &ListProjectsQuery) -> (r: Statement)
    requires
        query.tags matches Some(t) ==> t@.len() < usize::MAX - 8,
    ensures
        r.sql@ == list_projects_sql(*query),
        views(r.params@) == project_filter(*query).params,
{
    let ghost q = *query;
    let ghost f0 = Filter { sql: Seq::empty(), params: Seq::empty() };
    let mut sql = String::from_str("SELECT ");
    sql.append(PROJECT_COLUMNS);
    sql.append(" FROM projects WHERE 1=1");
    let ghost head = sql@;
    let mut params: Vec<SqlValue> = Vec::new();
    assert(views(params@) =~= Seq::<SqlValueView>::empty());
    assert(sql@ =~= head + f0.sql);
    add_search(&mut sql, &mut params, query, Ghost(head), Ghost(f0));
    let ghost f1 = with_search(f0, q);
    add_artist(&mut sql, &mut params, query, Ghost(head), Ghost(f1));
    let ghost f2 = with_artist(f1, q);
    add_bpm_bounds(&mut sql, &mut params, query, Ghost(head), Ghost(f2));
    let ghost f4 = with_bpm_max(with_bpm_min(f2, q), q);
    add_key_and_note(&mut sql, &mut params, query, Ghost(head), Ghost(f4));
    let ghost f6 = with_note(with_key(f4, q), q);
    add_tags(&mut sql, &mut params, query, Ghost(head), Ghost(f6));
    let ghost f7 = with_tags(f6, q);
    add_keywords_and_favorite(&mut sql, &mut params, query, Ghost(head), Ghost(f7));
    let sql = apply_sort(sql, query);
    Statement { sql, params }
}


// ---------------------------------------------------------------- updates

/// A given tempo as a value.
pub open spec fn real_given(v: Option<u64>) -> Option<SqlValueView> {
    match v {
        Some(b) => Some(SqlValueView::Real(b)),
        None => None,
    }
}

/// A given flag as a value: 1 for true, 0 for false.
pub open spec fn flag_given(v: Option<bool>) -> Option<SqlValueView> {
    match v {
        Some(b) => Some(SqlValueView::Int(if b { 1 } else { 0 })),
        None => None,
    }
}

/// The columns a project update changes, in statement order, each with its
/// new value: exactly the fields that the request gives.
pub open spec fn project_assignments(req: UpdateProjectRequest) -> Seq<Assignment> {
    assign_if("name"@, text_given(req.name)) + assign_if("artist"@, text_given(req.artist))
        + assign_if("bpm"@, real_given(req.bpm_bits)) + assign_if(
        "musical_key"@,
        text_given(req.musical_key),
    ) + assign_if("root_note"@, text_given(req.root_note)) + assign_if(
        "keywords"@,
        text_given(req.keywords),
    ) + assign_if("notes"@, text_given(req.notes)) + assign_if(
        "description"@,
        text_given(req.description),
    ) + assign_if("favorite"@, flag_given(req.favorite)) + assign_if(
        "daw_type"@,
        text_given(req.daw_type),
    )
}

/// An element of `s` is an element of `s + t`.
pub(crate) proof fn lemma_contains_in_sum(s: Seq<Assignment>, t: Seq<Assignment>, x: Assignment)
    requires
        s.contains(x),
    ensures
        (s + t).contains(x),
{
    let i = choose|i: int| 0 <= i < s.len() && s[i] == x;
    assert((s + t)[i] == x);
}

/// An element of `t` is an element of `s + t`.
pub(crate) proof fn lemma_contains_in_sum_right(s: Seq<Assignment>, t: Seq<Assignment>, x: Assignment)
    requires
        t.contains(x),
    ensures
        (s + t).contains(x),
{
    let i = choose|i: int| 0 <= i < t.len() && t[i] == x;
    assert((s + t)[s.len() + i] == x);
}

/// An update writes each field that the request gives, under its own
/// column and with the given value (a tempo by its bits, a flag as 1 or 0).
pub proof fn lemma_update_writes_given_fields(req: UpdateProjectRequest)
    ensures
        req.name matches Some(v) ==> project_assignments(req).contains(("name"@, SqlValueView::Text(v@))),
        req.artist matches Some(v) ==> project_assignments(req).contains(("artist"@, SqlValueView::Text(v@))),
        req.bpm_bits matches Some(v) ==> project_assignments(req).contains(("bpm"@, SqlValueView::Real(v))),
        req.musical_key matches Some(v) ==> project_assignments(req).contains(("musical_key"@, SqlValueView::Text(v@))),
        req.root_note matches Some(v) ==> project_assignments(req).contains(("root_note"@, SqlValueView::Text(v@))),
        req.keywords matches Some(v) ==> project_assignments(req).contains(("keywords"@, SqlValueView::Text(v@))),
        req.notes matches Some(v) ==> project_assignments(req).contains(("notes"@, SqlValueView::Text(v@))),
        req.description matches Some(v) ==> project_assignments(req).contains(("description"@, SqlValueView::Text(v@))),
        req.favorite matches Some(v) ==> project_assignments(req).contains(("favorite"@, SqlValueView::Int(if v { 1 } else { 0 }))),
        req.daw_type matches Some(v) ==> project_assignments(req).contains(("daw_type"@, SqlValueView::Text(v@))),
{
    let c0 = assign_if("name"@, text_given(req.name));
    let c1 = c0 + assign_if("artist"@, text_given(req.artist));
    let c2 = c1 + assign_if("bpm"@, real_given(req.bpm_bits));
    let c3 = c2 + assign_if("musical_key"@, text_given(req.musical_key));
    let c4 = c3 + assign_if("root_note"@, text_given(req.root_note));
    let c5 = c4 + assign_if("keywords"@, text_given(req.keywords));
    let c6 = c5 + assign_if("notes"@, text_given(req.notes));
    let c7 = c6 + assign_if("description"@, text_given(req.description));
    let c8 = c7 + assign_if("favorite"@, flag_given(req.favorite));
    let c9 = c8 + assign_if("daw_type"@, text_given(req.daw_type));
    assert(c9 == project_assignments(req));
    if let Some(v) = req.name {
        let x = ("name"@, SqlValueView::Text(v@));
        assert(c0.contains(x)) by {
            assert(c0[0] == x);
        }
        lemma_contains_in_sum(c0, assign_if("artist"@, text_given(req.artist)), x);
        lemma_contains_in_sum(c1, assign_if("bpm"@, real_given(req.bpm_bits)), x);
        lemma_contains_in_sum(c2, assign_if("musical_key"@, text_given(req.musical_key)), x);
        lemma_contains_in_sum(c3, assign_if("root_note"@, text_given(req.root_note)), x);
        lemma_contains_in_sum(c4, assign_if("keywords"@, text_given(req.keywords)), x);
        lemma_contains_in_sum(c5, assign_if("notes"@, text_given(req.notes)), x);
        lemma_contains_in_sum(c6, assign_if("description"@, text_given(req.description)), x);
        lemma_contains_in_sum(c7, assign_if("favorite"@, flag_given(req.favorite)), x);
        lemma_contains_in_sum(c8, assign_if("daw_type"@, text_given(req.daw_type)), x);
    }
    if let Some(v) = req.artist {
        let x = ("artist"@, SqlValueView::Text(v@));
        assert(c1.contains(x)) by {
            assert(assign_if("artist"@, text_given(req.artist))[0] == x);
            lemma_contains_in_sum_right(c0, assign_if("artist"@, text_given(req.artist)), x);
        }
        lemma_contains_in_sum(c1, assign_if("bpm"@, real_given(req.bpm_bits)), x);
        lemma_contains_in_sum(c2, assign_if("musical_key"@, text_given(req.musical_key)), x);
        lemma_contains_in_sum(c3, assign_if("root_note"@, text_given(req.root_note)), x);
        lemma_contains_in_sum(c4, assign_if("keywords"@, text_given(req.keywords)), x);
        lemma_contains_in_sum(c5, assign_if("notes"@, text_given(req.notes)), x);
        lemma_contains_in_sum(c6, assign_if("description"@, text_given(req.description)), x);
        lemma_contains_in_sum(c7, assign_if("favorite"@, flag_given(req.favorite)), x);
        lemma_contains_in_sum(c8, assign_if("daw_type"@, text_given(req.daw_type)), x);
    }
    if let Some(v) = req.bpm_bits {
        let x = ("bpm"@, SqlValueView::Real(v));
        assert(c2.contains(x)) by {
            assert(assign_if("bpm"@, real_given(req.bpm_bits))[0] == x);
            lemma_contains_in_sum_right(c1, assign_if("bpm"@, real_given(req.bpm_bits)), x);
        }
        lemma_contains_in_sum(c2, assign_if("musical_key"@, text_given(req.musical_key)), x);
        lemma_contains_in_sum(c3, assign_if("root_note"@, text_given(req.root_note)), x);
        lemma_contains_in_sum(c4, assign_if("keywords"@, text_given(req.keywords)), x);
        lemma_contains_in_sum(c5, assign_if("notes"@, text_given(req.notes)), x);
        lemma_contains_in_sum(c6, assign_if("description"@, text_given(req.description)), x);
        lemma_contains_in_sum(c7, assign_if("favorite"@, flag_given(req.favorite)), x);
        lemma_contains_in_sum(c8, assign_if("daw_type"@, text_given(req.daw_type)), x);
    }
    if let Some(v) = req.musical_key {
        let x = ("musical_key"@, SqlValueView::Text(v@));
        assert(c3.contains(x)) by {
            assert(assign_if("musical_key"@, text_given(req.musical_key))[0] == x);
            lemma_contains_in_sum_right(c2, assign_if("musical_key"@, text_given(req.musical_key)), x);
        }
        lemma_contains_in_sum(c3, assign_if("root_note"@, text_given(req.root_note)), x);
        lemma_contains_in_sum(c4, assign_if("keywords"@, text_given(req.keywords)), x);
        lemma_contains_in_sum(c5, assign_if("notes"@, text_given(req.notes)), x);
        lemma_contains_in_sum(c6, assign_if("description"@, text_given(req.description)), x);
        lemma_contains_in_sum(c7, assign_if("favorite"@, flag_given(req.favorite)), x);
        lemma_contains_in_sum(c8, assign_if("daw_type"@, text_given(req.daw_type)), x);
    }
    if let Some(v) = req.root_note {
        let x = ("root_note"@, SqlValueView::Text(v@));
        assert(c4.contains(x)) by {
            assert(assign_if("root_note"@, text_given(req.root_note))[0] == x);
            lemma_contains_in_sum_right(c3, assign_if("root_note"@, text_given(req.root_note)), x);
        }
        lemma_contains_in_sum(c4, assign_if("keywords"@, text_given(req.keywords)), x);
        lemma_contains_in_sum(c5, assign_if("notes"@, text_given(req.notes)), x);
        lemma_contains_in_sum(c6, assign_if("description"@, text_given(req.description)), x);
        lemma_contains_in_sum(c7, assign_if("favorite"@, flag_given(req.favorite)), x);
        lemma_contains_in_sum(c8, assign_if("daw_type"@, text_given(req.daw_type)), x);
    }
    if let Some(v) = req.keywords {
        let x = ("keywords"@, SqlValueView::Text(v@));
        assert(c5.contains(x)) by {
            assert(assign_if("keywords"@, text_given(req.keywords))[0] == x);
            lemma_contains_in_sum_right(c4, assign_if("keywords"@, text_given(req.keywords)), x);
        }
        lemma_contains_in_sum(c5, assign_if("notes"@, text_given(req.notes)), x);
        lemma_contains_in_sum(c6, assign_if("description"@, text_given(req.description)), x);
        lemma_contains_in_sum(c7, assign_if("favorite"@, flag_given(req.favorite)), x);
        lemma_contains_in_sum(c8, assign_if("daw_type"@, text_given(req.daw_type)), x);
    }
    if let Some(v) = req.notes {
        let x = ("notes"@, SqlValueView::Text(v@));
        assert(c6.contains(x)) by {
            assert(assign_if("notes"@, text_given(req.notes))[0] == x);
            lemma_contains_in_sum_right(c5, assign_if("notes"@, text_given(req.notes)), x);
        }
        lemma_contains_in_sum(c6, assign_if("description"@, text_given(req.description)), x);
        lemma_contains_in_sum(c7, assign_if("favorite"@, flag_given(req.favorite)), x);
        lemma_contains_in_sum(c8, assign_if("daw_type"@, text_given(req.daw_type)), x);
    }
    if let Some(v) = req.description {
        let x = ("description"@, SqlValueView::Text(v@));
        assert(c7.contains(x)) by {
            assert(assign_if("description"@, text_given(req.description))[0] == x);
            lemma_contains_in_sum_right(c6, assign_if("description"@, text_given(req.description)), x);
        }
        lemma_contains_in_sum(c7, assign_if("favorite"@, flag_given(req.favorite)), x);
        lemma_contains_in_sum(c8, assign_if("daw_type"@, text_given(req.daw_type)), x);
    }
    if let Some(v) = req.favorite {
        let x = ("favorite"@, SqlValueView::Int(if v { 1 } else { 0 }));
        assert(c8.contains(x)) by {
            assert(assign_if("favorite"@, flag_given(req.favorite))[0] == x);
            lemma_contains_in_sum_right(c7, assign_if("favorite"@, flag_given(req.favorite)), x);
        }
        lemma_contains_in_sum(c8, assign_if("daw_type"@, text_given(req.daw_type)), x);
    }
    if let Some(v) = req.daw_type {
        let x = ("daw_type"@, SqlValueView::Text(v@));
        assert(c9.contains(x)) by {
            assert(assign_if("daw_type"@, text_given(req.daw_type))[0] == x);
            lemma_contains_in_sum_right(c8, assign_if("daw_type"@, text_given(req.daw_type)), x);
        }
    }
}

/// The request gives a value for the column `col`.
#[verifier::opaque]
pub open spec fn field_given(req: UpdateProjectRequest, col: Seq<char>) -> bool {
    (col == "name"@ && req.name is Some) ||
    (col == "artist"@ && req.artist is Some) ||
    (col == "bpm"@ && req.bpm_bits is Some) ||
    (col == "musical_key"@ && req.musical_key is Some) ||
    (col == "root_note"@ && req.root_note is Some) ||
    (col == "keywords"@ && req.keywords is Some) ||
    (col == "notes"@ && req.notes is Some) ||
    (col == "description"@ && req.description is Some) ||
    (col == "favorite"@ && req.favorite is Some) ||
    (col == "daw_type"@ && req.daw_type is Some)
}

/// Adding the assignment of a given column keeps every assigned column given.
proof fn lemma_given_step(req: UpdateProjectRequest, c: Seq<Assignment>, col: Seq<char>, v: Option<SqlValueView>)
    requires
        forall|i: int| 0 <= i < c.len() ==> field_given(req, #[trigger] c[i].0),
        v is Some ==> field_given(req, col),
    ensures
        forall|i: int| 0 <= i < (c + assign_if(col, v)).len() ==> field_given(req, #[trigger] (c + assign_if(col, v))[i].0),
{
    assert forall|i: int| 0 <= i < (c + assign_if(col, v)).len() implies field_given(req, #[trigger] (c + assign_if(col, v))[i].0) by {
        if i < c.len() {
            assert((c + assign_if(col, v))[i] == c[i]);
        }
    }
}

/// An update writes something exactly when the request gives a field, and
/// writes no column whose field the request leaves out.
pub proof fn lemma_update_writes_only_given_fields(req: UpdateProjectRequest)
    ensures
        (req.name is Some || req.artist is Some || req.bpm_bits is Some || req.musical_key is Some || req.root_note is Some || req.keywords is Some || req.notes is Some || req.description is Some || req.favorite is Some || req.daw_type is Some) <==> project_assignments(req).len() > 0,
        forall|i: int|
            0 <= i < project_assignments(req).len() ==> field_given(req, #[trigger] project_assignments(req)[i].0),
{
    let c0 = Seq::<Assignment>::empty() + assign_if("name"@, text_given(req.name));
    let c1 = c0 + assign_if("artist"@, text_given(req.artist));
    let c2 = c1 + assign_if("bpm"@, real_given(req.bpm_bits));
    let c3 = c2 + assign_if("musical_key"@, text_given(req.musical_key));
    let c4 = c3 + assign_if("root_note"@, text_given(req.root_note));
    let c5 = c4 + assign_if("keywords"@, text_given(req.keywords));
    let c6 = c5 + assign_if("notes"@, text_given(req.notes));
    let c7 = c6 + assign_if("description"@, text_given(req.description));
    let c8 = c7 + assign_if("favorite"@, flag_given(req.favorite));
    let c9 = c8 + assign_if("daw_type"@, text_given(req.daw_type));
    assert(c9 =~= project_assignments(req));
    assert(text_given(req.name) is Some ==> field_given(req, "name"@)) by {
        reveal(field_given);
    }
    lemma_given_step(req, Seq::<Assignment>::empty(), "name"@, text_given(req.name));
    assert(text_given(req.artist) is Some ==> field_given(req, "artist"@)) by {
        reveal(field_given);
    }
    lemma_given_step(req, c0, "artist"@, text_given(req.artist));
    assert(real_given(req.bpm_bits) is Some ==> field_given(req, "bpm"@)) by {
        reveal(field_given);
    }
    lemma_given_step(req, c1, "bpm"@, real_given(req.bpm_bits));
    assert(text_given(req.musical_key) is Some ==> field_given(req, "musical_key"@)) by {
        reveal(field_given);
    }
    lemma_given_step(req, c2, "musical_key"@, text_given(req.musical_key));
    assert(text_given(req.root_note) is Some ==> field_given(req, "root_note"@)) by {
        reveal(field_given);
    }
    lemma_given_step(req, c3, "root_note"@, text_given(req.root_note));
    assert(text_given(req.keywords) is Some ==> field_given(req, "keywords"@)) by {
        reveal(field_given);
    }
    lemma_given_step(req, c4, "keywords"@, text_given(req.keywords));
    assert(text_given(req.notes) is Some ==> field_given(req, "notes"@)) by {
        reveal(field_given);
    }
    lemma_given_step(req, c5, "notes"@, text_given(req.notes));
    assert(text_given(req.description) is Some ==> field_given(req, "description"@)) by {
        reveal(field_given);
    }
    lemma_given_step(req, c6, "description"@, text_given(req.description));
    assert(flag_given(req.favorite) is Some ==> field_given(req, "favorite"@)) by {
        reveal(field_given);
    }
    lemma_given_step(req, c7, "favorite"@, flag_given(req.favorite));
    assert(text_given(req.daw_type) is Some ==> field_given(req, "daw_type"@)) by {
        reveal(field_given);
    }
    lemma_given_step(req, c8, "daw_type"@, text_given(req.daw_type));
}

/// The statement that writes the fields given in `req` to project `id`,
/// stamped `now`; `None` when the request gives none of them (tags are
/// handled apart).
pub fn apply_updates(id: &str, now: &str, req: &UpdateProjectRequest) -> (r: Option<Statement>)
    ensures
        r is None <==> project_assignments(*req).len() == 0,
        r matches Some(st) ==> st.sql@ == update_sql("projects"@, project_assignments(*req))
            && views(st.params@) == update_values(project_assignments(*req), now@, id@),
{
    let ghost q = *req;
    let mut parts: Vec<String> = Vec::new();
    let mut values: Vec<SqlValue> = Vec::new();
    let ghost a0 = Seq::<Assignment>::empty();
    assert(texts(parts@) =~= a0.map_values(|a: Assignment| a.0 + " = ?"@));
    assert(views(values@) =~= a0.map_values(|a: Assignment| a.1));
    add_assignment(&mut parts, &mut values, "name", given_text(&req.name), Ghost(a0));
    let ghost a1 = a0 + assign_if("name"@, text_given(q.name));
    add_assignment(&mut parts, &mut values, "artist", given_text(&req.artist), Ghost(a1));
    let ghost a2 = a1 + assign_if("artist"@, text_given(q.artist));
    let bpm = match req.bpm_bits {
        Some(b) => Some(SqlValue::Real(b)),
        None => None,
    };
    add_assignment(&mut parts, &mut values, "bpm", bpm, Ghost(a2));
    let ghost a3 = a2 + assign_if("bpm"@, real_given(q.bpm_bits));
    add_assignment(&mut parts, &mut values, "musical_key", given_text(&req.musical_key), Ghost(a3));
    let ghost a4 = a3 + assign_if("musical_key"@, text_given(q.musical_key));
    add_assignment(&mut parts, &mut values, "root_note", given_text(&req.root_note), Ghost(a4));
    let ghost a5 = a4 + assign_if("root_note"@, text_given(q.root_note));
    add_assignment(&mut parts, &mut values, "keywords", given_text(&req.keywords), Ghost(a5));
    let ghost a6 = a5 + assign_if("keywords"@, text_given(q.keywords));
    add_assignment(&mut parts, &mut values, "notes", given_text(&req.notes), Ghost(a6));
    let ghost a7 = a6 + assign_if("notes"@, text_given(q.notes));
    add_assignment(&mut parts, &mut values, "description", given_text(&req.description), Ghost(a7));
    let ghost a8 = a7 + assign_if("description"@, text_given(q.description));
    let fav = match req.favorite {
        Some(b) => Some(SqlValue::Int(if b { 1 } else { 0 })),
        None => None,
    };
    add_assignment(&mut parts, &mut values, "favorite", fav, Ghost(a8));
    let ghost a9 = a8 + assign_if("favorite"@, flag_given(q.favorite));
    add_assignment(&mut parts, &mut values, "daw_type", given_text(&req.daw_type), Ghost(a9));
    let ghost a10 = a9 + assign_if("daw_type"@, text_given(q.daw_type));
    assert(a10 =~= project_assignments(q));
    if parts.len() == 0 {
        assert(texts(parts@).len() == 0);
        return None;
    }
    Some(finish_update("projects", parts, values, now, id, Ghost(a10)))
}

/// The statements of an update and the read that follows it.
#[derive(Debug, Clone)]
pub struct UpdatePlan {
    /// The update of the given fields, if any field is given.
    pub update: Option<Statement>,
    /// When tags are given: the removal of the old tags, then one insertion
    /// for each new tag.
    pub tag_statements: Vec<Statement>,
    /// The read of the project as it stands after the update.
    pub reload: Statement,
}

/// The statements that update a project: the given fields stamped with the
/// current time, the replacement of the tags when they are given, and the
/// read of the result.
pub fn update_project_plan(req: &UpdateProjectRequest) -> (r: UpdatePlan)
    requires
        req.tags matches Some(t) ==> t@.len() < usize::MAX,
    ensures
        r.update is None <==> project_assignments(*req).len() == 0,
        r.update matches Some(st) ==> st.sql@ == update_sql("projects"@, project_assignments(*req))
            && exists|now: Seq<char>| views(st.params@) == update_values(project_assignments(*req), now, req.id@),
        match req.tags {
            None => r.tag_statements@.len() == 0,
            Some(tags) => r.tag_statements@.len() == tags@.len() + 1
                && r.tag_statements@[0].sql@ == "DELETE FROM project_tags WHERE project_id = ?1"@
                && views(r.tag_statements@[0].params@) == seq![SqlValueView::Text(req.id@)]
                && forall|i: int| 0 <= i < tags@.len() ==> is_tag_insert(
                    #[trigger] r.tag_statements@[i + 1],
                    req.id@,
                    tags@[i]@,
                ),
        },
        is_get_project(r.reload, req.id@),
{
    let now = now_timestamp();
    let update = apply_updates(req.id.as_str(), now.as_str(), req);
    let mut tag_statements: Vec<Statement> = Vec::new();
    if let Some(tags) = &req.tags {
        tag_statements.push(
            statement(
                "DELETE FROM project_tags WHERE project_id = ?1",
                vec![text_value(req.id.as_str())],
            ),
        );
        let mut inserts = insert_project_tags(req.id.as_str(), tags);
        let ghost ins = inserts@;
        let ghost first = tag_statements@[0];
        tag_statements.append(&mut inserts);
        assert(tag_statements@[0] == first);
        assert forall|k: int| 0 <= k < tags@.len() implies is_tag_insert(
            #[trigger] tag_statements@[k + 1],
            req.id@,
            tags@[k]@,
        ) by {
            assert(tag_statements@[k + 1] == ins[k]);
        }
    }
    let reload = get_project_by_id(req.id.as_str());
    UpdatePlan { update, tag_statements, reload }
}

// ---------------------------------------------------------------- reads and writes

/// `st` inserts tag `tag` of project `project_id` (under a fresh id), unless
/// the project already has it.
pub open spec fn is_tag_insert(st: Statement, project_id: Seq<char>, tag: Seq<char>) -> bool {
    &&& st.sql@ == "INSERT OR IGNORE INTO project_tags (id, project_id, tag) VALUES (?1, ?2, ?3)"@
    &&& views(st.params@).len() == 3
    &&& views(st.params@)[0] is Text
    &&& views(st.params@)[1] == SqlValueView::Text(project_id)
    &&& views(st.params@)[2] == SqlValueView::Text(tag)
}

/// One insertion for each tag of `tags`, in order, each under a fresh id.
pub fn insert_project_tags(project_id: &str, tags: &Vec<String>) -> (r: Vec<Statement>)
    ensures
        r@.len() == tags@.len(),
        forall|i: int| 0 <= i < tags@.len() ==> is_tag_insert(#[trigger] r@[i], project_id@, tags@[i]@),
{
    let mut r: Vec<Statement> = Vec::new();
    let mut i: usize = 0;
    while i < tags.len()
        invariant
            i <= tags@.len(),
            r@.len() == i,
            forall|k: int| 0 <= k < i ==> is_tag_insert(#[trigger] r@[k], project_id@, tags@[k]@),
        decreases tags.len() - i,
    {
        let id = new_id();
        let st = statement(
            "INSERT OR IGNORE INTO project_tags (id, project_id, tag) VALUES (?1, ?2, ?3)",
            vec![SqlValue::Text(id), text_value(project_id), text_value(tags[i].as_str())],
        );
        assert(views(st.params@) =~= seq![
            st.params@[0]@,
            SqlValueView::Text(project_id@),
            SqlValueView::Text(tags@[i as int]@),
        ]);
        r.push(st);
        i = i + 1;
    }
    r
}

/// `st` reads the project with id `id`.
pub open spec fn is_get_project(st: Statement, id: Seq<char>) -> bool {
    &&& st.sql@ == "SELECT "@ + PROJECT_COLUMNS@ + " FROM projects WHERE id = ?1"@
    &&& views(st.params@) == seq![SqlValueView::Text(id)]
}

/// The read of the project with id `id`.
pub fn get_project_by_id(id: &str) -> (r: Statement)
    ensures
        is_get_project(r, id@),
{
    let mut sql = String::from_str("SELECT ");
    sql.append(PROJECT_COLUMNS);
    sql.append(" FROM projects WHERE id = ?1");
    let params = vec![text_value(id)];
    assert(views(params@) =~= seq![SqlValueView::Text(id@)]);
    Statement { sql, params }
}

/// The count of projects stored at `path`.
pub fn project_exists_by_path(path: &str) -> (r: Statement)
    ensures
        r.sql@ == "SELECT COUNT(*) FROM projects WHERE path = ?1"@,
        views(r.params@) == seq![SqlValueView::Text(path@)],
{
    let params = vec![text_value(path)];
    assert(views(params@) =~= seq![SqlValueView::Text(path@)]);
    statement("SELECT COUNT(*) FROM projects WHERE path = ?1", params)
}

/// Whether a path is taken, from the count of projects stored there.
pub fn path_taken(count: i32) -> (r: bool)
    ensures
        r == (count > 0),
{
    count > 0
}

/// The flag stored in a `favorite` column: any value but 0 is set.
pub fn favorite_flag(value: i32) -> (r: bool)
    ensures
        r == (value != 0),
{
    value != 0
}

/// The statements of a favorite toggle: flip the flag and stamp the time,
/// then read the flag back.
pub fn toggle_favorite(id: &str) -> (r: (Statement, Statement))
    ensures
        r.0.sql@ == "UPDATE projects SET favorite = CASE WHEN favorite = 0 THEN 1 ELSE 0 END, updated_at = ?1 WHERE id = ?2"@,
        views(r.0.params@).len() == 2,
        views(r.0.params@)[0] is Text,
        views(r.0.params@)[1] == SqlValueView::Text(id@),
        r.1.sql@ == "SELECT favorite FROM projects WHERE id = ?1"@,
        views(r.1.params@) == seq![SqlValueView::Text(id@)],
{
    let now = now_timestamp();
    let p0 = vec![SqlValue::Text(now), text_value(id)];
    let p1 = vec![text_value(id)];
    assert(views(p1@) =~= seq![SqlValueView::Text(id@)]);
    assert(views(p0@)[1] == SqlValueView::Text(id@));
    (
        statement(
            "UPDATE projects SET favorite = CASE WHEN favorite = 0 THEN 1 ELSE 0 END, updated_at = ?1 WHERE id = ?2",
            p0,
        ),
        statement("SELECT favorite FROM projects WHERE id = ?1", p1),
    )
}

/// The removal of project `id`.
pub fn delete_project(id: &str) -> (r: Statement)
    ensures
        r.sql@ == "DELETE FROM projects WHERE id = ?1"@,
        views(r.params@) == seq![SqlValueView::Text(id@)],
{
    let params = vec![text_value(id)];
    assert(views(params@) =~= seq![SqlValueView::Text(id@)]);
    statement("DELETE FROM projects WHERE id = ?1", params)
}

/// The tags of a project, in alphabetical order.
pub fn get_project_tags(project_id: &str) -> (r: Statement)
    ensures
        r.sql@ == "SELECT tag FROM project_tags WHERE project_id = ?1 ORDER BY tag"@,
        views(r.params@) == seq![SqlValueView::Text(project_id@)],
{
    let params = vec![text_value(project_id)];
    assert(views(params@) =~= seq![SqlValueView::Text(project_id@)]);
    statement("SELECT tag FROM project_tags WHERE project_id = ?1 ORDER BY tag", params)
}


// ---------------------------------------------------------------- import

/// serde_json's error type, carried through as an opaque value.
#[verifier::external_type_specification]
#[verifier::external_body]
pub struct ExJsonError(serde_json::Error);

/// The lowercase hexadecimal digit `d` (below 16).
pub open spec fn json_hex(d: int) -> char {
    if d < 10 {
        (('0' as int) + d) as char
    } else {
        (('a' as int) + d - 10) as char
    }
}

/// How serde_json writes the character `c` inside a JSON string: quote and
/// backslash behind a backslash, the five named controls by their letter,
/// other controls below 0x20 as `\u00XX`, anything else as it is.
pub open spec fn json_char(c: char) -> Seq<char> {
    let n = c as u32;
    if n == 0x22 {
        seq!['\\', '"']
    } else if n == 0x5c {
        seq!['\\', '\\']
    } else if n == 0x08 {
        seq!['\\', 'b']
    } else if n == 0x09 {
        seq!['\\', 't']
    } else if n == 0x0a {
        seq!['\\', 'n']
    } else if n == 0x0c {
        seq!['\\', 'f']
    } else if n == 0x0d {
        seq!['\\', 'r']
    } else if n < 0x20 {
        seq!['\\', 'u', '0', '0', json_hex(n as int / 16), json_hex(n as int % 16)]
    } else {
        seq![c]
    }
}

/// The characters of `s`, each as serde_json writes it inside a string.
pub open spec fn json_escaped(s: Seq<char>) -> Seq<char>
    decreases s.len(),
{
    if s.len() == 0 {
        Seq::empty()
    } else {
        json_escaped(s.drop_last()) + json_char(s.last())
    }
}

/// `s` as a JSON string literal.
pub open spec fn json_string(s: Seq<char>) -> Seq<char> {
    "\""@ + json_escaped(s) + "\""@
}

/// The JSON array of the given strings, as serde_json writes it compactly:
/// the string literals between brackets, separated by commas.
pub open spec fn json_string_array(items: Seq<Seq<char>>) -> Seq<char> {
    "["@ + join(items.map_values(|t: Seq<char>| json_string(t)), ","@) + "]"@
}

/// Writes `tags` as a JSON array. Calls `serde_json::to_string` on the vector;
/// the contract states that it succeeds (serde_json fails only where a
/// `Serialize` impl fails or a map has non-string keys, and strings in a
/// vector do neither) and gives the text that its compact formatter and
/// escape table write.
#[verifier::external_body]
fn tags_json(tags: &Vec<String>) -> (r: Result<String, serde_json::Error>)
    ensures
        r is Ok,
        r matches Ok(s) ==> s@ == json_string_array(texts(tags@)),
{
    serde_json::to_string(tags)
}

/// What an import writes: the project row, its tags, and the project as the
/// front end receives it.
#[derive(Debug, Clone)]
pub struct ImportPlan {
    pub insert: Statement,
    pub tag_inserts: Vec<Statement>,
    pub project: Project,
}

/// The text of a JSON tag list, as the project row records it.
pub open spec fn tags_field(tags: Option<Vec<String>>) -> Option<Seq<char>> {
    match tags {
        Some(t) => Some(json_string_array(texts(t@))),
        None => None,
    }
}

/// The insertion of the imported project `p`.
pub open spec fn is_project_insert(st: Statement, p: Project) -> bool {
    &&& st.sql@ == "INSERT INTO projects (id, name, path, artist, daw_type, keywords, notes, created_at, updated_at) VALUES (?1, ?2, ?3, ?4, ?5, ?6, ?7, ?8, ?9)"@
    &&& views(st.params@) == seq![
        SqlValueView::Text(p.id@),
        SqlValueView::Text(p.name@),
        SqlValueView::Text(p.path@),
        opt_text(p.artist),
        opt_text(p.daw_type),
        opt_text(p.keywords),
        opt_text(p.notes),
        SqlValueView::Text(p.created_at@),
        SqlValueView::Text(p.updated_at@),
    ]
}

/// Decides an import of `req` once its path is resolved to `canonical`:
/// a path that is already imported is refused; otherwise the project gets a
/// fresh id and the current time, no tempo, key or root note, an empty
/// description, is not a favorite, records its tags as JSON, and counts as
/// opened now. The insertion binds exactly the fields of the returned project.
pub fn import_project_plan(req: ImportProjectRequest, canonical: String, already_imported: bool) -> (r: Result<ImportPlan, String>)
    requires
        req.tags matches Some(t) ==> t@.len() < usize::MAX,
    ensures
        r is Err <==> already_imported,
        r matches Err(e) ==> e@ == "Project already imported: "@ + req.name@,
        r matches Ok(plan) ==> {
            let p = plan.project;
            &&& p.id@.len() == 36
            &&& p.name == req.name
            &&& p.path == canonical
            &&& p.artist == req.artist
            &&& p.daw_type == req.daw_type
            &&& p.keywords == req.keywords
            &&& p.notes == req.notes
            &&& p.bpm_bits is None
            &&& p.musical_key is None
            &&& p.root_note is None
            &&& p.description@.len() == 0
            &&& !p.favorite
            &&& opt_view(p.tags) == tags_field(req.tags)
            &&& p.updated_at@ == p.created_at@
            &&& p.last_opened matches Some(t) && t@ == p.created_at@
            &&& is_project_insert(plan.insert, p)
            &&& plan.tag_inserts@.len() == match req.tags {
                Some(t) => t@.len(),
                None => 0,
            }
            &&& req.tags matches Some(t) ==> forall|i: int|
                0 <= i < t@.len() ==> is_tag_insert(#[trigger] plan.tag_inserts@[i], p.id@, t@[i]@)
        },
{
    if already_imported {
        return Err(crate::text::concat2("Project already imported: ", req.name.as_str()));
    }
    let id = new_id();
    let now = now_timestamp();
    let params = vec![
        text_value(id.as_str()),
        text_value(req.name.as_str()),
        text_value(canonical.as_str()),
        opt_text_value(&req.artist),
        opt_text_value(&req.daw_type),
        opt_text_value(&req.keywords),
        opt_text_value(&req.notes),
        text_value(now.as_str()),
        text_value(now.as_str()),
    ];
    let insert = statement(
        "INSERT INTO projects (id, name, path, artist, daw_type, keywords, notes, created_at, updated_at) VALUES (?1, ?2, ?3, ?4, ?5, ?6, ?7, ?8, ?9)",
        params,
    );
    let tag_inserts = match &req.tags {
        Some(tags) => insert_project_tags(id.as_str(), tags),
        None => Vec::new(),
    };
    let tags_text: Option<String> = match &req.tags {
        Some(tags) => match tags_json(tags) {
            Ok(s) => Some(s),
            Err(_) => Some(String::new()),
        },
        None => None,
    };
    let project = Project {
        id,
        name: req.name,
        path: canonical,
        artist: req.artist,
        bpm_bits: None,
        musical_key: None,
        root_note: None,
        tags: tags_text,
        keywords: req.keywords,
        notes: req.notes,
        description: String::new(),
        favorite: false,
        daw_type: req.daw_type,
        last_opened: Some(now.clone()),
        created_at: now.clone(),
        updated_at: now,
    };
    assert(views(insert.params@) =~= seq![
        SqlValueView::Text(project.id@),
        SqlValueView::Text(project.name@),
        SqlValueView::Text(project.path@),
        opt_text(project.artist),
        opt_text(project.daw_type),
        opt_text(project.keywords),
        opt_text(project.notes),
        SqlValueView::Text(project.created_at@),
        SqlValueView::Text(project.updated_at@),
    ]);
    Ok(ImportPlan { insert, tag_inserts, project })
}

} // verus!
