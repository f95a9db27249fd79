//! Lyrics: writing, changing and finding lyrics of a project.

use vstd::prelude::*;
use crate::db::schema::Lyric;
use crate::models::lyrics::{CreateLyricRequest, UpdateLyricRequest};
use crate::services::project::like_pattern;
use crate::sql::{
    add_assignment, assign_if, finish_update, given_text, opt_text, opt_text_value, statement,
    text_given, text_value, update_sql, update_values, views, Assignment, SqlValue, SqlValueView,
    Statement,
};
use crate::text::{concat3, texts};
use crate::utils::{new_id, now_timestamp};

verus! {

/// The columns of a lyric row, in the order the queries select them.
pub const LYRIC_COLUMNS: &'static str = "id, project_id, title, content, section, language, created_at, updated_at";

/// The lyric that a create of `req` writes, under a fresh id and the current
/// time, and its insertion, which binds exactly the lyric's fields.
pub fn create_lyric_plan(req: CreateLyricRequest) -> (r: (Statement, Lyric))
    ensures
        r.1.id@.len() == 36,
        r.1.project_id == req.project_id,
        r.1.title == req.title,
        r.1.content == req.content,
        r.1.section == req.section,
        r.1.language == req.language,
        r.1.updated_at@ == r.1.created_at@,
        r.0.sql@ == "INSERT INTO lyrics (id, project_id, title, content, section, language, created_at, updated_at) VALUES (?1, ?2, ?3, ?4, ?5, ?6, ?7, ?8)"@,
        views(r.0.params@) == seq![
            SqlValueView::Text(r.1.id@),
            SqlValueView::Text(r.1.project_id@),
            opt_text(r.1.title),
            SqlValueView::Text(r.1.content@),
            opt_text(r.1.section),
            opt_text(r.1.language),
            SqlValueView::Text(r.1.created_at@),
            SqlValueView::Text(r.1.updated_at@),
        ],
{
    let id = new_id();
    let now = now_timestamp();
    let params = vec![
        text_value(id.as_str()),
        text_value(req.project_id.as_str()),
        opt_text_value(&req.title),
        text_value(req.content.as_str()),
        opt_text_value(&req.section),
        opt_text_value(&req.language),
        text_value(now.as_str()),
        text_value(now.as_str()),
    ];
    let st = statement(
        "INSERT INTO lyrics (id, project_id, title, content, section, language, created_at, updated_at) VALUES (?1, ?2, ?3, ?4, ?5, ?6, ?7, ?8)",
        params,
    );
    let lyric = Lyric {
        id,
        project_id: req.project_id,
        title: req.title,
        content: req.content,
        section: req.section,
        language: req.language,
        created_at: now.clone(),
        updated_at: now,
    };
    assert(views(st.params@) =~= seq![
        SqlValueView::Text(lyric.id@),
        SqlValueView::Text(lyric.project_id@),
        opt_text(lyric.title),
        SqlValueView::Text(lyric.content@),
        opt_text(lyric.section),
        opt_text(lyric.language),
        SqlValueView::Text(lyric.created_at@),
        SqlValueView::Text(lyric.updated_at@),
    ]);
    (st, lyric)
}

/// A lyric query: the columns, then `tail`.
fn lyric_query(tail: &str) -> (r: String)
    ensures
        r@ == "SELECT "@ + LYRIC_COLUMNS@ + " FROM lyrics"@ + tail@,
{
    let mut sql = concat3("SELECT ", LYRIC_COLUMNS, " FROM lyrics");
    sql.append(tail);
    sql
}

/// `st` reads lyric `id`.
pub open spec fn is_get_lyric(st: Statement, id: Seq<char>) -> bool {
    &&& st.sql@ == "SELECT "@ + LYRIC_COLUMNS@ + " FROM lyrics"@ + " WHERE id = ?1"@
    &&& views(st.params@) == seq![SqlValueView::Text(id)]
}

/// The read of lyric `id`.
pub fn get_lyric(id: &str) -> (r: Statement)
    ensures
        is_get_lyric(r, id@),
{
    let params = vec![text_value(id)];
    assert(views(params@) =~= seq![SqlValueView::Text(id@)]);
    Statement { sql: lyric_query(" WHERE id = ?1"), params }
}

/// The lyrics of a project, newest first.
pub fn list_lyrics_for_project(project_id: &str) -> (r: Statement)
    ensures
        r.sql@ == "SELECT "@ + LYRIC_COLUMNS@ + " FROM lyrics"@ + " WHERE project_id = ?1 ORDER BY created_at DESC"@,
        views(r.params@) == seq![SqlValueView::Text(project_id@)],
{
    let params = vec![text_value(project_id)];
    assert(views(params@) =~= seq![SqlValueView::Text(project_id@)]);
    Statement { sql: lyric_query(" WHERE project_id = ?1 ORDER BY created_at DESC"), params }
}

/// The columns a lyric update changes, in statement order, each with its new
/// value: exactly the fields that the request gives.
pub open spec fn lyric_assignments(req: UpdateLyricRequest) -> Seq<Assignment> {
    assign_if("title"@, text_given(req.title)) + assign_if("content"@, text_given(req.content))
        + assign_if("section"@, text_given(req.section)) + assign_if(
        "language"@,
        text_given(req.language),
    )
}

/// A lyric update writes each field that the request gives, under its own
/// column and with the given text.
pub proof fn lemma_lyric_update_writes_given_fields(req: UpdateLyricRequest)
    ensures
        req.title matches Some(v) ==> lyric_assignments(req).contains(("title"@, SqlValueView::Text(v@))),
        req.content matches Some(v) ==> lyric_assignments(req).contains(("content"@, SqlValueView::Text(v@))),
        req.section matches Some(v) ==> lyric_assignments(req).contains(("section"@, SqlValueView::Text(v@))),
        req.language matches Some(v) ==> lyric_assignments(req).contains(("language"@, SqlValueView::Text(v@))),
{
    let c0 = assign_if("title"@, text_given(req.title));
    let c1 = c0 + assign_if("content"@, text_given(req.content));
    let c2 = c1 + assign_if("section"@, text_given(req.section));
    let c3 = c2 + assign_if("language"@, text_given(req.language));
    assert(c3 == lyric_assignments(req));
    if let Some(v) = req.title {
        let x = ("title"@, SqlValueView::Text(v@));
        assert(assign_if("title"@, text_given(req.title))[0] == x);
        assert(c0[0] == x);
        crate::services::project::lemma_contains_in_sum(c0, assign_if("content"@, text_given(req.content)), x);
        crate::services::project::lemma_contains_in_sum(c1, assign_if("section"@, text_given(req.section)), x);
        crate::services::project::lemma_contains_in_sum(c2, assign_if("language"@, text_given(req.language)), x);
    }
    if let Some(v) = req.content {
        let x = ("content"@, SqlValueView::Text(v@));
        assert(assign_if("content"@, text_given(req.content))[0] == x);
        crate::services::project::lemma_contains_in_sum_right(c0, assign_if("content"@, text_given(req.content)), x);
        crate::services::project::lemma_contains_in_sum(c1, assign_if("section"@, text_given(req.section)), x);
        crate::services::project::lemma_contains_in_sum(c2, assign_if("language"@, text_given(req.language)), x);
    }
    if let Some(v) = req.section {
        let x = ("section"@, SqlValueView::Text(v@));
        assert(assign_if("section"@, text_given(req.section))[0] == x);
        crate::services::project::lemma_contains_in_sum_right(c1, assign_if("section"@, text_given(req.section)), x);
        crate::services::project::lemma_contains_in_sum(c2, assign_if("language"@, text_given(req.language)), x);
    }
    if let Some(v) = req.language {
        let x = ("language"@, SqlValueView::Text(v@));
        assert(assign_if("language"@, text_given(req.language))[0] == x);
        crate::services::project::lemma_contains_in_sum_right(c2, assign_if("language"@, text_given(req.language)), x);
    }
}

/// A lyric update writes something exactly when the request gives a field,
/// and writes no column whose field the request leaves out.
pub proof fn lemma_lyric_update_writes_only_given_fields(req: UpdateLyricRequest)
    ensures
        (req.title is Some || req.content is Some || req.section is Some || req.language is Some) <==> lyric_assignments(req).len() > 0,
        forall|i: int| 0 <= i < lyric_assignments(req).len() ==> {
            let a = #[trigger] lyric_assignments(req)[i];
            (a.0 == "title"@ && req.title is Some) || (a.0 == "content"@ && req.content is Some) || (a.0 == "section"@ && req.section is Some) || (a.0 == "language"@ && req.language is Some)
        },
{
    let c0 = assign_if("title"@, text_given(req.title));
    let c1 = c0 + assign_if("content"@, text_given(req.content));
    let c2 = c1 + assign_if("section"@, text_given(req.section));
    let c3 = c2 + assign_if("language"@, text_given(req.language));
    assert(c3 == lyric_assignments(req));
    assert forall|i: int| 0 <= i < c0.len() implies {
        let a = #[trigger] c0[i];
        (a.0 == "title"@ && req.title is Some) || (a.0 == "content"@ && req.content is Some) || (a.0 == "section"@ && req.section is Some) || (a.0 == "language"@ && req.language is Some)
    } by {
    }
    assert forall|i: int| 0 <= i < c1.len() implies {
        let a = #[trigger] c1[i];
        (a.0 == "title"@ && req.title is Some) || (a.0 == "content"@ && req.content is Some) || (a.0 == "section"@ && req.section is Some) || (a.0 == "language"@ && req.language is Some)
    } by {
        if i < c0.len() {
            assert(c1[i] == c0[i]);
        }
    }
    assert forall|i: int| 0 <= i < c2.len() implies {
        let a = #[trigger] c2[i];
        (a.0 == "title"@ && req.title is Some) || (a.0 == "content"@ && req.content is Some) || (a.0 == "section"@ && req.section is Some) || (a.0 == "language"@ && req.language is Some)
    } by {
        if i < c1.len() {
            assert(c2[i] == c1[i]);
        }
    }
    assert forall|i: int| 0 <= i < c3.len() implies {
        let a = #[trigger] c3[i];
        (a.0 == "title"@ && req.title is Some) || (a.0 == "content"@ && req.content is Some) || (a.0 == "section"@ && req.section is Some) || (a.0 == "language"@ && req.language is Some)
    } by {
        if i < c2.len() {
            assert(c3[i] == c2[i]);
        }
    }
}

/// The statements of a lyric update: the write of the given fields stamped
/// with the current time (none when no field is given), then the read of the
/// lyric.
pub fn update_lyric(req: &UpdateLyricRequest) -> (r: (Option<Statement>, Statement))
    ensures
        r.0 is None <==> lyric_assignments(*req).len() == 0,
        r.0 matches Some(st) ==> st.sql@ == update_sql("lyrics"@, lyric_assignments(*req))
            && exists|now: Seq<char>| views(st.params@) == update_values(lyric_assignments(*req), now, req.id@),
        is_get_lyric(r.1, req.id@),
{
    let ghost q = *req;
    let now = now_timestamp();
    let mut parts: Vec<String> = Vec::new();
    let mut values: Vec<SqlValue> = Vec::new();
    let ghost a0 = Seq::<Assignment>::empty();
    assert(texts(parts@) =~= a0.map_values(|a: Assignment| a.0 + " = ?"@));
    assert(views(values@) =~= a0.map_values(|a: Assignment| a.1));
    add_assignment(&mut parts, &mut values, "title", given_text(&req.title), Ghost(a0));
    let ghost a1 = a0 + assign_if("title"@, text_given(q.title));
    add_assignment(&mut parts, &mut values, "content", given_text(&req.content), Ghost(a1));
    let ghost a2 = a1 + assign_if("content"@, text_given(q.content));
    add_assignment(&mut parts, &mut values, "section", given_text(&req.section), Ghost(a2));
    let ghost a3 = a2 + assign_if("section"@, text_given(q.section));
    add_assignment(&mut parts, &mut values, "language", given_text(&req.language), Ghost(a3));
    let ghost a4 = a3 + assign_if("language"@, text_given(q.language));
    assert(a4 =~= lyric_assignments(q));
    let read = get_lyric(req.id.as_str());
    if parts.len() == 0 {
        assert(texts(parts@).len() == 0);
        return (None, read);
    }
    (Some(finish_update("lyrics", parts, values, now.as_str(), req.id.as_str(), Ghost(a4))), read)
}

/// The removal of lyric `id`.
pub fn delete_lyric(id: &str) -> (r: Statement)
    ensures
        r.sql@ == "DELETE FROM lyrics WHERE id = ?1"@,
        views(r.params@) == seq![SqlValueView::Text(id@)],
{
    let params = vec![text_value(id)];
    assert(views(params@) =~= seq![SqlValueView::Text(id@)]);
    statement("DELETE FROM lyrics WHERE id = ?1", params)
}

/// The lyrics whose content or title contains `query`, most recently changed first.
pub fn search_lyrics(query: &str) -> (r: Statement)
    ensures
        r.sql@ == "SELECT "@ + LYRIC_COLUMNS@ + " FROM lyrics"@ + " WHERE content LIKE ?1 OR title LIKE ?1 ORDER BY updated_at DESC"@,
        views(r.params@) == seq![SqlValueView::Text(like_pattern(query@))],
{
    let pattern = concat3("%", query, "%");
    let params = vec![SqlValue::Text(pattern)];
    assert(views(params@) =~= seq![SqlValueView::Text(like_pattern(query@))]);
    Statement {
        sql: lyric_query(" WHERE content LIKE ?1 OR title LIKE ?1 ORDER BY updated_at DESC"),
        params,
    }
}

} // verus!
