use wavepilot::models::lyrics::{CreateLyricRequest, UpdateLyricRequest};
use wavepilot::services::lyrics::{
    create_lyric_plan, delete_lyric, get_lyric, list_lyrics_for_project, search_lyrics,
    update_lyric, LYRIC_COLUMNS,
};
use wavepilot::sql::SqlValue;

fn text(v: &SqlValue) -> &str {
    match v {
        SqlValue::Text(s) => s.as_str(),
        _ => panic!("not a text value: {:?}", v),
    }
}

#[test]
fn create_plan_binds_every_field() {
    let (st, lyric) = create_lyric_plan(CreateLyricRequest {
        project_id: "p1".to_string(),
        title: Some("Verse 1".to_string()),
        content: "Hello world".to_string(),
        section: Some("verse".to_string()),
        language: None,
    });
    assert_eq!(lyric.project_id, "p1");
    assert_eq!(lyric.title, Some("Verse 1".to_string()));
    assert_eq!(lyric.content, "Hello world");
    assert_eq!(lyric.section, Some("verse".to_string()));
    assert_eq!(lyric.language, None);
    assert_eq!(lyric.created_at, lyric.updated_at);
    assert_eq!(st.params.len(), 8);
    assert_eq!(text(&st.params[0]), lyric.id);
    assert_eq!(text(&st.params[3]), "Hello world");
    assert!(matches!(st.params[5], SqlValue::Null));
}

#[test]
fn minimal_lyric_has_only_content() {
    let (_, lyric) = create_lyric_plan(CreateLyricRequest {
        project_id: "p1".to_string(),
        title: None,
        content: "Just content".to_string(),
        section: None,
        language: None,
    });
    assert_eq!(lyric.content, "Just content");
    assert!(lyric.title.is_none());
}

#[test]
fn lyric_update_writes_only_given_fields() {
    let (st, read) = update_lyric(&UpdateLyricRequest {
        id: "l1".to_string(),
        title: Some("New Title".to_string()),
        content: Some("New content".to_string()),
        section: None,
        language: None,
    });
    let st = st.unwrap();
    assert_eq!(st.sql, "UPDATE lyrics SET title = ?, content = ?, updated_at = ? WHERE id = ?");
    assert_eq!(text(&st.params[0]), "New Title");
    assert_eq!(text(&st.params[1]), "New content");
    assert_eq!(text(&st.params[3]), "l1");
    assert_eq!(read.sql, format!("SELECT {} FROM lyrics WHERE id = ?1", LYRIC_COLUMNS));
    let (none, _) = update_lyric(&UpdateLyricRequest {
        id: "l1".to_string(),
        title: None,
        content: None,
        section: None,
        language: None,
    });
    assert!(none.is_none());
}

#[test]
fn search_matches_content_or_title() {
    let st = search_lyrics("fox");
    assert!(st.sql.ends_with(" WHERE content LIKE ?1 OR title LIKE ?1 ORDER BY updated_at DESC"));
    assert_eq!(text(&st.params[0]), "%fox%");
}

#[test]
fn lyric_reads_and_removal() {
    assert!(list_lyrics_for_project("p1").sql.ends_with("WHERE project_id = ?1 ORDER BY created_at DESC"));
    assert_eq!(text(&get_lyric("l1").params[0]), "l1");
    assert_eq!(delete_lyric("l1").sql, "DELETE FROM lyrics WHERE id = ?1");
}
