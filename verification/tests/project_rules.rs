use wavepilot::models::project::{
    ImportProjectRequest, ListProjectsQuery, SortField, SortOrder, UpdateProjectRequest,
};
use wavepilot::services::project::{
    apply_sort, apply_updates, delete_project, favorite_flag, get_project_by_id, get_project_tags,
    import_project_plan, insert_project_tags, list_projects_statement, path_taken,
    project_exists_by_path, sort_clause, toggle_favorite, update_project_plan, PROJECT_COLUMNS,
};
use wavepilot::sql::SqlValue;
use wavepilot::utils::{resolve_canonical_path, PathProbe};

fn text(v: &SqlValue) -> &str {
    match v {
        SqlValue::Text(s) => s.as_str(),
        _ => panic!("not a text value: {:?}", v),
    }
}

fn import_request(name: &str, path: &str) -> ImportProjectRequest {
    ImportProjectRequest {
        name: name.to_string(),
        path: path.to_string(),
        artist: Some("Artist".to_string()),
        daw_type: Some("ableton".to_string()),
        tags: Some(vec!["electronic".to_string(), "ambient".to_string()]),
        keywords: None,
        notes: Some(String::new()),
    }
}

fn empty_update(id: &str) -> UpdateProjectRequest {
    UpdateProjectRequest {
        id: id.to_string(),
        name: None,
        artist: None,
        bpm_bits: None,
        musical_key: None,
        root_note: None,
        tags: None,
        keywords: None,
        notes: None,
        description: None,
        favorite: None,
        daw_type: None,
    }
}

#[test]
fn sort_clauses() {
    assert_eq!(sort_clause(&SortField::Name, &SortOrder::Asc), "name ASC");
    assert_eq!(sort_clause(&SortField::DateAdded, &SortOrder::Desc), "created_at DESC");
    assert_eq!(sort_clause(&SortField::Artist, &SortOrder::Desc), "artist DESC");
    assert_eq!(sort_clause(&SortField::Bpm, &SortOrder::Asc), "bpm IS NULL, bpm ASC");
    assert_eq!(
        sort_clause(&SortField::LastOpened, &SortOrder::Desc),
        "last_opened IS NULL, last_opened DESC"
    );
}

#[test]
fn default_order_is_newest_first() {
    let q = ListProjectsQuery::default();
    assert_eq!(apply_sort("S".to_string(), &q), "S ORDER BY created_at DESC");
    let st = list_projects_statement(&q);
    assert_eq!(
        st.sql,
        format!("SELECT {} FROM projects WHERE 1=1 ORDER BY created_at DESC", PROJECT_COLUMNS)
    );
    assert!(st.params.is_empty());
}

#[test]
fn search_by_name_artist_or_keywords() {
    let mut q = ListProjectsQuery::default();
    q.search = Some("Track".to_string());
    q.sort_by = Some(SortField::Name);
    q.sort_order = Some(SortOrder::Asc);
    let st = list_projects_statement(&q);
    assert!(st.sql.ends_with(
        " WHERE 1=1 AND (name LIKE ?1 OR artist LIKE ?1 OR keywords LIKE ?1) ORDER BY name ASC"
    ));
    assert_eq!(st.params.len(), 1);
    assert_eq!(text(&st.params[0]), "%Track%");
}

#[test]
fn every_filter_takes_the_next_placeholder() {
    let q = ListProjectsQuery {
        search: Some("s".to_string()),
        artist: Some("Artist1".to_string()),
        bpm_min_bits: Some(100f64.to_bits()),
        bpm_max_bits: Some(140f64.to_bits()),
        musical_key: Some("C".to_string()),
        root_note: Some("A".to_string()),
        tags: Some(vec!["lofi".to_string(), "chill".to_string()]),
        keywords: Some("study".to_string()),
        favorite_only: Some(true),
        sort_by: Some(SortField::Bpm),
        sort_order: Some(SortOrder::Desc),
        view: None,
    };
    let st = list_projects_statement(&q);
    let expected_tail = " WHERE 1=1 AND (name LIKE ?1 OR artist LIKE ?1 OR keywords LIKE ?1) AND artist LIKE ?2 AND (bpm >= ?3 OR bpm IS NULL) AND (bpm <= ?4 OR bpm IS NULL) AND musical_key = ?5 AND root_note = ?6 AND (id IN (SELECT project_id FROM project_tags WHERE tag LIKE ?7) AND id IN (SELECT project_id FROM project_tags WHERE tag LIKE ?8)) AND keywords LIKE ?9 AND favorite = 1 ORDER BY bpm IS NULL, bpm DESC";
    assert!(st.sql.ends_with(expected_tail), "{}", st.sql);
    assert_eq!(st.params.len(), 9);
    assert_eq!(text(&st.params[1]), "%Artist1%");
    assert!(matches!(st.params[2], SqlValue::Real(b) if f64::from_bits(b) == 100.0));
    assert!(matches!(st.params[3], SqlValue::Real(b) if f64::from_bits(b) == 140.0));
    assert_eq!(text(&st.params[4]), "C");
    assert_eq!(text(&st.params[6]), "lofi");
    assert_eq!(text(&st.params[7]), "chill");
    assert_eq!(text(&st.params[8]), "%study%");
}

#[test]
fn favorite_filter_only_when_asked() {
    let mut q = ListProjectsQuery::default();
    q.favorite_only = Some(false);
    assert!(!list_projects_statement(&q).sql.contains("favorite = 1"));
    q.favorite_only = Some(true);
    assert!(list_projects_statement(&q).sql.contains("AND favorite = 1"));
    q.tags = Some(vec![]);
    assert!(!list_projects_statement(&q).sql.contains("project_tags"));
}

#[test]
fn update_with_no_fields_writes_nothing() {
    assert!(apply_updates("p1", "now", &empty_update("p1")).is_none());
    let plan = update_project_plan(&empty_update("p1"));
    assert!(plan.update.is_none());
    assert!(plan.tag_statements.is_empty());
    assert!(plan.reload.sql.ends_with("FROM projects WHERE id = ?1"));
}

#[test]
fn update_writes_only_given_fields() {
    let mut req = empty_update("p1");
    req.artist = Some("Artist B".to_string());
    req.bpm_bits = Some(128f64.to_bits());
    req.favorite = Some(true);
    let st = apply_updates("p1", "2024-01-01T00:00:00+00:00", &req).unwrap();
    assert_eq!(
        st.sql,
        "UPDATE projects SET artist = ?, bpm = ?, favorite = ?, updated_at = ? WHERE id = ?"
    );
    assert_eq!(text(&st.params[0]), "Artist B");
    assert!(matches!(st.params[1], SqlValue::Real(b) if f64::from_bits(b) == 128.0));
    assert!(matches!(st.params[2], SqlValue::Int(1)));
    assert_eq!(text(&st.params[3]), "2024-01-01T00:00:00+00:00");
    assert_eq!(text(&st.params[4]), "p1");
}

#[test]
fn update_replaces_tags() {
    let mut req = empty_update("p1");
    req.tags = Some(vec!["a".to_string(), "b".to_string()]);
    let plan = update_project_plan(&req);
    assert!(plan.update.is_none());
    assert_eq!(plan.tag_statements.len(), 3);
    assert_eq!(plan.tag_statements[0].sql, "DELETE FROM project_tags WHERE project_id = ?1");
    assert_eq!(text(&plan.tag_statements[2].params[2]), "b");
}

#[test]
fn tag_inserts_ignore_duplicates() {
    let tags = vec!["electronic".to_string(), "ambient".to_string()];
    let sts = insert_project_tags("p1", &tags);
    assert_eq!(sts.len(), 2);
    assert!(sts[0].sql.starts_with("INSERT OR IGNORE INTO project_tags"));
    assert_eq!(text(&sts[0].params[1]), "p1");
    assert_eq!(text(&sts[1].params[2]), "ambient");
    assert_ne!(text(&sts[0].params[0]), text(&sts[1].params[0]));
}

#[test]
fn import_refuses_a_path_already_imported() {
    let err = import_project_plan(import_request("Duplicate", "/tmp/a"), "/tmp/a".to_string(), true)
        .err()
        .unwrap();
    assert!(err.contains("already imported"));
    assert_eq!(err, "Project already imported: Duplicate");
}

#[test]
fn import_plan_for_a_new_path() {
    let plan = import_project_plan(import_request("Test Track", "/tmp/x/../x"), "/tmp/x".to_string(), false)
        .unwrap();
    let p = &plan.project;
    assert_eq!(p.name, "Test Track");
    assert_eq!(p.path, "/tmp/x");
    assert_eq!(p.artist, Some("Artist".to_string()));
    assert_eq!(p.daw_type, Some("ableton".to_string()));
    assert!(!p.favorite);
    assert!(p.bpm_bits.is_none());
    assert_eq!(p.description, "");
    assert_eq!(p.tags, Some("[\"electronic\",\"ambient\"]".to_string()));
    assert_eq!(p.last_opened, Some(p.created_at.clone()));
    assert_eq!(plan.tag_inserts.len(), 2);
    assert_eq!(plan.insert.params.len(), 9);
    assert_eq!(text(&plan.insert.params[2]), "/tmp/x");
    assert!(matches!(plan.insert.params[5], SqlValue::Null));
}

#[test]
fn import_paths_are_resolved_first() {
    let missing = resolve_canonical_path("/tmp/wp-test-nonexistent-99999", PathProbe::Missing);
    assert!(missing.unwrap_err().contains("does not exist"));
    let resolved = resolve_canonical_path("/tmp/../tmp", PathProbe::Resolved("/tmp".to_string()));
    assert_eq!(resolved.unwrap(), "/tmp");
    let broken = resolve_canonical_path("/x", PathProbe::Unresolvable("loop".to_string()));
    assert_eq!(broken.unwrap_err(), "Failed to resolve path: loop");
}

#[test]
fn duplicate_paths_and_flags() {
    let st = project_exists_by_path("/tmp/a");
    assert_eq!(st.sql, "SELECT COUNT(*) FROM projects WHERE path = ?1");
    assert!(path_taken(1));
    assert!(!path_taken(0));
    assert!(favorite_flag(1));
    assert!(favorite_flag(-1));
    assert!(!favorite_flag(0));
}

#[test]
fn favorite_toggle_statements() {
    let (flip, read) = toggle_favorite("p1");
    assert!(flip.sql.contains("favorite = CASE WHEN favorite = 0 THEN 1 ELSE 0 END"));
    assert_eq!(text(&flip.params[1]), "p1");
    assert_eq!(read.sql, "SELECT favorite FROM projects WHERE id = ?1");
}

#[test]
fn project_reads_and_removal() {
    assert_eq!(text(&get_project_by_id("p9").params[0]), "p9");
    assert_eq!(delete_project("p9").sql, "DELETE FROM projects WHERE id = ?1");
    assert!(get_project_tags("p9").sql.ends_with("ORDER BY tag"));
}

#[test]
fn import_writes_tags_as_escaped_json() {
    let mut req = import_request("Esc", "/tmp/esc");
    req.tags = Some(vec![
        "say \"hi\"".to_string(),
        "back\\slash".to_string(),
        "line\nfeed\ttab\r\u{8}\u{c}".to_string(),
        "bell\u{7}\u{1f}".to_string(),
        "ünï \u{7f}".to_string(),
    ]);
    let expected = serde_json::to_string(req.tags.as_ref().unwrap()).unwrap();
    let plan = import_project_plan(req, "/tmp/esc".to_string(), false).unwrap();
    let text = plan.project.tags.unwrap();
    assert_eq!(text, expected);
    assert_eq!(
        text,
        "[\"say \\\"hi\\\"\",\"back\\\\slash\",\"line\\nfeed\\ttab\\r\\b\\f\",\"bell\\u0007\\u001f\",\"ünï \u{7f}\"]"
    );
    let mut empty = import_request("Empty", "/tmp/empty");
    empty.tags = Some(vec![]);
    let plan = import_project_plan(empty, "/tmp/empty".to_string(), false).unwrap();
    assert_eq!(plan.project.tags, Some("[]".to_string()));
}
