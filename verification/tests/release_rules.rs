use wavepilot::models::releases::{ChecklistItem, CreateChecklistRequest};
use wavepilot::services::releases::{
    append_item, create_checklist_plan, default_checklist_items, delete_checklist, get_checklist,
    get_checklist_for_project, list_checklists, remove_item, save_items, set_item_done,
};
use wavepilot::sql::SqlValue;

fn item(id: &str, label: &str, done: bool) -> ChecklistItem {
    ChecklistItem { id: id.to_string(), label: label.to_string(), done }
}

fn labels(items: &[ChecklistItem]) -> Vec<&str> {
    items.iter().map(|i| i.label.as_str()).collect()
}

#[test]
fn new_checklists_hold_the_release_steps() {
    let items = default_checklist_items();
    assert_eq!(items.len(), 7);
    assert_eq!(
        labels(&items),
        vec![
            "Mix finished",
            "Master exported",
            "Cover art ready",
            "Metadata completed",
            "Uploaded to distributor",
            "Scheduled",
            "Released",
        ]
    );
    assert!(items.iter().all(|i| !i.done));
    assert_ne!(items[0].id, items[1].id);
}

#[test]
fn create_plan_binds_project_and_items() {
    let (st, checklist) = create_checklist_plan(
        CreateChecklistRequest { project_id: "p1".to_string() },
        "[]".to_string(),
    );
    assert_eq!(checklist.project_id, "p1");
    assert_eq!(checklist.items, "[]");
    assert_eq!(checklist.created_at, checklist.updated_at);
    assert!(st.sql.starts_with("INSERT INTO release_checklists"));
    assert_eq!(st.params.len(), 5);
    assert!(matches!(&st.params[1], SqlValue::Text(p) if p == "p1"));
}

#[test]
fn marking_an_item_done() {
    let items = vec![item("a", "Mix", false), item("b", "Master", false)];
    let marked = set_item_done(items.clone(), "a", true).unwrap();
    assert!(marked[0].done);
    assert!(!marked[1].done);
    assert_eq!(labels(&marked), vec!["Mix", "Master"]);
    let back = set_item_done(marked, "a", false).unwrap();
    assert!(!back[0].done);
}

#[test]
fn marking_an_unknown_item_fails() {
    let items = vec![item("a", "Mix", false)];
    assert_eq!(
        set_item_done(items, "zz", true).unwrap_err(),
        "Item zz not found in checklist"
    );
}

#[test]
fn appending_and_removing_items() {
    let items = default_checklist_items();
    let first = items[0].id.clone();
    let added = append_item(items.clone(), "Custom item".to_string());
    assert_eq!(added.len(), 8);
    assert_eq!(added.last().unwrap().label, "Custom item");
    assert!(!added.last().unwrap().done);
    let new_id = added.last().unwrap().id.clone();
    let undone = remove_item(added, &new_id);
    assert_eq!(labels(&undone), labels(&items));
    let removed = remove_item(items, &first);
    assert_eq!(removed.len(), 6);
    assert_eq!(removed[0].label, "Master exported");
}

#[test]
fn removing_drops_every_item_with_the_id() {
    let items = vec![item("a", "1", false), item("b", "2", true), item("a", "3", false)];
    let removed = remove_item(items, "a");
    assert_eq!(labels(&removed), vec!["2"]);
}

#[test]
fn checklist_statements() {
    let st = get_checklist("c1");
    assert!(st.sql.contains("FROM release_checklists WHERE id = ?1"));
    assert!(matches!(&st.params[0], SqlValue::Text(c) if c == "c1"));
    let st = get_checklist_for_project("p1");
    assert!(st.sql.contains("WHERE project_id = ?1"));
    assert!(list_checklists().params.is_empty());
    let st = save_items("c1", "[]");
    assert!(st.sql.starts_with("UPDATE release_checklists SET items = ?1"));
    let st = delete_checklist("c1");
    assert_eq!(st.sql, "DELETE FROM release_checklists WHERE id = ?1");
}
