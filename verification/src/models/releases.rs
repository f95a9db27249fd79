//! Release checklist requests and items.

use vstd::prelude::*;

verus! {

/// One line of a release checklist.
#[derive(Debug, Clone)]
pub struct ChecklistItem {
    pub id: String,
    pub label: String,
    pub done: bool,
}

/// A checklist with its items decoded.
#[derive(Debug, Clone)]
pub struct ReleaseChecklistResponse {
    pub id: String,
    pub project_id: String,
    pub items: Vec<ChecklistItem>,
    pub created_at: String,
    pub updated_at: String,
}

/// A request to start the checklist of a project.
#[derive(Debug, Clone)]
pub struct CreateChecklistRequest {
    pub project_id: String,
}

/// A request to mark one item done or not done.
#[derive(Debug, Clone)]
pub struct UpdateChecklistItemRequest {
    pub checklist_id: String,
    pub item_id: String,
    pub done: bool,
}

/// A request to append a custom item.
#[derive(Debug, Clone)]
pub struct AddChecklistItemRequest {
    pub checklist_id: String,
    pub label: String,
}

/// A request to drop an item.
#[derive(Debug, Clone)]
pub struct RemoveChecklistItemRequest {
    pub checklist_id: String,
    pub item_id: String,
}

} // verus!
