//! Release checklists: the default items, marking items, adding and removing
//! them, and the statements that store a checklist. A checklist's items are
//! stored as JSON text; the application encodes and decodes that text.

use vstd::prelude::*;
use crate::db::schema::ReleaseChecklist;
use crate::models::releases::{ChecklistItem, CreateChecklistRequest};
use crate::sql::{statement, text_value, views, SqlValue, SqlValueView, Statement};
use crate::text::{concat3, str_equal};
use crate::utils::{new_id, now_timestamp};

verus! {

/// The columns of a checklist row, in the order the queries select them.
pub const CHECKLIST_COLUMNS: &'static str = "id, project_id, items, created_at, updated_at";

/// The labels of a new checklist, in order.
pub open spec fn default_labels() -> Seq<Seq<char>> {
    seq![
        "Mix finished"@,
        "Master exported"@,
        "Cover art ready"@,
        "Metadata completed"@,
        "Uploaded to distributor"@,
        "Scheduled"@,
        "Released"@,
    ]
}

/// The items of a new checklist: the seven release steps, none done, each
/// under a fresh id.
pub fn default_checklist_items() -> (r: Vec<ChecklistItem>)
    ensures
        r@.len() == default_labels().len(),
        forall|i: int| 0 <= i < r@.len() ==> (#[trigger] r@[i]).label@ == default_labels()[i] && !r@[i].done && r@[i].id@.len() == 36,
{
    let labels = vec![
        "Mix finished",
        "Master exported",
        "Cover art ready",
        "Metadata completed",
        "Uploaded to distributor",
        "Scheduled",
        "Released",
    ];
    let mut r: Vec<ChecklistItem> = Vec::new();
    let mut i: usize = 0;
    while i < labels.len()
        invariant
            labels@.len() == 7,
            forall|k: int| 0 <= k < 7 ==> #[trigger] labels@[k]@ == default_labels()[k],
            i <= 7,
            r@.len() == i,
            forall|k: int| 0 <= k < i ==> (#[trigger] r@[k]).label@ == default_labels()[k] && !r@[k].done && r@[k].id@.len() == 36,
        decreases labels.len() - i,
    {
        r.push(ChecklistItem { id: new_id(), label: String::from_str(labels[i]), done: false });
        i = i + 1;
    }
    r
}

/// The new checklist of a project with the encoded items `items_json`, under
/// a fresh id and the current time, and its insertion.
pub fn create_checklist_plan(req: CreateChecklistRequest, items_json: String) -> (r: (Statement, ReleaseChecklist))
    ensures
        r.1.id@.len() == 36,
        r.1.project_id == req.project_id,
        r.1.items == items_json,
        r.1.updated_at@ == r.1.created_at@,
        r.0.sql@ == "INSERT INTO release_checklists (id, project_id, items, created_at, updated_at) VALUES (?1, ?2, ?3, ?4, ?5)"@,
        views(r.0.params@) == seq![
            SqlValueView::Text(r.1.id@),
            SqlValueView::Text(r.1.project_id@),
            SqlValueView::Text(r.1.items@),
            SqlValueView::Text(r.1.created_at@),
            SqlValueView::Text(r.1.updated_at@),
        ],
{
    let id = new_id();
    let now = now_timestamp();
    let params = vec![
        text_value(id.as_str()),
        text_value(req.project_id.as_str()),
        text_value(items_json.as_str()),
        text_value(now.as_str()),
        text_value(now.as_str()),
    ];
    let st = statement(
        "INSERT INTO release_checklists (id, project_id, items, created_at, updated_at) VALUES (?1, ?2, ?3, ?4, ?5)",
        params,
    );
    let checklist = ReleaseChecklist {
        id,
        project_id: req.project_id,
        items: items_json,
        created_at: now.clone(),
        updated_at: now,
    };
    assert(views(st.params@) =~= seq![
        SqlValueView::Text(checklist.id@),
        SqlValueView::Text(checklist.project_id@),
        SqlValueView::Text(checklist.items@),
        SqlValueView::Text(checklist.created_at@),
        SqlValueView::Text(checklist.updated_at@),
    ]);
    (st, checklist)
}

/// The checklist query that ends with `tail`.
fn checklist_query(tail: &str) -> (r: String)
    ensures
        r@ == "SELECT "@ + CHECKLIST_COLUMNS@ + " FROM release_checklists"@ + tail@,
{
    let mut sql = concat3("SELECT ", CHECKLIST_COLUMNS, " FROM release_checklists");
    sql.append(tail);
    sql
}

/// The read of checklist `id`.
pub fn get_checklist(id: &str) -> (r: Statement)
    ensures
        r.sql@ == "SELECT "@ + CHECKLIST_COLUMNS@ + " FROM release_checklists"@ + " WHERE id = ?1"@,
        views(r.params@) == seq![SqlValueView::Text(id@)],
{
    let params = vec![text_value(id)];
    assert(views(params@) =~= seq![SqlValueView::Text(id@)]);
    Statement { sql: checklist_query(" WHERE id = ?1"), params }
}

/// The read of the checklist of a project (at most one row).
pub fn get_checklist_for_project(project_id: &str) -> (r: Statement)
    ensures
        r.sql@ == "SELECT "@ + CHECKLIST_COLUMNS@ + " FROM release_checklists"@ + " WHERE project_id = ?1 LIMIT 1"@,
        views(r.params@) == seq![SqlValueView::Text(project_id@)],
{
    let params = vec![text_value(project_id)];
    assert(views(params@) =~= seq![SqlValueView::Text(project_id@)]);
    Statement { sql: checklist_query(" WHERE project_id = ?1 LIMIT 1"), params }
}

/// All checklists, most recently changed first.
pub fn list_checklists() -> (r: Statement)
    ensures
        r.sql@ == "SELECT "@ + CHECKLIST_COLUMNS@ + " FROM release_checklists"@ + " ORDER BY updated_at DESC"@,
        r.params@.len() == 0,
{
    Statement { sql: checklist_query(" ORDER BY updated_at DESC"), params: Vec::new() }
}

/// The write of the encoded items `items_json` to checklist `id`, stamped
/// with the current time.
pub fn save_items(id: &str, items_json: &str) -> (r: Statement)
    ensures
        r.sql@ == "UPDATE release_checklists SET items = ?1, updated_at = ?2 WHERE id = ?3"@,
        views(r.params@).len() == 3,
        views(r.params@)[0] == SqlValueView::Text(items_json@),
        views(r.params@)[1] is Text,
        views(r.params@)[2] == SqlValueView::Text(id@),
{
    let params = vec![text_value(items_json), SqlValue::Text(now_timestamp()), text_value(id)];
    statement("UPDATE release_checklists SET items = ?1, updated_at = ?2 WHERE id = ?3", params)
}

/// The removal of checklist `id`.
pub fn delete_checklist(id: &str) -> (r: Statement)
    ensures
        r.sql@ == "DELETE FROM release_checklists WHERE id = ?1"@,
        views(r.params@) == seq![SqlValueView::Text(id@)],
{
    let params = vec![text_value(id)];
    assert(views(params@) =~= seq![SqlValueView::Text(id@)]);
    statement("DELETE FROM release_checklists WHERE id = ?1", params)
}

// ---------------------------------------------------------------- items

/// Position `i` holds the first item of `items` with id `id`.
pub open spec fn first_item_with_id(items: Seq<ChecklistItem>, id: Seq<char>, i: int) -> bool {
    0 <= i < items.len() && items[i].id@ == id && forall|j: int| 0 <= j < i ==> (#[trigger] items[j]).id@ != id
}

/// Some item of `items` has id `id`.
pub open spec fn has_item(items: Seq<ChecklistItem>, id: Seq<char>) -> bool {
    exists|j: int| 0 <= j < items.len() && (#[trigger] items[j]).id@ == id
}

/// Marks the first item with id `item_id` done or not done; every other item
/// stays as it was. An id that no item has is an error.
pub fn set_item_done(items: Vec<ChecklistItem>, item_id: &str, done: bool) -> (r: Result<Vec<ChecklistItem>, String>)
    ensures
        r is Err <==> !has_item(items@, item_id@),
        r matches Err(e) ==> e@ == "Item "@ + item_id@ + " not found in checklist"@,
        r matches Ok(v) ==> exists|i: int| #[trigger] first_item_with_id(items@, item_id@, i) && v@ == items@.update(
            i,
            ChecklistItem { id: items@[i].id, label: items@[i].label, done },
        ),
{
    let mut i: usize = 0;
    while i < items.len()
        invariant
            i <= items@.len(),
            forall|j: int| 0 <= j < i ==> (#[trigger] items@[j]).id@ != item_id@,
        decreases items.len() - i,
    {
        if str_equal(items[i].id.as_str(), item_id) {
            assert(first_item_with_id(items@, item_id@, i as int));
            let ghost before = items@;
            let mut v = items;
            let old_item = v.remove(i);
            let ChecklistItem { id, label, done: _ } = old_item;
            v.insert(i, ChecklistItem { id, label, done });
            assert(v@ =~= before.update(
                i as int,
                ChecklistItem { id: before[i as int].id, label: before[i as int].label, done },
            ));
            return Ok(v);
        }
        i = i + 1;
    }
    Err(concat3("Item ", item_id, " not found in checklist"))
}

/// `items` with a new item labelled `label`, not done, under a fresh id, at the end.
pub fn append_item(items: Vec<ChecklistItem>, label: String) -> (r: Vec<ChecklistItem>)
    ensures
        r@.len() == items@.len() + 1,
        r@.drop_last() == items@,
        r@.last().label == label,
        !r@.last().done,
        r@.last().id@.len() == 36,
{
    let mut v = items;
    let ghost before = v@;
    v.push(ChecklistItem { id: new_id(), label, done: false });
    assert(v@.drop_last() =~= before);
    v
}

/// The items of `items` whose id is not `id`, in order.
pub open spec fn without_item(items: Seq<ChecklistItem>, id: Seq<char>) -> Seq<ChecklistItem>
    decreases items.len(),
{
    if items.len() == 0 {
        Seq::empty()
    } else {
        let rest = without_item(items.drop_last(), id);
        if items.last().id@ == id {
            rest
        } else {
            rest.push(items.last())
        }
    }
}

/// Drops every item with id `item_id`; the others keep their order.
pub fn remove_item(items: Vec<ChecklistItem>, item_id: &str) -> (r: Vec<ChecklistItem>)
    ensures
        r@ == without_item(items@, item_id@),
{
    let ghost all = items@;
    let n = items.len();
    assert(all.len() == n);
    let mut rest = items;
    let mut kept: Vec<ChecklistItem> = Vec::new();
    let mut taken: usize = 0;
    assert(all.subrange(0, 0) =~= Seq::<ChecklistItem>::empty());
    assert(rest@ =~= all.subrange(0, all.len() as int));
    while rest.len() > 0
        invariant
            taken <= all.len(),
            rest@ == all.subrange(taken as int, all.len() as int),
            rest@.len() == all.len() - taken,
            all.len() <= usize::MAX,
            kept@ == without_item(all.subrange(0, taken as int), item_id@),
        decreases rest.len(),
    {
        let item = rest.remove(0);
        proof {
            assert(item == all[taken as int]);
            assert(all.subrange(0, taken + 1).drop_last() =~= all.subrange(0, taken as int));
        }
        if !str_equal(item.id.as_str(), item_id) {
            kept.push(item);
        }
        taken = taken + 1;
        assert(rest@ =~= all.subrange(taken as int, all.len() as int));
    }
    assert(all.subrange(0, all.len() as int) =~= all);
    kept
}

// ---------------------------------------------------------------- laws

/// Removing an id that no item has changes nothing.
proof fn lemma_without_absent(items: Seq<ChecklistItem>, id: Seq<char>)
    requires
        !has_item(items, id),
    ensures
        without_item(items, id) == items,
    decreases items.len(),
{
    if items.len() > 0 {
        let rest = items.drop_last();
        assert(!has_item(rest, id)) by {
            if has_item(rest, id) {
                let j = choose|j: int| 0 <= j < rest.len() && (#[trigger] rest[j]).id@ == id;
                assert(items[j] == rest[j]);
            }
        }
        lemma_without_absent(rest, id);
        assert(items.last() == items[items.len() - 1]);
        assert(rest.push(items.last()) =~= items);
    }
}

/// Removing an item that was just appended under an id no other item has
/// gives back the checklist as it was before.
pub proof fn lemma_remove_undoes_append(items: Seq<ChecklistItem>, item: ChecklistItem)
    requires
        !has_item(items, item.id@),
    ensures
        without_item(items.push(item), item.id@) == items,
{
    let all = items.push(item);
    assert(all.drop_last() =~= items);
    lemma_without_absent(items, item.id@);
}

/// Removing an id leaves no item with that id.
pub proof fn lemma_removed_id_gone(items: Seq<ChecklistItem>, id: Seq<char>)
    ensures
        !has_item(without_item(items, id), id),
    decreases items.len(),
{
    if items.len() > 0 {
        lemma_removed_id_gone(items.drop_last(), id);
        let rest = without_item(items.drop_last(), id);
        if items.last().id@ != id {
            assert(!has_item(rest.push(items.last()), id)) by {
                if has_item(rest.push(items.last()), id) {
                    let j = choose|j: int|
                        0 <= j < rest.push(items.last()).len() && (#[trigger] rest.push(
                            items.last(),
                        )[j]).id@ == id;
                    if j < rest.len() {
                        assert(rest.push(items.last())[j] == rest[j]);
                    }
                }
            }
        }
    }
}

/// The item at position `i` marked done or not done.
pub open spec fn marked(items: Seq<ChecklistItem>, i: int, done: bool) -> Seq<ChecklistItem> {
    items.update(i, ChecklistItem { id: items[i].id, label: items[i].label, done })
}

/// Marking an item and then marking it back gives the checklist it started
/// from; the item found the second time is the one marked the first time.
pub proof fn lemma_mark_back_restores(items: Seq<ChecklistItem>, id: Seq<char>, i: int, done: bool)
    requires
        first_item_with_id(items, id, i),
    ensures
        first_item_with_id(marked(items, i, done), id, i),
        marked(marked(items, i, done), i, items[i].done) == items,
{
    let once = marked(items, i, done);
    assert forall|j: int| 0 <= j < i implies (#[trigger] once[j]).id@ != id by {
        assert(once[j] == items[j]);
    }
    assert(marked(once, i, items[i].done) =~= items);
}

} // verus!
