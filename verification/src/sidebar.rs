//! What the vertical tab sidebar shows: one row per tab, in store order,
//! labelled by the tab's title (its URL while the title is empty), with
//! the active row marked and incognito rows badged.

use vstd::prelude::*;
use crate::tabs::{active_is_valid, ids_unique, Tab, TabId, TabStore, TabStoreView};

verus! {

#[derive(Debug, Clone)]
pub struct SidebarRow {
    pub id: TabId,
    pub label: String,
    pub is_active: bool,
    pub is_incognito: bool,
}

/// The row a tab gets, given the active tab.
pub open spec fn is_row_for(row: SidebarRow, t: Tab, active: Option<TabId>) -> bool {
    &&& row.id == t.id
    &&& row.label@ == (if t.title@.len() == 0 { t.url@ } else { t.title@ })
    &&& row.is_active == (active == Some(t.id))
    &&& row.is_incognito == (t.profile is Incognito)
}

/// The rows for the current state of the store.
pub fn sidebar_rows(store: &TabStore) -> (rows: Vec<SidebarRow>)
    ensures
        rows@.len() == store@.tabs.len(),
        forall|i: int|
            0 <= i < rows@.len() ==> is_row_for(#[trigger] rows@[i], store@.tabs[i], store@.active),
        forall|i: int|
            0 <= i < rows@.len() ==> {
                &&& store@.tabs[i].title@.len() > 0 ==> (#[trigger] rows@[i]).label@ == store@.tabs[i].title@
                &&& store@.tabs[i].title@.len() == 0 ==> rows@[i].label@ == store@.tabs[i].url@
            },
{
    let tabs = store.tabs();
    let active = store.active_id();
    let n = tabs.len();
    let mut rows: Vec<SidebarRow> = Vec::new();
    let mut i: usize = 0;
    while i < n
        invariant
            n == tabs@.len(),
            tabs@ == store@.tabs,
            active == store@.active,
            i <= n,
            rows@.len() == i,
            forall|k: int| 0 <= k < i ==> is_row_for(#[trigger] rows@[k], tabs@[k], active),
        decreases n - i,
    {
        let tab = &tabs[i];
        let label = if tab.title.as_str().is_empty() {
            tab.url.clone()
        } else {
            tab.title.clone()
        };
        let is_active = match active {
            Some(a) => a == tab.id,
            None => false,
        };
        rows.push(SidebarRow { id: tab.id, label, is_active, is_incognito: tab.profile.is_incognito() });
        i = i + 1;
    }
    rows
}

/// A row is labelled with its tab's title whenever the title is not empty,
/// loading or not, and with the tab's URL only while the title is empty;
/// it marks the tab active exactly when it is, and badges incognito tabs.
pub proof fn lemma_row_label(row: SidebarRow, t: Tab, active: Option<TabId>)
    requires
        is_row_for(row, t, active),
    ensures
        row.id == t.id,
        t.title@.len() > 0 ==> row.label@ == t.title@,
        t.title@.len() == 0 ==> row.label@ == t.url@,
        row.is_active <==> active == Some(t.id),
        row.is_incognito <==> t.profile is Incognito,
{
}

/// With unique ids and a valid active tab, exactly one row is marked
/// active when a tab is active, and none otherwise.
pub proof fn lemma_one_active_row(rows: Seq<SidebarRow>, v: TabStoreView)
    requires
        rows.len() == v.tabs.len(),
        forall|i: int| 0 <= i < rows.len() ==> is_row_for(#[trigger] rows[i], v.tabs[i], v.active),
        ids_unique(v.tabs),
        active_is_valid(v),
    ensures
        v.active is Some ==> exists|k: int| 0 <= k < rows.len() && (#[trigger] rows[k]).is_active,
        forall|i: int, j: int|
            0 <= i < rows.len() && 0 <= j < rows.len() && (#[trigger] rows[i]).is_active
                && (#[trigger] rows[j]).is_active ==> i == j,
        v.active is None ==> forall|i: int| 0 <= i < rows.len() ==> !(#[trigger] rows[i]).is_active,
{
    if let Some(a) = v.active {
        let k = choose|k: int| 0 <= k < v.tabs.len() && #[trigger] v.tabs[k].id == a;
        assert(is_row_for(rows[k], v.tabs[k], v.active));
    }
    assert forall|i: int, j: int|
        0 <= i < rows.len() && 0 <= j < rows.len() && (#[trigger] rows[i]).is_active
            && (#[trigger] rows[j]).is_active implies i == j by {
        assert(is_row_for(rows[i], v.tabs[i], v.active));
        assert(is_row_for(rows[j], v.tabs[j], v.active));
    }
    assert forall|i: int| v.active is None && 0 <= i < rows.len() implies !(#[trigger] rows[i]).is_active by {
        assert(is_row_for(rows[i], v.tabs[i], v.active));
    }
}

} // verus!
