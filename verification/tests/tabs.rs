use kaze::tabs::{ProfileId, Tab, TabEvent, TabId, TabStore};
use std::cell::RefCell;
use std::rc::Rc;

#[test]
fn open_appends_and_activates_manually() {
    let mut store = TabStore::new();
    let id1 = store.open("https://a.example", ProfileId::Normal, false);
    let id2 = store.open("https://b.example", ProfileId::Normal, false);

    assert_eq!(store.len(), 2);
    assert_eq!(store.tabs()[0].id, id1);
    assert_eq!(store.tabs()[1].id, id2);
    assert_eq!(store.active_id(), None);

    store.activate(id2);
    assert_eq!(store.active_id(), Some(id2));
}

#[test]
fn open_next_to_active_inserts_after_active_not_at_end() {
    let mut store = TabStore::new();
    let id1 = store.open("https://a.example", ProfileId::Normal, false);
    let _id2 = store.open("https://b.example", ProfileId::Normal, false);
    store.activate(id1);

    let id3 = store.open("https://c.example", ProfileId::Normal, true);
    assert_eq!(store.tabs()[1].id, id3);
}

#[test]
fn closing_active_tab_activates_right_neighbor() {
    let mut store = TabStore::new();
    let id1 = store.open("https://a.example", ProfileId::Normal, false);
    let id2 = store.open("https://b.example", ProfileId::Normal, false);
    let id3 = store.open("https://c.example", ProfileId::Normal, false);
    store.activate(id2);

    store.close(id2);
    assert_eq!(store.active_id(), Some(id3));
    assert_eq!(store.len(), 2);
    let _ = id1;
}

#[test]
fn closing_last_tab_falls_back_to_left_neighbor() {
    let mut store = TabStore::new();
    let id1 = store.open("https://a.example", ProfileId::Normal, false);
    let id2 = store.open("https://b.example", ProfileId::Normal, false);
    store.activate(id2);

    store.close(id2);
    assert_eq!(store.active_id(), Some(id1));
}

#[test]
fn update_emits_updated_event() {
    let mut store = TabStore::new();
    let id = store.open("https://a.example", ProfileId::Normal, false);
    store.take_events();

    store.update(id, |mut tab| {
        tab.title = "New Title".to_string();
        tab
    });
    assert_eq!(store.get(id).unwrap().title, "New Title");

    let events = store.take_events();
    assert!(events
        .iter()
        .any(|e| matches!(e, TabEvent::Updated { id: eid } if *eid == id)));
}

#[test]
fn reorder_moves_tab_between_positions() {
    let mut store = TabStore::new();
    let id1 = store.open("https://a.example", ProfileId::Normal, false);
    let id2 = store.open("https://b.example", ProfileId::Normal, false);
    let id3 = store.open("https://c.example", ProfileId::Normal, false);

    store.reorder(0, 2);
    assert_eq!(store.tabs()[0].id, id2);
    assert_eq!(store.tabs()[1].id, id3);
    assert_eq!(store.tabs()[2].id, id1);
}

#[test]
fn incognito_tabs_are_isolated_by_profile() {
    let mut store = TabStore::new();
    let profile_a = ProfileId::Incognito(uuid::Uuid::new_v4().as_u128());
    let profile_b = ProfileId::Incognito(uuid::Uuid::new_v4().as_u128());

    store.open("https://a.example", profile_a, false);
    store.open("https://b.example", profile_b, false);
    store.open("https://c.example", ProfileId::Normal, false);

    assert_eq!(store.tabs_in_profile(profile_a).len(), 1);
    assert_eq!(store.tabs_in_profile(ProfileId::Normal).len(), 1);
}

#[test]
fn events_can_be_drained_after_releasing_the_mutable_borrow() {
    let store = Rc::new(RefCell::new(TabStore::new()));

    let id = store.borrow_mut().open("https://a.example", ProfileId::Normal, false);
    let events = store.borrow_mut().take_events();

    let snapshot = store.borrow();
    assert_eq!(snapshot.tabs().len(), 1);
    assert_eq!(snapshot.tabs()[0].id, id);
    assert!(events
        .iter()
        .any(|e| matches!(e, TabEvent::Created { id: eid, .. } if *eid == id)));
}

#[test]
fn new_tab_is_fresh_and_titled_by_its_url() {
    let tab = Tab::new("https://a.example", ProfileId::Normal);
    assert_eq!(tab.url, "https://a.example");
    assert_eq!(tab.title, "https://a.example");
    assert!(tab.is_loading);
    assert!(!tab.is_pinned && !tab.is_muted && !tab.is_suspended);
    assert!(tab.favicon.is_none());
    assert!(tab.parent.is_none());
    let child = Tab::child_of("https://b.example", ProfileId::Normal, tab.id);
    assert_eq!(child.parent, Some(tab.id));
    assert_ne!(child.id, tab.id);
}

#[test]
fn random_ids_are_distinct() {
    let a = TabId::new();
    let b = TabId::new();
    assert_ne!(a, b);
}

#[test]
fn open_child_goes_right_after_parent() {
    let mut store = TabStore::new();
    let id1 = store.open("https://a.example", ProfileId::Normal, false);
    let id2 = store.open("https://b.example", ProfileId::Normal, false);
    let child = store.open_child("https://c.example", ProfileId::Normal, id1);
    let ids: Vec<TabId> = store.tabs().iter().map(|t| t.id).collect();
    assert_eq!(ids, vec![id1, child, id2]);
    assert_eq!(store.get(child).unwrap().parent, Some(id1));
    let events = store.take_events();
    assert_eq!(events.last(), Some(&TabEvent::Created { id: child, index: 1 }));
}

#[test]
fn open_child_of_unknown_parent_goes_to_the_end() {
    let mut store = TabStore::new();
    let id1 = store.open("https://a.example", ProfileId::Normal, false);
    let child = store.open_child("https://c.example", ProfileId::Normal, TabId(7));
    assert_eq!(store.tabs()[0].id, id1);
    assert_eq!(store.tabs()[1].id, child);
}

#[test]
fn open_next_to_active_without_active_appends() {
    let mut store = TabStore::new();
    let id1 = store.open("https://a.example", ProfileId::Normal, true);
    let id2 = store.open("https://b.example", ProfileId::Normal, true);
    assert_eq!(store.tabs()[0].id, id1);
    assert_eq!(store.tabs()[1].id, id2);
}

#[test]
fn closing_only_active_tab_leaves_nothing_active() {
    let mut store = TabStore::new();
    let id = store.open("https://a.example", ProfileId::Normal, false);
    store.activate(id);
    store.take_events();
    store.close(id);
    assert!(store.is_empty());
    assert_eq!(store.active_id(), None);
    assert_eq!(store.take_events(), vec![TabEvent::Closed { id }]);
}

#[test]
fn closing_unknown_id_changes_nothing() {
    let mut store = TabStore::new();
    let id = store.open("https://a.example", ProfileId::Normal, false);
    store.take_events();
    store.close(TabId(42));
    assert_eq!(store.len(), 1);
    assert_eq!(store.tabs()[0].id, id);
    assert!(store.take_events().is_empty());
}

#[test]
fn closing_inactive_tab_keeps_active() {
    let mut store = TabStore::new();
    let id1 = store.open("https://a.example", ProfileId::Normal, false);
    let id2 = store.open("https://b.example", ProfileId::Normal, false);
    store.activate(id2);
    store.take_events();
    store.close(id1);
    assert_eq!(store.active_id(), Some(id2));
    assert_eq!(store.take_events(), vec![TabEvent::Closed { id: id1 }]);
}

#[test]
fn close_of_active_queues_closed_then_activated() {
    let mut store = TabStore::new();
    let id1 = store.open("https://a.example", ProfileId::Normal, false);
    let id2 = store.open("https://b.example", ProfileId::Normal, false);
    store.activate(id1);
    store.take_events();
    store.close(id1);
    assert_eq!(
        store.take_events(),
        vec![TabEvent::Closed { id: id1 }, TabEvent::Activated { id: id2 }]
    );
}

#[test]
fn activate_twice_queues_one_event() {
    let mut store = TabStore::new();
    let id = store.open("https://a.example", ProfileId::Normal, false);
    store.take_events();
    store.activate(id);
    store.activate(id);
    assert_eq!(store.take_events(), vec![TabEvent::Activated { id }]);
}

#[test]
fn activate_unknown_id_changes_nothing() {
    let mut store = TabStore::new();
    store.open("https://a.example", ProfileId::Normal, false);
    store.take_events();
    store.activate(TabId(5));
    assert_eq!(store.active_id(), None);
    assert!(store.take_events().is_empty());
}

#[test]
fn close_undoes_open() {
    let mut store = TabStore::new();
    let id1 = store.open("https://a.example", ProfileId::Normal, false);
    let id2 = store.open("https://b.example", ProfileId::Normal, false);
    store.activate(id1);
    let id3 = store.open("https://c.example", ProfileId::Normal, true);
    store.close(id3);
    let ids: Vec<TabId> = store.tabs().iter().map(|t| t.id).collect();
    assert_eq!(ids, vec![id1, id2]);
    assert_eq!(store.active_id(), Some(id1));
}

#[test]
fn reorder_there_and_back_restores_order() {
    let mut store = TabStore::new();
    let ids: Vec<TabId> = ["a", "b", "c", "d"]
        .iter()
        .map(|u| store.open(u, ProfileId::Normal, false))
        .collect();
    store.reorder(3, 1);
    assert_eq!(store.tabs()[1].id, ids[3]);
    store.reorder(1, 3);
    let after: Vec<TabId> = store.tabs().iter().map(|t| t.id).collect();
    assert_eq!(after, ids);
}

#[test]
fn reorder_out_of_range_or_same_position_does_nothing() {
    let mut store = TabStore::new();
    let id1 = store.open("https://a.example", ProfileId::Normal, false);
    let id2 = store.open("https://b.example", ProfileId::Normal, false);
    store.take_events();
    store.reorder(0, 2);
    store.reorder(5, 0);
    store.reorder(1, 1);
    assert_eq!(store.tabs()[0].id, id1);
    assert_eq!(store.tabs()[1].id, id2);
    assert!(store.take_events().is_empty());
    store.reorder(1, 0);
    assert_eq!(store.take_events(), vec![TabEvent::Reordered]);
}

#[test]
fn update_of_unknown_id_does_nothing() {
    let mut store = TabStore::new();
    store.open("https://a.example", ProfileId::Normal, false);
    store.take_events();
    store.update(TabId(3), |mut t| {
        t.title = "x".to_string();
        t
    });
    assert!(store.take_events().is_empty());
    assert_eq!(store.tabs()[0].title, "https://a.example");
}

#[test]
fn take_events_drains_the_queue() {
    let mut store = TabStore::new();
    let id = store.open("https://a.example", ProfileId::Normal, false);
    assert_eq!(store.take_events(), vec![TabEvent::Created { id, index: 0 }]);
    assert!(store.take_events().is_empty());
}

#[test]
fn active_tab_follows_active_id() {
    let mut store = TabStore::new();
    assert!(store.active_tab().is_none());
    let id = store.open("https://a.example", ProfileId::Normal, false);
    assert!(store.active_tab().is_none());
    store.activate(id);
    assert_eq!(store.active_tab().unwrap().url, "https://a.example");
    assert!(store.get(TabId(9)).is_none());
}

#[test]
fn profile_reports_incognito() {
    assert!(!ProfileId::Normal.is_incognito());
    assert!(ProfileId::Incognito(1).is_incognito());
}

#[test]
fn closed_id_is_gone_and_events_keep_their_order() {
    let mut store = TabStore::new();
    let a = store.open("https://a.example", ProfileId::Normal, false);
    let b = store.open("https://b.example", ProfileId::Normal, false);
    store.activate(a);
    store.reorder(0, 1);
    store.close(a);
    assert!(store.get(a).is_none());
    assert_eq!(
        store.take_events(),
        vec![
            TabEvent::Created { id: a, index: 0 },
            TabEvent::Created { id: b, index: 1 },
            TabEvent::Activated { id: a },
            TabEvent::Reordered,
            TabEvent::Closed { id: a },
            TabEvent::Activated { id: b },
        ]
    );
}

#[test]
fn ids_are_version_4_uuid_bits() {
    for _ in 0..16 {
        let id = TabId::new();
        assert_eq!((id.0 >> 76) & 0xf, 4);
        assert_eq!((id.0 >> 62) & 0x3, 2);
    }
}

#[test]
fn mutations_keep_every_id_once() {
    let mut store = TabStore::new();
    let a = store.open("https://a.example", ProfileId::Normal, false);
    let b = store.open("https://b.example", ProfileId::Normal, true);
    let c = store.open_child("https://c.example", ProfileId::Normal, a);
    let _d = store.open("https://d.example", ProfileId::Normal, false);
    store.activate(c);
    store.reorder(3, 0);
    store.reorder(1, 2);
    store.update(b, |mut t| {
        t.title = "B".to_string();
        t
    });
    store.close(a);
    store.reorder(0, 2);
    let ids: Vec<TabId> = store.tabs().iter().map(|t| t.id).collect();
    assert_eq!(ids.len(), 3);
    for i in 0..ids.len() {
        for j in 0..ids.len() {
            if i != j {
                assert_ne!(ids[i], ids[j]);
            }
        }
    }
    let active = store.active_id().unwrap();
    assert!(ids.contains(&active));
}
