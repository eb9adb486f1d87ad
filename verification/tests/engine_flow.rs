use wiki_core::address::PageAddress;
use wiki_core::bridge::settle;
use wiki_core::engine::Engine;
use wiki_core::engine::NavState;
use wiki_core::errors::storage_to_wiki;
use wiki_core::errors::MissingField;
use wiki_core::errors::StorageError;
use wiki_core::errors::WikiError;

fn addr(owner: &str, id: &str) -> PageAddress {
    PageAddress::new(String::from(owner), String::from(id))
}

fn bob_engine() -> Engine {
    Engine::new(Some(String::from("bob")))
}

/// Drives the engine into viewing `a` with `content` fetched from the
/// backend.
fn view_page(e: &mut Engine, a: &PageAddress, content: &str) {
    let fetch = e.on_select(a.clone());
    assert_eq!(fetch, Some(a.clone()));
    e.on_fetch_done(Ok(String::from(content)));
}

#[test]
fn create_flow_lists_the_new_page() {
    let mut e = bob_engine();
    assert!(matches!(e.state, NavState::Listing));
    assert!(e.on_new_page());
    let content = e.start_save_create(String::from("Hello world")).unwrap();
    assert_eq!(content, "Hello world");
    e.on_create_done(Ok(addr("bob", "p1")));
    assert!(matches!(e.state, NavState::Listing));
    let rec = e.cache.get(&addr("bob", "p1")).unwrap();
    assert_eq!(rec.content, "Hello world");
    assert_eq!(rec.title.as_deref(), Some("Hello world"));
    assert_eq!(e.cache.list_addresses(), vec![addr("bob", "p1")]);
}

#[test]
fn create_failure_keeps_draft_and_surfaces_error() {
    let mut e = bob_engine();
    assert!(e.on_new_page());
    e.start_save_create(String::from("Draft body")).unwrap();
    e.on_create_done(Err(StorageError::Transport));
    match &e.state {
        NavState::Creating { draft } => assert_eq!(draft, "Draft body"),
        _ => panic!("expected Creating"),
    }
    assert_eq!(e.last_error, Some(WikiError::TransportError));
    assert!(e.cache.get(&addr("bob", "p1")).is_none());
}

#[test]
fn empty_save_from_creating_changes_nothing() {
    let mut e = bob_engine();
    assert!(e.on_new_page());
    let r = e.start_save_create(String::new());
    assert_eq!(
        r,
        Err(WikiError::ValidationError { missing: MissingField::Content })
    );
    assert!(matches!(e.state, NavState::Creating { .. }));
    assert!(e.cache.list_addresses().is_empty());
}

#[test]
fn empty_save_from_editing_changes_nothing() {
    let mut e = bob_engine();
    let a = addr("bob", "p1");
    view_page(&mut e, &a, "Old content");
    assert!(e.on_edit_requested());
    let r = e.start_save_edit(String::new());
    assert_eq!(
        r,
        Err(WikiError::ValidationError { missing: MissingField::Content })
    );
    match &e.state {
        NavState::Editing { address, draft } => {
            assert_eq!(*address, a);
            assert_eq!(draft, "Old content");
        },
        _ => panic!("expected Editing"),
    }
    assert_eq!(e.cache.get(&a).unwrap().content, "Old content");
}

#[test]
fn select_fetches_once_and_reselect_hits_cache() {
    let mut e = bob_engine();
    let a = addr("carol", "pg");
    let first = e.on_select(a.clone());
    assert_eq!(first, Some(a.clone()));
    e.on_fetch_done(Ok(String::from("Body")));
    match &e.state {
        NavState::Viewing { content, error, .. } => {
            assert_eq!(content.as_deref(), Some("Body"));
            assert!(error.is_none());
        },
        _ => panic!("expected Viewing"),
    }
    e.on_back();
    let second = e.on_select(a.clone());
    assert_eq!(second, None);
    match &e.state {
        NavState::Viewing { content, .. } => assert_eq!(content.as_deref(), Some("Body")),
        _ => panic!("expected Viewing"),
    }
}

#[test]
fn fetch_failure_attaches_error_and_caches_nothing() {
    let mut e = bob_engine();
    let a = addr("carol", "missing");
    assert!(e.on_select(a.clone()).is_some());
    e.on_fetch_done(Err(StorageError::NotFound));
    match &e.state {
        NavState::Viewing { address, content, error } => {
            assert_eq!(*address, a);
            assert!(content.is_none());
            assert_eq!(*error, Some(StorageError::NotFound));
        },
        _ => panic!("expected Viewing"),
    }
    assert!(e.cache.get(&a).is_none());
    assert_eq!(e.last_error, Some(WikiError::NotFound));
}

#[test]
fn update_flow_recaches_and_marks_refresh() {
    let mut e = bob_engine();
    let a = addr("bob", "p1");
    view_page(&mut e, &a, "Old content");
    assert!(e.on_edit_requested());
    let (ua, uc) = e.start_save_edit(String::from("Updated")).unwrap();
    assert_eq!(ua, a);
    assert_eq!(uc, "Updated");
    e.on_update_done(Ok(()));
    assert!(matches!(e.state, NavState::Listing));
    assert_eq!(e.cache.get(&a).unwrap().content, "Updated");
    assert!(e.needs_refresh);
    e.clear_refresh();
    assert!(!e.needs_refresh);
}

#[test]
fn delete_flow_evicts_and_unlists() {
    let mut e = bob_engine();
    let a = addr("bob", "p1");
    view_page(&mut e, &a, "Body");
    assert!(e.on_edit_requested());
    let d = e.start_delete();
    assert_eq!(d, a);
    e.on_delete_done(Ok(()));
    assert!(matches!(e.state, NavState::Listing));
    assert!(e.cache.get(&a).is_none());
    assert!(!e.cache.list_addresses().contains(&a));
    assert!(e.needs_refresh);
}

#[test]
fn update_failure_keeps_editing_draft_and_cache() {
    let mut e = bob_engine();
    let a = addr("bob", "p1");
    view_page(&mut e, &a, "Old content");
    assert!(e.on_edit_requested());
    e.start_save_edit(String::from("Updated")).unwrap();
    e.on_update_done(Err(StorageError::Transport));
    match &e.state {
        NavState::Editing { address, draft } => {
            assert_eq!(*address, a);
            assert_eq!(draft, "Updated");
        },
        _ => panic!("expected Editing"),
    }
    assert_eq!(e.last_error, Some(WikiError::TransportError));
    assert_eq!(e.cache.get(&a).unwrap().content, "Old content");
    assert!(!e.needs_refresh);
}

#[test]
fn delete_failure_keeps_editing_and_cache() {
    let mut e = bob_engine();
    let a = addr("bob", "p1");
    view_page(&mut e, &a, "Body");
    assert!(e.on_edit_requested());
    let _ = e.start_delete();
    e.on_delete_done(Err(StorageError::Timeout));
    assert!(matches!(e.state, NavState::Editing { .. }));
    assert_eq!(e.last_error, Some(WikiError::Timeout));
    assert_eq!(e.cache.get(&a).unwrap().content, "Body");
}

#[test]
fn foreign_page_is_read_only() {
    let mut e = bob_engine();
    let a = addr("carol", "pg");
    view_page(&mut e, &a, "Hers");
    assert!(!e.on_edit_requested());
    assert!(matches!(e.state, NavState::Viewing { .. }));
}

#[test]
fn no_session_cannot_create() {
    let mut e = Engine::new(None);
    assert!(!e.on_new_page());
    assert!(matches!(e.state, NavState::Listing));
}

#[test]
fn cancel_discards_draft() {
    let mut e = bob_engine();
    assert!(e.on_new_page());
    e.on_cancel();
    assert!(matches!(e.state, NavState::Listing));
}

#[test]
fn link_clicks_route_first_resolved_only() {
    let mut e = bob_engine();
    let a = addr("alice", "home");
    view_page(&mut e, &a, "Home");
    let hrefs = vec![
        String::from("https://example.com"),
        String::from("alice/pageX"),
        String::from("alice/pageY"),
    ];
    let fetch = e.on_link_clicks(&hrefs);
    assert_eq!(fetch, Some(addr("alice", "pageX")));
    e.on_fetch_done(Ok(String::from("X body")));
    match &e.state {
        NavState::Viewing { address, .. } => assert_eq!(*address, addr("alice", "pageX")),
        _ => panic!("expected Viewing"),
    }
}

#[test]
fn unresolved_links_never_navigate() {
    let mut e = bob_engine();
    let a = addr("alice", "home");
    view_page(&mut e, &a, "Home");
    let hrefs = vec![String::from("https://example.com"), String::from("a/b/c")];
    assert!(e.on_link_clicks(&hrefs).is_none());
    match &e.state {
        NavState::Viewing { address, .. } => assert_eq!(*address, a),
        _ => panic!("expected Viewing"),
    }
}

#[test]
fn bare_link_resolves_against_viewed_owner() {
    let mut e = bob_engine();
    let a = addr("alice", "home");
    view_page(&mut e, &a, "Home");
    let fetch = e.on_link_clicks(&vec![String::from("pageX")]);
    assert_eq!(fetch, Some(addr("alice", "pageX")));
}

#[test]
fn settle_maps_no_answer_to_timeout() {
    assert_eq!(settle::<String>(None), Err(StorageError::Timeout));
    assert_eq!(
        settle(Some(Ok(String::from("body")))),
        Ok(String::from("body"))
    );
    assert_eq!(
        settle::<String>(Some(Err(StorageError::NotFound))),
        Err(StorageError::NotFound)
    );
}

#[test]
fn storage_errors_lift_into_the_taxonomy() {
    assert_eq!(storage_to_wiki(StorageError::NotFound), WikiError::NotFound);
    assert_eq!(
        storage_to_wiki(StorageError::Transport),
        WikiError::TransportError
    );
    assert_eq!(
        storage_to_wiki(StorageError::Decode),
        WikiError::TransportError
    );
    assert_eq!(storage_to_wiki(StorageError::Timeout), WikiError::Timeout);
}
