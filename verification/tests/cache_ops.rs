use wiki_core::address::PageAddress;
use wiki_core::cache::PageCache;
use wiki_core::cache::PageRecord;

fn addr(owner: &str, id: &str) -> PageAddress {
    PageAddress::new(String::from(owner), String::from(id))
}

fn rec(title: Option<&str>, content: &str) -> PageRecord {
    PageRecord { title: title.map(String::from), content: String::from(content) }
}

#[test]
fn empty_cache_misses() {
    let c = PageCache::new();
    assert!(c.get(&addr("a", "p")).is_none());
    assert!(c.list_addresses().is_empty());
}

#[test]
fn put_then_get() {
    let mut c = PageCache::new();
    c.put(addr("a", "p"), rec(Some("T"), "body"));
    let got = c.get(&addr("a", "p")).unwrap();
    assert_eq!(got.title.as_deref(), Some("T"));
    assert_eq!(got.content, "body");
    assert!(c.get(&addr("a", "q")).is_none());
}

#[test]
fn put_replaces_in_place_and_keeps_order() {
    let mut c = PageCache::new();
    c.put(addr("a", "p1"), rec(None, "one"));
    c.put(addr("a", "p2"), rec(None, "two"));
    c.put(addr("a", "p1"), rec(None, "one again"));
    assert_eq!(c.get(&addr("a", "p1")).unwrap().content, "one again");
    assert_eq!(c.list_addresses(), vec![addr("a", "p1"), addr("a", "p2")]);
}

#[test]
fn list_is_insertion_order_newest_last() {
    let mut c = PageCache::new();
    c.put(addr("a", "p1"), rec(None, "1"));
    c.put(addr("b", "p2"), rec(None, "2"));
    c.put(addr("a", "p3"), rec(None, "3"));
    assert_eq!(
        c.list_addresses(),
        vec![addr("a", "p1"), addr("b", "p2"), addr("a", "p3")]
    );
}

#[test]
fn evict_removes_only_its_entry() {
    let mut c = PageCache::new();
    c.put(addr("a", "p1"), rec(None, "1"));
    c.put(addr("b", "p2"), rec(None, "2"));
    c.evict(&addr("a", "p1"));
    assert!(c.get(&addr("a", "p1")).is_none());
    assert_eq!(c.get(&addr("b", "p2")).unwrap().content, "2");
    assert_eq!(c.list_addresses(), vec![addr("b", "p2")]);
}

#[test]
fn evict_absent_changes_nothing() {
    let mut c = PageCache::new();
    c.put(addr("a", "p1"), rec(None, "1"));
    c.evict(&addr("a", "missing"));
    assert_eq!(c.list_addresses(), vec![addr("a", "p1")]);
}

#[test]
fn same_page_id_under_two_owners_is_two_pages() {
    let mut c = PageCache::new();
    c.put(addr("a", "p"), rec(None, "of a"));
    c.put(addr("b", "p"), rec(None, "of b"));
    assert_eq!(c.get(&addr("a", "p")).unwrap().content, "of a");
    assert_eq!(c.get(&addr("b", "p")).unwrap().content, "of b");
}
