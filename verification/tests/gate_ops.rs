use wiki_core::address::PageAddress;
use wiki_core::gate::SyncGate;

fn addr(owner: &str, id: &str) -> PageAddress {
    PageAddress::new(String::from(owner), String::from(id))
}

#[test]
fn second_acquire_on_same_address_is_blocked() {
    let mut g = SyncGate::new();
    let a = addr("a", "p");
    assert!(g.try_acquire(&a));
    assert!(!g.try_acquire(&a));
    assert!(g.holds(&a));
}

#[test]
fn distinct_addresses_acquire_independently() {
    let mut g = SyncGate::new();
    assert!(g.try_acquire(&addr("a", "p")));
    assert!(g.try_acquire(&addr("a", "q")));
    assert!(g.try_acquire(&addr("b", "p")));
}

#[test]
fn release_frees_the_address() {
    let mut g = SyncGate::new();
    let a = addr("a", "p");
    assert!(g.try_acquire(&a));
    assert_eq!(g.release(&a), None);
    assert!(!g.holds(&a));
    assert!(g.try_acquire(&a));
}

#[test]
fn waiters_are_served_in_arrival_order() {
    let mut g = SyncGate::new();
    let a = addr("a", "p");
    assert!(g.try_acquire(&a));
    let first = g.enqueue(&a);
    let second = g.enqueue(&a);
    assert!(first < second);
    assert_eq!(g.release(&a), Some(first));
    assert_eq!(g.release(&a), Some(second));
    assert_eq!(g.release(&a), None);
    assert!(!g.holds(&a));
}

#[test]
fn waiter_for_other_address_is_not_granted() {
    let mut g = SyncGate::new();
    let a = addr("a", "p");
    let b = addr("b", "p");
    assert!(g.try_acquire(&a));
    assert!(g.try_acquire(&b));
    let tb = g.enqueue(&b);
    assert_eq!(g.release(&a), None);
    assert_eq!(g.release(&b), Some(tb));
}
