//! The store of reasoning texts.

use ccr::converter::{
    fresh, get_and_remove_reasoning, set_reasoning, ReasoningStore, REASONING_TTL_NANOS,
};

#[test]
fn stored_text_is_handed_over_once() {
    let mut store = ReasoningStore::new();
    set_reasoning(&mut store, "call_1".to_string(), "because".to_string());
    assert_eq!(get_and_remove_reasoning(&mut store, "call_2"), None);
    assert_eq!(
        get_and_remove_reasoning(&mut store, "call_1"),
        Some("because".to_string())
    );
    assert_eq!(get_and_remove_reasoning(&mut store, "call_1"), None);
}

#[test]
fn later_text_takes_the_place_of_an_earlier_one() {
    let mut store = ReasoningStore::new();
    store.put_at("a", "first", 1);
    store.put_at("a", "second", 2);
    assert_eq!(store.take_at("a", 3), Some("second".to_string()));
}

#[test]
fn text_is_valid_for_an_hour() {
    let mut store = ReasoningStore::new();
    store.put_at("a", "x", 5);
    store.put_at("b", "y", 5);
    assert_eq!(
        store.take_at("a", 5 + REASONING_TTL_NANOS - 1),
        Some("x".to_string())
    );
    assert_eq!(store.take_at("b", 5 + REASONING_TTL_NANOS), None);
    assert_eq!(store.take_at("b", 5), None);
}

#[test]
fn storing_drops_what_has_expired_and_keeps_the_rest() {
    let mut store = ReasoningStore::new();
    store.put_at("old", "x", 0);
    store.put_at("young", "y", 10);
    store.put_at("new", "z", REASONING_TTL_NANOS);
    assert_eq!(store.take_at("old", 0), None);
    assert_eq!(store.take_at("young", REASONING_TTL_NANOS), Some("y".to_string()));
    assert_eq!(store.take_at("new", REASONING_TTL_NANOS), Some("z".to_string()));
}

#[test]
fn purge_drops_what_has_expired() {
    let mut store = ReasoningStore::new();
    store.put_at("a", "x", 0);
    store.put_at("b", "y", 1);
    store.purge_at(REASONING_TTL_NANOS);
    assert_eq!(store.take_at("a", 0), None);
    assert_eq!(store.take_at("b", 1), Some("y".to_string()));
}

#[test]
fn time_moves_forward() {
    let store = ReasoningStore::new();
    let a = store.now();
    let b = store.now();
    assert!(a <= b);
}

#[test]
fn freshness_at_the_border() {
    assert!(fresh(7, 0));
    assert!(fresh(0, REASONING_TTL_NANOS - 1));
    assert!(!fresh(0, REASONING_TTL_NANOS));
}
