use ion_ui::observable::AppState;
use ion_ui::ident::{IdGen, keyed_identity, u64_to_string};

#[test]
fn dirty_round_trip_on_set_count() {
    let mut s = AppState::new();
    // The store starts dirty so that the first frame renders.
    assert!(s.consume_dirty());
    assert!(!s.consume_dirty());
    s.set_count(5);
    assert_eq!(s.get_count(), 5);
    assert!(s.consume_dirty());
    assert!(!s.consume_dirty());
}

#[test]
fn dirty_round_trip_on_each_field() {
    let mut s = AppState::new();
    s.consume_dirty();
    s.set_new_item_name("abc".to_string());
    assert!(s.consume_dirty());
    assert!(!s.consume_dirty());
    s.set_items(Vec::new());
    assert!(s.consume_dirty());
    assert!(!s.consume_dirty());
}

#[test]
fn reads_never_clear_the_flag() {
    let mut s = AppState::new();
    s.consume_dirty();
    s.set_count(1);
    let _ = s.get_count();
    let _ = s.get_items();
    let _ = s.get_new_item_name();
    assert!(s.consume_dirty());
}

#[test]
fn default_state() {
    let s = AppState::new();
    assert_eq!(s.get_count(), 0);
    assert_eq!(s.get_items().len(), 1);
    assert_eq!(s.get_items()[0].id, 1);
    assert_eq!(s.get_items()[0].name, "Testing!");
    assert!(!s.get_items()[0].editing);
    assert_eq!(s.get_new_item_name(), "Item Name");
}

#[test]
fn decimal_formatting_exact() {
    assert_eq!(u64_to_string(0), "0");
    assert_eq!(u64_to_string(7), "7");
    assert_eq!(u64_to_string(10), "10");
    assert_eq!(u64_to_string(90210), "90210");
    assert_eq!(u64_to_string(1234567890), "1234567890");
    assert_eq!(u64_to_string(u64::MAX), "18446744073709551615");
}

#[test]
fn generated_identities_are_fresh() {
    let mut ids = IdGen::new();
    let a = ids.next_generated_identity();
    let b = ids.next_generated_identity();
    let c = ids.next_generated_identity();
    assert_eq!(a, "1");
    assert_eq!(b, "2");
    assert_eq!(c, "3");
    assert_ne!(a, b);
    assert_ne!(b, c);
}

#[test]
fn keyed_identities_are_stable_and_namespaced() {
    assert_eq!(keyed_identity("7"), "unique_key_7");
    assert_eq!(keyed_identity("7"), keyed_identity("7"));
    assert_ne!(keyed_identity("7"), keyed_identity("8"));
    // A keyed identity never collides with a generated one, even for a key
    // that looks like a counter value.
    let mut ids = IdGen::new();
    let g = ids.next_generated_identity();
    assert_ne!(keyed_identity("1"), g);
}
