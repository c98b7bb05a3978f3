use std::hash::{DefaultHasher, Hash, Hasher};

use iced_a11y::{window_node_id, A11yId, Id, IdCounter, WindowNodeCounter};

fn std_key(name: &str) -> u64 {
    let mut hasher = DefaultHasher::new();
    name.hash(&mut hasher);
    hasher.finish() | (1 << 63)
}

#[test]
fn unique_generates_different_ids() {
    let mut counter = IdCounter::new();
    let a = Id::unique(&mut counter);
    let b = Id::unique(&mut counter);

    assert_ne!(a, b);
}

#[test]
fn unique_ids_count_from_zero() {
    let mut counter = IdCounter::new();
    let a = Id::unique(&mut counter);
    let b = Id::unique(&mut counter);
    assert_eq!(a.a11y_key(), 0);
    assert_eq!(b.a11y_key(), 1);
}

#[test]
fn custom_ids_compare_by_name() {
    assert_eq!(Id::new("button"), Id::from("button"));
    assert_eq!(Id::new("button"), Id::from(String::from("button")));
    assert_ne!(Id::new("button"), Id::new("checkbox"));
    let mut counter = IdCounter::new();
    assert_ne!(Id::unique(&mut counter), Id::new("button"));
}

#[test]
fn custom_key_is_the_default_hash_with_top_bit() {
    let key = Id::new("button").a11y_key();
    assert_eq!(key, std_key("button"));
    assert!(key >= 1 << 63);
    assert_eq!(Id::from(String::from("button")).a11y_key(), key);
    assert_ne!(Id::new("checkbox").a11y_key(), key);
    assert_eq!(Id::new("").a11y_key(), std_key(""));
}

#[test]
fn clone_keeps_the_id() {
    let id = Id::new("slider");
    assert_eq!(id.clone(), id);
    let mut counter = IdCounter::new();
    let unique = Id::unique(&mut counter);
    assert_eq!(unique.clone(), unique);
}

#[test]
fn window_keys_start_above_u32_max_and_grow() {
    let mut counter = WindowNodeCounter::new();
    let first = window_node_id(&mut counter);
    let second = window_node_id(&mut counter);
    assert_eq!(first, u64::from(u32::MAX) + 1);
    assert_eq!(second, u64::from(u32::MAX) + 2);
    assert_ne!(first, second);
}

#[test]
fn window_keys_avoid_widget_keys() {
    let mut counter = WindowNodeCounter::new();
    let window = window_node_id(&mut counter);
    let mut ids = IdCounter::new();
    let unique = Id::unique(&mut ids);
    assert_ne!(window, unique.a11y_key());
    assert_ne!(window, Id::new("window").a11y_key());
}

#[test]
fn a11y_ids_from_numbers_and_widget_ids() {
    assert_eq!(A11yId::from(7u64), A11yId::Window(7));
    assert_eq!(A11yId::from(Id::new("x")), A11yId::Widget(Id::new("x")));
    assert_ne!(A11yId::Window(7), A11yId::Window(8));
    assert_ne!(A11yId::Window(0), A11yId::Widget(Id::unique(&mut IdCounter::new())));
}

#[test]
fn node_keys_of_a11y_ids() {
    assert_eq!(A11yId::Window(42).node_key(), 42);
    assert_eq!(A11yId::Widget(Id::new("x")).node_key(), std_key("x"));
    let mut counter = IdCounter::new();
    let _ = Id::unique(&mut counter);
    assert_eq!(A11yId::Widget(Id::unique(&mut counter)).node_key(), 1);
    assert_eq!(accesskit::NodeId::from(&A11yId::Window(42)), accesskit::NodeId(42));
    assert_eq!(accesskit::NodeId::from(A11yId::Widget(Id::new("x"))), accesskit::NodeId(std_key("x")));
}
