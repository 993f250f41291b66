use id_wrapper::my_struct::{MyStruct, MyStructOverwrites};
use id_wrapper::with_id::WithId;

#[test]
fn separately_wrapped_equal_values_compare_unequal() {
    let a = WithId::new(7u32);
    let b = WithId::new(7u32);
    assert_eq!(a.inner, b.inner);
    assert_ne!(a.id(), b.id());
    assert!(!(a == b));
}

#[test]
fn identifier_has_twenty_one_url_safe_characters() {
    let a = WithId::new(1u8);
    assert_eq!(a.id().chars().count(), 21);
    assert!(a.id().chars().all(|c| c.is_ascii_alphanumeric() || c == '-' || c == '_'));
}

#[test]
fn labeled_identifier_is_qualified() {
    let a = WithId::with_label("u32", 5u32);
    assert_eq!(a.inner, 5);
    let id = a.id();
    assert_eq!(id.chars().count(), 3 + 2 + 21);
    assert!(id.starts_with("u32::"));
    assert!(id["u32::".len()..]
        .chars()
        .all(|c| c.is_ascii_alphanumeric() || c == '-' || c == '_'));
    let b = WithId::with_label("u32", 5u32);
    assert_ne!(a.id(), b.id());
}

#[test]
fn clone_gets_a_fresh_identifier() {
    let a = WithId::new(3u32);
    let b = a.clone();
    assert_eq!(a.inner, b.inner);
    assert_ne!(a.id(), b.id());
}

#[test]
fn wrapping_through_from_keeps_the_value() {
    let a: WithId<u32> = WithId::from(9);
    assert_eq!(a.inner, 9);
    let b: WithId<u32> = 9.into();
    assert_eq!(b.inner, 9);
}

#[test]
fn same_identifier_and_value_compare_equal() {
    let a = WithId { id: "fixed".to_string(), inner: 4u32 };
    let b = WithId { id: "fixed".to_string(), inner: 4u32 };
    assert!(a == b);
    let c = WithId { id: "fixed".to_string(), inner: 5u32 };
    assert!(!(a == c));
}

#[test]
fn ordering_decides_by_identifier_then_value() {
    let a = WithId { id: "a".to_string(), inner: 5u32 };
    let b = WithId { id: "b".to_string(), inner: 1u32 };
    assert_eq!(a.partial_cmp(&b), Some(std::cmp::Ordering::Less));
    assert!(a < b);
    let c = WithId { id: "a".to_string(), inner: 7u32 };
    assert_eq!(a.partial_cmp(&c), Some(std::cmp::Ordering::Less));
    let d = WithId { id: "a".to_string(), inner: 5u32 };
    assert_eq!(a.partial_cmp(&d), Some(std::cmp::Ordering::Equal));
    assert!(a == d);
}

#[test]
fn distinct_identifiers_never_compare_equal() {
    let a = WithId::new(7u32);
    let b = WithId::new(7u32);
    assert_ne!(a.partial_cmp(&b), Some(std::cmp::Ordering::Equal));
    assert!(!(a == b));
}

#[test]
fn access_reaches_the_wrapped_value_through_deref() {
    let mut w = WithId::new(MyStruct { count: 0 });
    let id_before = w.id().to_string();
    w.count += 2;
    assert_eq!(w.count, 2);
    (*w).increment();
    assert_eq!(w.inner.count, 3);
    assert_eq!(w.id(), id_before);
}

#[test]
fn default_wraps_the_default_value() {
    let d: WithId<u32> = Default::default();
    assert_eq!(d.inner, 0);
    assert_eq!(d.id().chars().count(), 21);
}

#[test]
fn counter_methods_count() {
    let mut m = MyStruct { count: 0 };
    m.increment();
    assert_eq!(m.count, 1);
    m.increment_by(4);
    assert_eq!(m.count, 5);
}

#[test]
fn overwritten_method_reaches_the_wrapped_counter() {
    let mut w = WithId::new(MyStruct { count: 0 });
    let id_before = w.id().to_string();
    w.increment_by(3);
    assert_eq!(w.inner.count, 3);
    assert_eq!(w.id(), id_before);
    w.inner.increment();
    assert_eq!(w.inner.count, 4);
    w.inner.increment_by(5);
    assert_eq!(w.inner.count, 9);
}
