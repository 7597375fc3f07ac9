use variants_struct::keyed::{same_key, Key, KeyedMap};
use variants_struct::layout::{FieldLayout, RecordLayout, SlotKind};
use variants_struct::record::{Slot, VariantValue, VariantsRecord};

fn layout(fields: Vec<(&str, SlotKind)>) -> RecordLayout {
    RecordLayout {
        name: "R".to_string(),
        enum_name: "E".to_string(),
        visibility: String::new(),
        fields: fields
            .into_iter()
            .map(|(n, slot)| FieldLayout { name: n.to_string(), variant: n.to_string(), slot })
            .collect(),
        derives: vec![],
        bounds: vec![],
        attrs: vec![],
    }
}

fn plain(index: usize) -> VariantValue {
    VariantValue { index, key: None }
}

fn with_key(index: usize, key: Key) -> VariantValue {
    VariantValue { index, key: Some(key) }
}

fn mixed() -> RecordLayout {
    layout(vec![
        ("a", SlotKind::Direct),
        ("b", SlotKind::Keyed("i32".to_string(), None)),
        ("c", SlotKind::Direct),
    ])
}

#[test]
fn constructor_places_arguments_in_order() {
    let l = layout(vec![("a", SlotKind::Direct), ("b", SlotKind::Direct), ("c", SlotKind::Direct)]);
    let r = VariantsRecord::new(&l, vec![10, 20, 30]);
    for (i, x) in [10, 20, 30].iter().enumerate() {
        assert_eq!(r.get_unchecked(&plain(i)), x);
        assert_eq!(r.get(&plain(i)), Some(x));
    }
}

#[test]
fn constructor_skips_keyed_fields() {
    let r = VariantsRecord::new(&mixed(), vec![1, 3]);
    assert_eq!(r.slots[0], Slot::Direct(1));
    assert_eq!(r.slots[1], Slot::Keyed(KeyedMap::new()));
    assert_eq!(r.slots[2], Slot::Direct(3));
}

#[test]
fn checked_read_of_missing_key() {
    let mut r = VariantsRecord::new(&mixed(), vec![1, 3]);
    assert_eq!(r.get(&with_key(1, Key::Int(4))), None);
    assert!(r.get_mut(&with_key(1, Key::Int(4))).is_none());
    if let Slot::Keyed(m) = &mut r.slots[1] {
        m.insert(Key::Int(4), 40);
    }
    assert_eq!(r.get(&with_key(1, Key::Int(4))), Some(&40));
    assert_eq!(*r.get_unchecked(&with_key(1, Key::Int(4))), 40);
}

#[test]
fn writes_are_seen_by_reads() {
    let mut r = VariantsRecord::new(&mixed(), vec![1, 3]);
    *r.get_mut_unchecked(&plain(2)) = 33;
    assert_eq!(*r.get_unchecked(&plain(2)), 33);
    assert_eq!(r.slots[2], Slot::Direct(33));
    if let Some(x) = r.get_mut(&plain(0)) {
        *x = 11;
    }
    assert_eq!(r.slots[0], Slot::Direct(11));
    if let Slot::Keyed(m) = &mut r.slots[1] {
        m.insert(Key::Int(-2), 5);
    }
    *r.get_mut_unchecked(&with_key(1, Key::Int(-2))) = 6;
    assert_eq!(r.get(&with_key(1, Key::Int(-2))), Some(&6));
    *r.get_mut(&with_key(1, Key::Int(-2))).unwrap() = 7;
    assert_eq!(*r.get_unchecked(&with_key(1, Key::Int(-2))), 7);
    assert_eq!(r.slots[0], Slot::Direct(11));
}

#[test]
fn default_record() {
    let r: VariantsRecord<String> = VariantsRecord::from_default(&mixed());
    assert_eq!(r.slots[0], Slot::Direct(String::new()));
    assert_eq!(r.slots[1], Slot::Keyed(KeyedMap::new()));
    assert_eq!(r.slots.len(), 3);
}

#[test]
fn keyed_map_operations() {
    let mut m: KeyedMap<&str> = KeyedMap::new();
    assert_eq!(m.insert(Key::Text("k".to_string()), "v1"), None);
    assert_eq!(m.insert(Key::Text("k".to_string()), "v2"), Some("v1"));
    assert_eq!(m.insert(Key::Int(1), "one"), None);
    assert!(m.contains_key(&Key::Int(1)));
    assert!(!m.contains_key(&Key::Int(2)));
    assert_eq!(m.get(&Key::Text("k".to_string())), Some(&"v2"));
    *m.get_mut(&Key::Int(1)).unwrap() = "uno";
    assert_eq!(m.get(&Key::Int(1)), Some(&"uno"));
    assert!(m.get_mut(&Key::Text("missing".to_string())).is_none());
    let c = m.clone();
    assert_eq!(c.get(&Key::Int(1)), Some(&"uno"));
}

#[test]
fn keys_compare_by_value() {
    assert!(same_key(&Key::Int(3), &Key::Int(3)));
    assert!(!same_key(&Key::Int(3), &Key::Int(4)));
    assert!(!same_key(&Key::Int(3), &Key::Text("3".to_string())));
    assert!(same_key(&Key::Text("a".to_string()), &Key::Text("a".to_string())));
}
