use ferrum::{ExtensionStore, ExtensionValue};

const TIMER: u64 = 1;
const USER: u64 = 2;

fn number(value: Option<&ExtensionValue>) -> Option<u64> {
    match value {
        Some(ExtensionValue::Number(n)) => Some(*n),
        _ => None,
    }
}

fn text(value: Option<ExtensionValue>) -> Option<String> {
    match value {
        Some(ExtensionValue::Text(s)) => Some(s),
        _ => None,
    }
}

#[test]
fn value_under_one_key_is_not_seen_under_another() {
    let mut store = ExtensionStore::new();
    assert!(store.insert(TIMER, ExtensionValue::Number(42)).is_none());

    assert_eq!(number(store.get(TIMER)), Some(42));
    assert!(store.get(USER).is_none());
    assert!(store.contains(TIMER));
    assert!(!store.contains(USER));
}

#[test]
fn second_value_under_a_key_takes_the_place_of_the_first() {
    let mut store = ExtensionStore::new();
    store.insert(USER, ExtensionValue::Text("ann".to_string()));
    let previous = store.insert(USER, ExtensionValue::Text("bob".to_string()));

    assert_eq!(text(previous), Some("ann".to_string()));
    assert_eq!(store.len(), 1);
    assert_eq!(text(store.remove(USER)), Some("bob".to_string()));
    assert!(store.is_empty());
}

#[test]
fn store_keeps_one_value_under_each_key() {
    let mut store = ExtensionStore::new();
    assert!(store.is_empty());
    assert_eq!(store.len(), 0);

    store.insert(TIMER, ExtensionValue::Number(1));
    store.insert(USER, ExtensionValue::Flag(true));
    store.insert(7, ExtensionValue::Signed(-3));
    store.insert(8, ExtensionValue::Bytes(vec![1, 2]));
    assert_eq!(store.len(), 4);
    assert!(!store.is_empty());

    assert!(matches!(store.get(USER), Some(ExtensionValue::Flag(true))));
    assert!(matches!(store.get(7), Some(ExtensionValue::Signed(-3))));
    assert!(matches!(store.remove(8), Some(ExtensionValue::Bytes(_))));
    assert!(store.remove(8).is_none());
    assert_eq!(store.len(), 3);

    store.clear();
    assert!(store.is_empty());
    assert!(store.get(TIMER).is_none());
}
