use iot_ingest::schema::{get_mqtt_client_signal, Signal, SignalMapping};

fn signal(name: &str, cache_size: usize, id: i64, kind: &str) -> Option<Signal> {
    Some(Signal { name: name.to_string(), cache_size, id, kind: kind.to_string() })
}

#[test]
fn corrupt_entries_give_an_empty_schema() {
    let schema = get_mqtt_client_signal(&vec![None, None, None]);
    assert_eq!(schema.len(), 0);
    assert_eq!(schema.get("any"), None);
}

#[test]
fn no_entries_give_an_empty_schema() {
    let schema = get_mqtt_client_signal(&vec![]);
    assert_eq!(schema.len(), 0);
}

#[test]
fn one_corrupt_entry_is_passed_over() {
    let schema = get_mqtt_client_signal(&vec![
        signal("a", 1, 10, "\u{6570}\u{5b57}"),
        None,
        signal("b", 2, 20, "\u{6587}\u{672c}"),
    ]);
    assert_eq!(schema.len(), 2);
    assert_eq!(schema.get("a"), Some(&SignalMapping { cache_size: 1, id: 10, numb: true }));
    assert_eq!(schema.get("b"), Some(&SignalMapping { cache_size: 2, id: 20, numb: false }));
}

#[test]
fn later_definition_of_a_name_counts() {
    let schema = get_mqtt_client_signal(&vec![
        signal("a", 1, 10, "\u{6570}\u{5b57}"),
        signal("b", 2, 20, "x"),
        signal("a", 3, 30, "text"),
    ]);
    assert_eq!(schema.len(), 2);
    assert_eq!(schema.get("a"), Some(&SignalMapping { cache_size: 3, id: 30, numb: false }));
    assert!(schema.contains_key("b"));
    assert!(!schema.contains_key("c"));
    assert_eq!(schema.key_at(0), "a");
    assert_eq!(schema.key_at(1), "b");
}
