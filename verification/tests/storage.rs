use iot_ingest::schema::{get_mqtt_client_signal, is_numeric_kind, Signal, SignalMapping};
use iot_ingest::storage::{
    protocol_of, storage_data_row, write_outcome, DataRow, DataRowList, DataValue, SkipReason,
    SkippedField, StorageError, WritePlan,
};

const NUMERIC: &str = "\u{6570}\u{5b57}";
const TEXT: &str = "\u{6587}\u{672c}";

fn signal(name: &str, id: i64, kind: &str) -> Option<Signal> {
    Some(Signal { name: name.to_string(), cache_size: 8, id, kind: kind.to_string() })
}

fn row(name: &str, value: &str) -> DataRow {
    DataRow { name: name.to_string(), value: value.to_string() }
}

fn batch(device_uid: &str, code: &str, time: i64, data: Vec<DataRow>) -> DataRowList {
    DataRowList {
        time,
        device_uid: device_uid.to_string(),
        identification_code: code.to_string(),
        data,
        nc: "1".to_string(),
        protocol: Some("MQTT".to_string()),
    }
}

fn field_names(plan: &WritePlan) -> Vec<String> {
    let mut names = Vec::new();
    for i in 0..plan.fields.len() {
        names.push(plan.fields.key_at(i).clone());
    }
    names.sort();
    names
}

#[test]
fn test_get_mqtt_client_signal() {
    let entries = vec![signal("\u{4fe1}\u{53f7}-31", 31, NUMERIC), None, signal("state", 32, TEXT)];
    let result = get_mqtt_client_signal(&entries);
    assert_eq!(result.len(), 2);
    assert_eq!(
        result.get("\u{4fe1}\u{53f7}-31"),
        Some(&SignalMapping { cache_size: 8, id: 31, numb: true })
    );
    assert_eq!(result.get("state"), Some(&SignalMapping { cache_size: 8, id: 32, numb: false }));
    assert_eq!(result.get("other"), None);
}

#[test]
fn test_storage() {
    let entries = vec![signal("\u{4fe1}\u{53f7}-31", 31, NUMERIC)];
    let dt = batch("1", "1", 1_700_000_000, vec![row("\u{4fe1}\u{53f7}-31", "1")]);
    let plan = storage_data_row(&dt, "MQTT", "iot", Some(&entries), 1_700_000_003).unwrap();
    assert_eq!(plan.bucket, "iot_MQTT_1");
    assert_eq!(plan.measurement, "MQTT_1_1");
    assert_eq!(plan.storage_time, 1_700_000_003);
    assert_eq!(plan.fields.len(), 4);
    assert_eq!(plan.fields.get("storage_time"), Some(&DataValue::Integer(1_700_000_003)));
    assert_eq!(plan.fields.get("push_time"), Some(&DataValue::Integer(1_700_000_000)));
    assert_eq!(plan.fields.get("transmission_latency"), Some(&DataValue::Integer(3)));
    assert_eq!(plan.fields.get("31"), Some(&DataValue::Float("1".to_string())));
    assert!(plan.skipped.is_empty());
}

#[test]
fn numeric_and_text_round_trip() {
    let entries = vec![signal("temp", 5, NUMERIC), signal("label", 6, TEXT)];
    let dt = batch("101", "ic", 10, vec![row("temp", "3.14"), row("label", "abc")]);
    let plan = storage_data_row(&dt, "MQTT", "iot", Some(&entries), 12).unwrap();
    match plan.fields.get("5") {
        Some(DataValue::Float(text)) => {
            assert_eq!(text, "3.14");
            assert_eq!(text.parse::<f64>().unwrap(), 3.14);
        }
        other => panic!("field 5 is {:?}", other),
    }
    assert_eq!(plan.fields.get("6"), Some(&DataValue::Text("abc".to_string())));
}

#[test]
fn example_device_101() {
    let dt = batch("101", "pump-7", 0, vec![]);
    let plan = storage_data_row(&dt, "MQTT", "iot", Some(&vec![]), 0).unwrap();
    assert_eq!(plan.bucket, "iot_MQTT_1");
    assert_eq!(plan.measurement, "MQTT_101_pump-7");
    assert_eq!(field_names(&plan), vec!["push_time", "storage_time", "transmission_latency"]);
    assert_eq!(plan.fields.get("transmission_latency"), Some(&DataValue::Integer(0)));
}

#[test]
fn field_set_is_schema_signals_plus_time_fields() {
    let entries = vec![
        signal("a", 1, NUMERIC),
        signal("b", 2, TEXT),
        signal("c", 3, NUMERIC),
        signal("unused", 4, TEXT),
    ];
    let dt = batch(
        "250",
        "x",
        100,
        vec![row("a", "1.5"), row("ghost", "9"), row("b", "on"), row("c", "not a number")],
    );
    let plan = storage_data_row(&dt, "TCP", "iot", Some(&entries), 160).unwrap();
    assert_eq!(
        field_names(&plan),
        vec!["1", "2", "push_time", "storage_time", "transmission_latency"]
    );
    assert_eq!(plan.fields.get("1"), Some(&DataValue::Float("1.5".to_string())));
    assert_eq!(plan.fields.get("2"), Some(&DataValue::Text("on".to_string())));
    assert_eq!(plan.fields.get("3"), None);
    assert_eq!(plan.fields.get("4"), None);
    assert_eq!(plan.fields.get("transmission_latency"), Some(&DataValue::Integer(60)));
    assert_eq!(
        plan.skipped,
        vec![
            SkippedField { name: "ghost".to_string(), reason: SkipReason::UnknownSignal },
            SkippedField { name: "c".to_string(), reason: SkipReason::FieldParseError },
        ]
    );
    assert_eq!(plan.bucket, "iot_TCP_50");
}

#[test]
fn later_reading_of_a_field_counts() {
    let entries = vec![signal("a", 1, TEXT), signal("alias", 1, TEXT)];
    let dt = batch("1", "x", 0, vec![row("a", "first"), row("alias", "second"), row("a", "third")]);
    let plan = storage_data_row(&dt, "MQTT", "iot", Some(&entries), 0).unwrap();
    assert_eq!(plan.fields.len(), 4);
    assert_eq!(plan.fields.get("1"), Some(&DataValue::Text("third".to_string())));
}

#[test]
fn negative_field_ids_and_latency() {
    let entries = vec![signal("a", -12, TEXT)];
    let dt = batch("1", "x", 50, vec![row("a", "v")]);
    let plan = storage_data_row(&dt, "MQTT", "iot", Some(&entries), 20).unwrap();
    assert_eq!(plan.fields.get("-12"), Some(&DataValue::Text("v".to_string())));
    assert_eq!(plan.fields.get("transmission_latency"), Some(&DataValue::Integer(-30)));
}

#[test]
fn empty_schema_drops_every_signal() {
    let dt = batch("7", "x", 1, vec![row("a", "1"), row("b", "2")]);
    let plan = storage_data_row(&dt, "MQTT", "iot", Some(&vec![None, None]), 2).unwrap();
    assert_eq!(field_names(&plan), vec!["push_time", "storage_time", "transmission_latency"]);
    assert_eq!(plan.skipped.len(), 2);
    assert_eq!(plan.skipped[0].reason, SkipReason::UnknownSignal);
    assert_eq!(plan.skipped[1].name, "b");
}

#[test]
fn invalid_device_id_is_an_error() {
    for uid in ["", "abc", "-1", "1.0", "4294967296", " 1"] {
        let dt = batch(uid, "x", 1, vec![]);
        let result = storage_data_row(&dt, "MQTT", "iot", Some(&vec![]), 2);
        assert_eq!(result.err(), Some(StorageError::InvalidDeviceId), "uid {:?}", uid);
    }
}

#[test]
fn unreachable_schema_is_an_error() {
    let dt = batch("1", "x", 1, vec![row("a", "1")]);
    assert_eq!(
        storage_data_row(&dt, "MQTT", "iot", None, 2).err(),
        Some(StorageError::SchemaUnavailable)
    );
    let bad = batch("not a number", "x", 1, vec![]);
    assert_eq!(
        storage_data_row(&bad, "MQTT", "iot", None, 2).err(),
        Some(StorageError::SchemaUnavailable)
    );
}

#[test]
fn latency_out_of_range_is_an_error() {
    for (push_time, now) in
        [(i64::MIN, 0), (i64::MIN, i64::MAX), (i64::MAX, -2), (1, i64::MIN), (-1, i64::MAX)]
    {
        let dt = batch("1", "x", push_time, vec![]);
        assert_eq!(
            storage_data_row(&dt, "MQTT", "iot", Some(&vec![]), now).err(),
            Some(StorageError::ClockOutOfRange),
            "pushed at {} stored at {}",
            push_time,
            now
        );
    }
}

#[test]
fn errors_come_in_order() {
    let bad_uid_far_away = batch("abc", "x", i64::MIN, vec![]);
    assert_eq!(
        storage_data_row(&bad_uid_far_away, "MQTT", "iot", None, 0).err(),
        Some(StorageError::SchemaUnavailable)
    );
    assert_eq!(
        storage_data_row(&bad_uid_far_away, "MQTT", "iot", Some(&vec![]), 0).err(),
        Some(StorageError::InvalidDeviceId)
    );
}

#[test]
fn latency_at_the_edges_of_the_range() {
    for (push_time, now) in [(0, i64::MIN), (0, i64::MAX), (i64::MAX, -1), (i64::MIN, -1), (1, i64::MAX)] {
        let dt = batch("1", "x", push_time, vec![]);
        let plan = storage_data_row(&dt, "MQTT", "iot", Some(&vec![]), now).unwrap();
        assert_eq!(plan.storage_time, now);
        assert_eq!(plan.fields.get("storage_time"), Some(&DataValue::Integer(now)));
        assert_eq!(plan.fields.get("push_time"), Some(&DataValue::Integer(push_time)));
        assert_eq!(
            plan.fields.get("transmission_latency"),
            Some(&DataValue::Integer(now - push_time))
        );
    }
}

#[test]
fn valid_batch_gives_one_write() {
    let entries = vec![signal("a", 1, NUMERIC)];
    let dt = batch("42", "x", 1_700_000_000, vec![row("a", "2.5")]);
    let plan = storage_data_row(&dt, "MQTT", "iot", Some(&entries), 1_700_000_001).unwrap();
    assert_eq!(plan.bucket, "iot_MQTT_42");
    assert_eq!(plan.fields.len(), 4);
    assert_eq!(write_outcome(true), Ok(()));
}

#[test]
fn protocol_of_a_batch() {
    let mut dt = batch("1", "x", 0, vec![]);
    assert_eq!(protocol_of(&dt), "MQTT");
    dt.protocol = Some("TCP".to_string());
    assert_eq!(protocol_of(&dt), "TCP");
    dt.protocol = Some(String::new());
    assert_eq!(protocol_of(&dt), "");
    dt.protocol = None;
    assert_eq!(protocol_of(&dt), "MQTT");
}

#[test]
fn write_outcomes() {
    assert_eq!(write_outcome(true), Ok(()));
    assert_eq!(write_outcome(false), Err(StorageError::WriteFailed));
}

#[test]
fn numeric_kind_label() {
    assert!(is_numeric_kind(NUMERIC));
    assert!(!is_numeric_kind(TEXT));
    assert!(!is_numeric_kind(""));
    assert!(!is_numeric_kind("numeric"));
    assert!(!is_numeric_kind("\u{6570}"));
    for label in ["", "a", "A", "\u{6570}", "\u{6570}\u{5b57}", "\u{6570}\u{5b57} ", "\u{6587}\u{672c}", "\u{e6}\u{95}"] {
        assert_eq!(is_numeric_kind(label), label.eq_ignore_ascii_case(NUMERIC), "{:?}", label);
    }
}
