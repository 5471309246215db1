use iot_ingest::liveness::{
    connection_is_stale, evict, stale_connections, sweep, Observation, STALE_THRESHOLD_SECS,
    SWEEP_INTERVAL_SECS,
};
use iot_ingest::numeral::parse_i64;
use iot_ingest::registry::ConnectionRegistry;
use iot_ingest::session::{refresh_command, StoreCommand};

fn seen(address: &str, record: Option<&str>) -> Observation {
    Observation { address: address.to_string(), record: record.map(|r| r.to_string()) }
}

fn registry_of(addresses: &[&str]) -> ConnectionRegistry<usize> {
    let mut registry = ConnectionRegistry::new();
    for (i, address) in addresses.iter().enumerate() {
        registry.register(address.to_string(), i);
    }
    registry
}

fn record_written_at(address: &str, time: i64) -> String {
    match refresh_command(address, time) {
        StoreCommand::SetString { value, .. } => value,
        other => panic!("not a string write: {:?}", other),
    }
}

#[test]
fn design_defaults() {
    assert_eq!(SWEEP_INTERVAL_SECS, 10);
    assert_eq!(STALE_THRESHOLD_SECS, 10);
}

#[test]
fn staleness_of_a_record() {
    assert!(connection_is_stale(&None, 1000));
    assert!(!connection_is_stale(&Some("1000".to_string()), 1000));
    assert!(!connection_is_stale(&Some("990".to_string()), 1000));
    assert!(connection_is_stale(&Some("989".to_string()), 1000));
    assert!(!connection_is_stale(&Some("2000".to_string()), 1000));
    assert!(!connection_is_stale(&Some("soon".to_string()), 1000));
    assert!(!connection_is_stale(&Some("".to_string()), 1000));
    assert!(!connection_is_stale(&Some("989.5".to_string()), 1000));
    assert!(connection_is_stale(&Some("-9223372036854775808".to_string()), i64::MAX));
    assert!(!connection_is_stale(&Some("9223372036854775807".to_string()), i64::MIN));
}

#[test]
fn connection_without_record_is_evicted_on_the_next_sweep() {
    let mut registry = registry_of(&["a:1", "b:2"]);
    let observations = vec![seen("a:1", None), seen("b:2", Some("1000"))];
    let evicted = sweep(&mut registry, &observations, 1001);
    assert_eq!(evicted.len(), 1);
    assert_eq!(evicted[0].address, "a:1");
    assert_eq!(evicted[0].handle, 0);
    assert!(!registry.contains("a:1"));
    assert!(registry.contains("b:2"));
}

#[test]
fn connection_refreshed_every_nine_seconds_is_never_evicted() {
    let mut registry = registry_of(&["a:1"]);
    let start = 1_700_000_000i64;
    for now in start..start + 200 {
        let last_refresh = now - (now - start) % 9;
        if (now - start) % (SWEEP_INTERVAL_SECS as i64) == 0 {
            let record = record_written_at("a:1", last_refresh);
            let evicted = sweep(&mut registry, &vec![seen("a:1", Some(&record))], now);
            assert!(evicted.is_empty());
        }
    }
    assert!(registry.contains("a:1"));
}

#[test]
fn connection_whose_refresh_stops_is_evicted_in_time() {
    let interval = SWEEP_INTERVAL_SECS as i64;
    for first_sweep in 0..interval {
        for last_refresh in 100..130i64 {
            let mut registry = registry_of(&["a:1"]);
            let record = record_written_at("a:1", last_refresh);
            let mut evicted_at = None;
            let mut now = first_sweep;
            while now <= last_refresh + STALE_THRESHOLD_SECS + interval {
                if now >= last_refresh {
                    let out = sweep(&mut registry, &vec![seen("a:1", Some(&record))], now);
                    if !out.is_empty() {
                        evicted_at = Some(now);
                        break;
                    }
                }
                now += interval;
            }
            let at = evicted_at.expect("evicted");
            assert!(at > last_refresh + STALE_THRESHOLD_SECS);
            assert!(at <= last_refresh + STALE_THRESHOLD_SECS + interval);
        }
    }
}

#[test]
fn decisions_are_collected_in_the_order_of_the_observations() {
    let observations = vec![
        seen("a:1", Some("100")),
        seen("b:2", None),
        seen("c:3", Some("89")),
        seen("d:4", Some("garbage")),
        seen("e:5", Some("90")),
    ];
    assert_eq!(stale_connections(&observations, 100), vec!["b:2", "c:3"]);
    assert_eq!(stale_connections(&observations, 101), vec!["b:2", "c:3", "e:5"]);
    assert_eq!(stale_connections(&vec![], 101), Vec::<String>::new());
}

#[test]
fn sweep_of_an_empty_registry_does_nothing() {
    let mut registry: ConnectionRegistry<usize> = ConnectionRegistry::new();
    assert!(sweep(&mut registry, &vec![], 5).is_empty());
    assert!(sweep(&mut registry, &vec![seen("gone:1", None)], 5).is_empty());
    assert!(registry.is_empty());
}

#[test]
fn sweep_leaves_fresh_and_unobserved_connections() {
    let mut registry = registry_of(&["a:1", "b:2", "c:3", "d:4"]);
    let observations =
        vec![seen("a:1", Some("50")), seen("b:2", Some("100")), seen("d:4", Some("x"))];
    let evicted = sweep(&mut registry, &observations, 105);
    assert_eq!(evicted.len(), 1);
    assert_eq!(evicted[0].address, "a:1");
    assert_eq!(registry.address_list(), vec!["b:2", "c:3", "d:4"]);
    assert_eq!(registry.get("c:3"), Some(&2));
}

#[test]
fn evict_passes_over_repeated_and_unknown_addresses() {
    let mut registry = registry_of(&["a:1", "b:2"]);
    let evicted = evict(
        &mut registry,
        &vec!["b:2".to_string(), "zz:9".to_string(), "b:2".to_string()],
    );
    assert_eq!(evicted.len(), 1);
    assert_eq!(evicted[0].address, "b:2");
    assert_eq!(evicted[0].handle, 1);
    assert_eq!(registry.address_list(), vec!["a:1"]);
}

#[test]
fn liveness_record_reads_back() {
    for time in [0i64, 1_700_000_000, -5, i64::MAX, i64::MIN] {
        assert_eq!(parse_i64(&record_written_at("a:1", time)), Some(time));
    }
}
