use iot_ingest::naming::{
    address_index, calc_bucket_name, device_index, gen_measurement, liveness_record_key,
    node_listen_address, peer_uid, signal_list_key,
};

#[test]
fn bucket_of_device_101() {
    assert_eq!(calc_bucket_name("iot", "MQTT", 101), "iot_MQTT_1");
}

#[test]
fn measurement_of_device_101() {
    assert_eq!(gen_measurement("101", "abc", "MQTT"), "MQTT_101_abc");
}

#[test]
fn bucket_name_is_stable() {
    let first = calc_bucket_name("iot", "MQTT", 4242);
    for _ in 0..10 {
        assert_eq!(calc_bucket_name("iot", "MQTT", 4242), first);
    }
    assert_eq!(first, "iot_MQTT_42");
}

#[test]
fn congruent_ids_share_a_bucket() {
    assert_eq!(calc_bucket_name("iot", "TCP", 7), calc_bucket_name("iot", "TCP", 107));
    assert_eq!(calc_bucket_name("iot", "TCP", 7), calc_bucket_name("iot", "TCP", 4_294_967_207));
    assert_ne!(calc_bucket_name("iot", "TCP", 7), calc_bucket_name("iot", "TCP", 8));
    for id in 0..1000u32 {
        assert_eq!(calc_bucket_name("p", "q", id), calc_bucket_name("p", "q", id % 100));
        assert_eq!(calc_bucket_name("p", "q", id), format!("p_q_{}", id % 100));
    }
}

#[test]
fn bucket_shards_are_not_padded() {
    assert_eq!(calc_bucket_name("b", "p", 0), "b_p_0");
    assert_eq!(calc_bucket_name("b", "p", 100), "b_p_0");
    assert_eq!(calc_bucket_name("b", "p", 99), "b_p_99");
    assert_eq!(calc_bucket_name("b", "p", u32::MAX), "b_p_95");
    assert_eq!(calc_bucket_name("", "", 5), "__5");
}

#[test]
fn measurement_keeps_the_uid_as_sent() {
    assert_eq!(gen_measurement("+101", "c", "MQTT"), "MQTT_+101_c");
    assert_eq!(gen_measurement("007", "", "TCP"), "TCP_007_");
}

#[test]
fn store_keys() {
    assert_eq!(signal_list_key("1", "2"), "signal:1:2");
    assert_eq!(liveness_record_key("127.0.0.1:5683"), "tcp:last:127.0.0.1@5683");
    assert_eq!(liveness_record_key("[::1]:80"), "tcp:last:[@@1]@80");
    assert_eq!(device_index("node-a"), "tcp_uid:node-a");
    assert_eq!(address_index("node-a"), "tcp_uid_f:node-a");
}

#[test]
fn listen_address_joins_host_and_port() {
    assert_eq!(node_listen_address("0.0.0.0", 8080), "0.0.0.0:8080");
    assert_eq!(node_listen_address("localhost", 0), "localhost:0");
    assert_eq!(node_listen_address("h", 65535), "h:65535");
}

#[test]
fn peer_uid_is_the_part_before_the_first_at() {
    assert_eq!(peer_uid("17@web"), "17");
    assert_eq!(peer_uid("17@web@again"), "17");
    assert_eq!(peer_uid("17"), "17");
    assert_eq!(peer_uid("@x"), "");
    assert_eq!(peer_uid(""), "");
    assert_eq!(peer_uid("a@"), "a");
}
