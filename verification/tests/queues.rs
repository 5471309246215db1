use iot_ingest::clock::elapsed_seconds;
use iot_ingest::queues::{
    ensure_queue_exists, passive_declare, queue_name, Bootstrap, QueueDeclare, QUEUE_COUNT,
};

#[test]
fn existing_queue_is_found() {
    let reply: Result<u32, String> = Ok(0);
    assert!(ensure_queue_exists(&reply));
}

#[test]
fn missing_queue_is_not_found_and_not_created() {
    let reply: Result<u32, String> = Err("NOT_FOUND - no queue 'calc_queue'".to_string());
    assert!(!ensure_queue_exists(&reply));
    let request = passive_declare("calc_queue");
    assert_eq!(
        request,
        QueueDeclare {
            queue: "calc_queue".to_string(),
            passive: true,
            durable: false,
            exclusive: false,
            auto_delete: false,
            nowait: false,
        }
    );
}

#[test]
fn well_known_queues_in_order() {
    let names: Vec<&str> = (0..QUEUE_COUNT).map(queue_name).collect();
    assert_eq!(
        names,
        vec![
            "calc_queue",
            "waring_handler",
            "waring_notice",
            "transmit_handler",
            "waring_delay_handler",
            "pre_handler",
            "pre_tcp_handler",
            "pre_http_handler",
            "pre_ws_handler",
            "pre_coap_handler",
        ]
    );
}

#[test]
fn bootstrap_checks_every_queue_once_in_order() {
    let mut bootstrap = Bootstrap::new();
    let mut asked = Vec::new();
    while let Some(request) = bootstrap.next_check() {
        assert!(request.passive);
        assert!(!bootstrap.complete());
        assert!(!bootstrap.may_consume("calc_queue"));
        asked.push(request.queue.clone());
        bootstrap.record(request.queue != "waring_notice");
    }
    assert_eq!(asked.len(), QUEUE_COUNT);
    assert_eq!(asked[0], "calc_queue");
    assert_eq!(asked[9], "pre_coap_handler");
    assert!(bootstrap.complete());
    assert!(bootstrap.may_consume("calc_queue"));
    assert!(bootstrap.may_consume("pre_coap_handler"));
    assert!(!bootstrap.may_consume("waring_notice"));
    assert!(!bootstrap.may_consume("unknown_queue"));
    bootstrap.record(true);
    assert!(bootstrap.next_check().is_none());
    assert!(!bootstrap.may_consume("waring_notice"));
}

#[test]
fn elapsed_seconds_checks_the_range() {
    assert_eq!(elapsed_seconds(10, 3), Some(7));
    assert_eq!(elapsed_seconds(3, 10), Some(-7));
    assert_eq!(elapsed_seconds(i64::MAX, i64::MIN), None);
    assert_eq!(elapsed_seconds(i64::MIN, 1), None);
    assert_eq!(elapsed_seconds(-1, i64::MIN), Some(i64::MAX));
    assert_eq!(elapsed_seconds(0, i64::MIN), None);
}
