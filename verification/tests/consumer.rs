use iot_ingest::consumer::{
    acknowledges, on_delivery, storage_outcome, AckPolicy, ConsumerStep, Delivery, HandlerOutcome,
};
use iot_ingest::storage::StorageError;

#[test]
fn utf8_payload_goes_to_the_handler() {
    let step = on_delivery(Delivery::Message { delivery_tag: 7, data: b"{\"time\":1}".to_vec() });
    assert_eq!(step, ConsumerStep::Handle { delivery_tag: 7, text: "{\"time\":1}".to_string() });
}

#[test]
fn utf8_payload_is_decoded() {
    let data = vec![0xe4, 0xbf, 0xa1, 0xe5, 0x8f, 0xb7, 0x2d, 0x33, 0x31];
    let step = on_delivery(Delivery::Message { delivery_tag: 1, data });
    assert_eq!(
        step,
        ConsumerStep::Handle { delivery_tag: 1, text: "\u{4fe1}\u{53f7}-31".to_string() }
    );
    let step = on_delivery(Delivery::Message { delivery_tag: 2, data: vec![] });
    assert_eq!(step, ConsumerStep::Handle { delivery_tag: 2, text: String::new() });
}

#[test]
fn malformed_payload_is_acknowledged_unhandled() {
    for data in [vec![0xff], vec![0x61, 0x80], vec![0xe4, 0xbf], vec![0xed, 0xa0, 0x80], vec![0xc0, 0xaf]] {
        let step = on_delivery(Delivery::Message { delivery_tag: 9, data });
        assert_eq!(step, ConsumerStep::Acknowledge { delivery_tag: 9 });
    }
}

#[test]
fn delivery_error_is_passed_over() {
    assert_eq!(on_delivery(Delivery::Error), ConsumerStep::Continue);
}

#[test]
fn storage_results_are_classified() {
    assert_eq!(storage_outcome(&Ok(())), HandlerOutcome::Processed);
    assert_eq!(
        storage_outcome(&Err(StorageError::SchemaUnavailable)),
        HandlerOutcome::StoreFailed
    );
    assert_eq!(storage_outcome(&Err(StorageError::WriteFailed)), HandlerOutcome::StoreFailed);
    assert_eq!(storage_outcome(&Err(StorageError::InvalidDeviceId)), HandlerOutcome::Rejected);
    assert_eq!(storage_outcome(&Err(StorageError::ClockOutOfRange)), HandlerOutcome::Rejected);
}

#[test]
fn acknowledgment_policies() {
    for outcome in [HandlerOutcome::Processed, HandlerOutcome::Rejected, HandlerOutcome::StoreFailed] {
        assert!(acknowledges(AckPolicy::Always, outcome));
    }
    assert!(acknowledges(AckPolicy::WithholdOnStoreFailure, HandlerOutcome::Processed));
    assert!(acknowledges(AckPolicy::WithholdOnStoreFailure, HandlerOutcome::Rejected));
    assert!(!acknowledges(AckPolicy::WithholdOnStoreFailure, HandlerOutcome::StoreFailed));
}
