//! The decisions of a queue consumer: what to do with a delivery, and
//! whether to acknowledge a message once its handler is done.
//!
//! A consumer receives one delivery at a time. A payload that is not UTF-8
//! can never be processed, so it is acknowledged at once and never handed
//! to the handler: redelivering it would loop for ever. Whether a message
//! whose handler failed is acknowledged is a matter of policy, which the
//! consumer is started with.

use vstd::prelude::*;
use vstd::utf8::{decode_utf8, valid_utf8};
use crate::storage::StorageError;

verus! {

/// What the queue hands to a consumer.
#[derive(Debug, Clone, PartialEq, Eq)]
pub enum Delivery {
    Message { delivery_tag: u64, data: Vec<u8> },
    /// The queue reported an error in place of a message.
    Error,
}

/// What the consumer does next.
#[derive(Debug, Clone, PartialEq, Eq)]
pub enum ConsumerStep {
    /// Run the handler on the decoded payload, then decide on the
    /// acknowledgment by `acknowledges`.
    Handle { delivery_tag: u64, text: String },
    /// Acknowledge the message without running the handler: its payload is
    /// malformed.
    Acknowledge { delivery_tag: u64 },
    /// Nothing was delivered: go on with the next delivery.
    Continue,
}

/// How a handler ended.
#[derive(Debug, Clone, Copy, PartialEq, Eq, Structural)]
pub enum HandlerOutcome {
    Processed,
    /// The message itself cannot be processed, now or later.
    Rejected,
    /// A store could not be reached or refused a write; the message could
    /// be processed later.
    StoreFailed,
}

/// When a message is acknowledged after its handler failed.
#[derive(Debug, Clone, Copy, PartialEq, Eq, Structural)]
pub enum AckPolicy {
    /// Every handled message is acknowledged, whatever the outcome: a
    /// failure is logged and the message is not delivered again.
    Always,
    /// A message whose handler failed on a store is not acknowledged, and
    /// the broker delivers it again. Handlers must then bear with
    /// duplicates.
    WithholdOnStoreFailure,
}

/// `String::from_utf8` with the error dropped: the text that `bytes`
/// encode, if they are valid UTF-8, and `None` if they are not.
#[verifier::external_body]
fn text_of_utf8(bytes: Vec<u8>) -> (text: Option<String>)
    ensures
        text is Some <==> valid_utf8(bytes@),
        text matches Some(s) ==> s@ == decode_utf8(bytes@),
{
    String::from_utf8(bytes).ok()
}

/// What is to be done with a delivery.
pub open spec fn step_for(delivery: Delivery, step: ConsumerStep) -> bool {
    match delivery {
        Delivery::Error => step == ConsumerStep::Continue,
        Delivery::Message { delivery_tag, data } => if valid_utf8(data@) {
            &&& step matches ConsumerStep::Handle { delivery_tag: tag, text }
            &&& tag == delivery_tag
            &&& text@ == decode_utf8(data@)
        } else {
            step == ConsumerStep::Acknowledge { delivery_tag }
        },
    }
}

/// Decides what to do with a delivery: hand its text to the handler,
/// acknowledge it unhandled because it is malformed, or go on because the
/// queue delivered an error.
pub fn on_delivery(delivery: Delivery) -> (step: ConsumerStep)
    ensures
        step_for(delivery, step),
{
    match delivery {
        Delivery::Error => ConsumerStep::Continue,
        Delivery::Message { delivery_tag, data } => match text_of_utf8(data) {
            Some(text) => ConsumerStep::Handle { delivery_tag, text },
            None => ConsumerStep::Acknowledge { delivery_tag },
        },
    }
}

/// How the storage handler ended, from what it returned.
pub open spec fn outcome_of(result: Result<(), StorageError>) -> HandlerOutcome {
    match result {
        Ok(_) => HandlerOutcome::Processed,
        Err(StorageError::SchemaUnavailable) => HandlerOutcome::StoreFailed,
        Err(StorageError::WriteFailed) => HandlerOutcome::StoreFailed,
        Err(StorageError::InvalidDeviceId) => HandlerOutcome::Rejected,
        Err(StorageError::ClockOutOfRange) => HandlerOutcome::Rejected,
    }
}

/// Whether a handled message is acknowledged.
pub open spec fn is_acknowledged(policy: AckPolicy, outcome: HandlerOutcome) -> bool {
    policy == AckPolicy::Always || outcome != HandlerOutcome::StoreFailed
}

/// Classifies what the storage handler returned.
pub fn storage_outcome(result: &Result<(), StorageError>) -> (outcome: HandlerOutcome)
    ensures
        outcome == outcome_of(*result),
{
    match result {
        Ok(_) => HandlerOutcome::Processed,
        Err(StorageError::SchemaUnavailable) => HandlerOutcome::StoreFailed,
        Err(StorageError::WriteFailed) => HandlerOutcome::StoreFailed,
        Err(StorageError::InvalidDeviceId) => HandlerOutcome::Rejected,
        Err(StorageError::ClockOutOfRange) => HandlerOutcome::Rejected,
    }
}

/// Decides whether a handled message is acknowledged.
pub fn acknowledges(policy: AckPolicy, outcome: HandlerOutcome) -> (ack: bool)
    ensures
        ack == is_acknowledged(policy, outcome),
{
    match policy {
        AckPolicy::Always => true,
        AckPolicy::WithholdOnStoreFailure => match outcome {
            HandlerOutcome::StoreFailed => false,
            _ => true,
        },
    }
}

/// A message that was processed, and one that can never be processed, is
/// acknowledged under every policy; under `Always`, so is every message.
pub proof fn lemma_acknowledged(policy: AckPolicy, outcome: HandlerOutcome)
    ensures
        outcome != HandlerOutcome::StoreFailed ==> is_acknowledged(policy, outcome),
        is_acknowledged(AckPolicy::Always, outcome),
        !is_acknowledged(AckPolicy::WithholdOnStoreFailure, HandlerOutcome::StoreFailed),
{
}

} // verus!
