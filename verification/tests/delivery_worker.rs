//! Scenarios for the delivery worker: draining the queue, transient retries
//! and permanent skips, each obligation settled exactly once.

use zero2prod::delivery::DeliveryOutcome;
use zero2prod::executor::{publish_newsletter, PublishNewsletterFormData};
use zero2prod::store::DurableState;
use zero2prod::subscriptions::{confirm, subscribe, Parameters, SubscribeFormData};

fn state_with_confirmed(addresses: &[&str]) -> DurableState {
    let mut state = DurableState::new();
    for (i, address) in addresses.iter().enumerate() {
        let form = SubscribeFormData {
            email: (*address).to_owned(),
            name: format!("Subscriber {}", i),
        };
        subscribe(&mut state, &form).unwrap();
        let token = state.subscribers.last().unwrap().token.clone();
        confirm(&mut state, &Parameters { subscription_token: token }).unwrap();
    }
    let payload = PublishNewsletterFormData {
        title: "Newsletter title".to_owned(),
        content_text: "Newsletter body as plain text".to_owned(),
        content_html: "<p>Newsletter body as HTML</p>".to_owned(),
        idempotency_key: "K1".to_owned(),
    };
    publish_newsletter(&mut state, 1, &payload);
    state
}

#[test]
fn draining_the_queue_settles_each_recipient_exactly_once() {
    let mut state = state_with_confirmed(&["a@example.com", "b@example.com", "c@example.com"]);
    assert_eq!(state.queue.len(), 3);

    while let Some(_task) = state.claim_next_task() {
        state.record_outcome(DeliveryOutcome::Delivered);
    }
    assert_eq!(state.queue.len(), 0);
    assert_eq!(state.delivery_log.len(), 3);
    for address in ["a@example.com", "b@example.com", "c@example.com"] {
        let hits = state
            .delivery_log
            .iter()
            .filter(|d| d.recipient == address && d.delivered)
            .count();
        assert_eq!(hits, 1);
    }
}

#[test]
fn transient_failure_requeues_the_task_at_the_tail() {
    let mut state = state_with_confirmed(&["a@example.com", "b@example.com"]);
    let head = state.claim_next_task().unwrap();
    assert_eq!(head.recipient, "a@example.com");

    state.record_outcome(DeliveryOutcome::TransientFailure);
    // nothing terminal happened, the task moved behind the other one
    assert_eq!(state.queue.len(), 2);
    assert_eq!(state.delivery_log.len(), 0);
    assert_eq!(state.queue[0].recipient, "b@example.com");
    assert_eq!(state.queue[1].recipient, "a@example.com");
}

#[test]
fn retry_after_transient_failure_delivers_exactly_once() {
    let mut state = state_with_confirmed(&["a@example.com", "b@example.com"]);

    // first attempt at a@example.com fails transiently, everything else
    // succeeds, the retry succeeds
    state.record_outcome(DeliveryOutcome::TransientFailure);
    state.record_outcome(DeliveryOutcome::Delivered); // b@example.com
    state.record_outcome(DeliveryOutcome::Delivered); // a@example.com, retried

    assert_eq!(state.queue.len(), 0);
    let a_hits = state
        .delivery_log
        .iter()
        .filter(|d| d.recipient == "a@example.com" && d.delivered)
        .count();
    assert_eq!(a_hits, 1);
    // the other recipient was unaffected by the failure
    let b_hits = state
        .delivery_log
        .iter()
        .filter(|d| d.recipient == "b@example.com" && d.delivered)
        .count();
    assert_eq!(b_hits, 1);
}

#[test]
fn permanent_failure_drops_the_task_and_records_the_skip() {
    let mut state = state_with_confirmed(&["bad@example.com", "good@example.com"]);

    state.record_outcome(DeliveryOutcome::PermanentFailure); // bad@example.com
    state.record_outcome(DeliveryOutcome::Delivered); // good@example.com

    assert_eq!(state.queue.len(), 0);
    assert_eq!(state.delivery_log.len(), 2);
    let bad = state
        .delivery_log
        .iter()
        .find(|d| d.recipient == "bad@example.com")
        .unwrap();
    assert!(!bad.delivered);
    let good = state
        .delivery_log
        .iter()
        .find(|d| d.recipient == "good@example.com")
        .unwrap();
    assert!(good.delivered);
}

#[test]
fn idle_worker_observes_an_empty_queue() {
    let state = DurableState::new();
    assert!(state.claim_next_task().is_none());
}
