//! The claim protocol on the idempotency table, and the bounded poll.

use zero2prod::idempotency::{
    poll_decision, ClaimOutcome, IdempotencyKey, KeyError, PollDecision,
};
use zero2prod::snapshot::see_other;
use zero2prod::store::{DurableState, IdempotencyStore};

fn key(raw: &str) -> IdempotencyKey {
    IdempotencyKey::try_new(raw.to_owned()).unwrap()
}

#[test]
fn key_validation_rejects_empty_and_overlong_keys() {
    assert!(matches!(IdempotencyKey::try_new(String::new()), Err(KeyError::Empty)));
    assert!(matches!(IdempotencyKey::try_new("k".repeat(51)), Err(KeyError::TooLong)));
    let accepted = IdempotencyKey::try_new("k".repeat(50)).unwrap();
    assert_eq!(accepted.raw().len(), 50);
    assert!(IdempotencyKey::try_new("K1".to_owned()).is_ok());
}

#[test]
fn first_claim_wins_and_second_observes_it_pending() {
    let mut store = IdempotencyStore { records: Vec::new() };
    let k = key("K1");
    assert!(matches!(store.try_claim(9, &k, 1000), ClaimOutcome::Claimed));
    // a concurrent identical request cannot claim the same slot
    assert!(matches!(store.try_claim(9, &k, 1001), ClaimOutcome::Pending));
    assert_eq!(store.records.len(), 1);
}

#[test]
fn completion_makes_the_snapshot_available_to_later_claims() {
    let mut store = IdempotencyStore { records: Vec::new() };
    let k = key("K1");
    assert!(matches!(store.try_claim(9, &k, 1000), ClaimOutcome::Claimed));
    store.complete(9, &k, see_other("/admin/newsletters"));

    match store.try_claim(9, &k, 1002) {
        ClaimOutcome::AlreadyCompleted(snap) => {
            assert_eq!(snap.status, 303);
            assert_eq!(snap.headers[0].name, "Location");
            assert_eq!(snap.headers[0].value, "/admin/newsletters");
        },
        _ => panic!("expected the stored snapshot"),
    }
    let saved = store.get_saved_response(9, &k).unwrap();
    assert_eq!(saved.status, 303);
}

#[test]
fn keys_are_scoped_per_principal() {
    let mut store = IdempotencyStore { records: Vec::new() };
    let k = key("shared-key");
    assert!(matches!(store.try_claim(1, &k, 0), ClaimOutcome::Claimed));
    // the same literal key under another principal is a different slot
    assert!(matches!(store.try_claim(2, &k, 0), ClaimOutcome::Claimed));
    assert_eq!(store.records.len(), 2);
}

#[test]
fn get_saved_response_sees_nothing_before_completion() {
    let mut store = IdempotencyStore { records: Vec::new() };
    let k = key("K1");
    assert!(store.get_saved_response(4, &k).is_none());
    store.try_claim(4, &k, 0);
    assert!(store.get_saved_response(4, &k).is_none());
}

#[test]
fn poll_replays_waits_and_gives_up_at_the_bound() {
    match poll_decision(Some(see_other("/admin/newsletters")), 0) {
        PollDecision::Replay(snap) => assert_eq!(snap.status, 303),
        _ => panic!("a saved response must be replayed"),
    }
    assert!(matches!(poll_decision(None, 3), PollDecision::Wait));
    assert!(matches!(poll_decision(None, 0), PollDecision::GiveUp));
}

#[test]
fn fresh_state_satisfies_every_table_empty() {
    let state = DurableState::new();
    assert_eq!(state.subscribers.len(), 0);
    assert_eq!(state.idempotency.records.len(), 0);
    assert_eq!(state.issues.len(), 0);
    assert_eq!(state.queue.len(), 0);
    assert_eq!(state.delivery_log.len(), 0);
}
