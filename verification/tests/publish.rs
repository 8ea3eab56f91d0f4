//! Scenarios for the publish command: idempotent creation, duplicate
//! submissions, and input validation.

use zero2prod::executor::{publish_newsletter, CommandOutcome, PublishNewsletterFormData};
use zero2prod::idempotency::KeyError;
use zero2prod::snapshot::ResponseSnapshot;
use zero2prod::store::DurableState;
use zero2prod::subscriptions::{confirm, subscribe, Parameters, SubscribeFormData};

fn form(title: &str, text: &str, html: &str, key: &str) -> PublishNewsletterFormData {
    PublishNewsletterFormData {
        title: title.to_owned(),
        content_text: text.to_owned(),
        content_html: html.to_owned(),
        idempotency_key: key.to_owned(),
    }
}

fn add_confirmed_subscriber(state: &mut DurableState, email: &str, name: &str) {
    let form = SubscribeFormData { email: email.to_owned(), name: name.to_owned() };
    subscribe(state, &form).unwrap();
    let token = state.subscribers.last().unwrap().token.clone();
    confirm(state, &Parameters { subscription_token: token }).unwrap();
}

fn add_pending_subscriber(state: &mut DurableState, email: &str, name: &str) {
    let form = SubscribeFormData { email: email.to_owned(), name: name.to_owned() };
    subscribe(state, &form).unwrap();
}

fn snapshot_of(outcome: CommandOutcome) -> ResponseSnapshot {
    match outcome {
        CommandOutcome::Executed(snap) => snap,
        CommandOutcome::Replayed(snap) => snap,
        _ => panic!("expected a response-carrying outcome"),
    }
}

fn assert_same_response(a: &ResponseSnapshot, b: &ResponseSnapshot) {
    assert_eq!(a.status, b.status);
    assert_eq!(a.headers.len(), b.headers.len());
    for i in 0..a.headers.len() {
        assert_eq!(a.headers[i].name, b.headers[i].name);
        assert_eq!(a.headers[i].value, b.headers[i].value);
    }
    assert_eq!(a.body, b.body);
}

#[test]
fn first_publish_writes_one_issue_and_fans_out_to_eligible_recipients() {
    // Principal "alice", key "K1": the first call returns the redirect and
    // creates one issue plus one task per confirmed recipient; the second
    // call with the same key replays the stored response and writes nothing.
    let alice: u128 = 1;
    let mut state = DurableState::new();
    add_confirmed_subscriber(&mut state, "first@example.com", "First");
    add_confirmed_subscriber(&mut state, "second@example.com", "Second");
    add_pending_subscriber(&mut state, "third@example.com", "Third");

    let payload = form("T", "a", "<p>a</p>", "K1");
    let first = publish_newsletter(&mut state, alice, &payload);
    let first_snap = snapshot_of(first);
    assert_eq!(first_snap.status, 303);
    assert_eq!(first_snap.headers.len(), 1);
    assert_eq!(first_snap.headers[0].name, "Location");
    assert_eq!(first_snap.headers[0].value, "/admin/newsletters");
    assert_eq!(state.issues.len(), 1);
    assert_eq!(state.issues[0].title, "T");
    // fan-out reaches exactly the recipients confirmed at commit time
    assert_eq!(state.queue.len(), 2);

    let second = publish_newsletter(&mut state, alice, &payload);
    assert!(matches!(second, CommandOutcome::Replayed(_)));
    let second_snap = snapshot_of(second);
    assert_same_response(&first_snap, &second_snap);
    assert_eq!(state.issues.len(), 1);
    assert_eq!(state.queue.len(), 2);
}

#[test]
fn newsletter_creation_is_idempotent() {
    // A retry with the same key but a different payload still replays the
    // stored response: no second issue appears.
    let principal: u128 = 7;
    let mut state = DurableState::new();
    add_confirmed_subscriber(&mut state, "reader@example.com", "Reader");

    let first = publish_newsletter(
        &mut state,
        principal,
        &form("Newsletter title", "Newsletter body as plain text", "<p>Newsletter body as HTML</p>", "K1"),
    );
    let first_snap = snapshot_of(first);
    assert_eq!(state.issues.len(), 1);

    let retry = publish_newsletter(
        &mut state,
        principal,
        &form("A different title", "other text", "<p>other html</p>", "K1"),
    );
    assert!(matches!(retry, CommandOutcome::Replayed(_)));
    let retry_snap = snapshot_of(retry);
    assert_same_response(&first_snap, &retry_snap);
    assert_eq!(state.issues.len(), 1);
}

#[test]
fn concurrent_form_submission_is_handled_gracefully() {
    // Two identical submissions with key "K2": both observe the identical
    // response and exactly one issue row exists afterwards.
    let principal: u128 = 7;
    let mut state = DurableState::new();
    add_confirmed_subscriber(&mut state, "reader@example.com", "Reader");

    let payload = form("Newsletter title", "Newsletter body as plain text", "<p>Newsletter body as HTML</p>", "K2");
    let first = publish_newsletter(&mut state, principal, &payload);
    let second = publish_newsletter(&mut state, principal, &payload);
    let first_snap = snapshot_of(first);
    let second_snap = snapshot_of(second);
    assert_same_response(&first_snap, &second_snap);
    assert_eq!(state.issues.len(), 1);
}

#[test]
fn empty_idempotency_key_is_rejected_and_writes_nothing() {
    let principal: u128 = 3;
    let mut state = DurableState::new();
    add_confirmed_subscriber(&mut state, "reader@example.com", "Reader");

    let outcome = publish_newsletter(&mut state, principal, &form("T", "a", "<p>a</p>", ""));
    assert!(matches!(outcome, CommandOutcome::Rejected(KeyError::Empty)));
    assert_eq!(state.issues.len(), 0);
    assert_eq!(state.queue.len(), 0);
    assert_eq!(state.idempotency.records.len(), 0);
}

#[test]
fn overlong_idempotency_key_is_rejected() {
    let principal: u128 = 3;
    let mut state = DurableState::new();
    let long_key: String = "k".repeat(51);
    let outcome = publish_newsletter(&mut state, principal, &form("T", "a", "<p>a</p>", &long_key));
    assert!(matches!(outcome, CommandOutcome::Rejected(KeyError::TooLong)));
    assert_eq!(state.idempotency.records.len(), 0);
}

#[test]
fn same_key_under_different_principals_does_not_collide() {
    let alice: u128 = 1;
    let bob: u128 = 2;
    let mut state = DurableState::new();
    add_confirmed_subscriber(&mut state, "reader@example.com", "Reader");

    let payload = form("T", "a", "<p>a</p>", "K1");
    let first = publish_newsletter(&mut state, alice, &payload);
    assert!(matches!(first, CommandOutcome::Executed(_)));
    let second = publish_newsletter(&mut state, bob, &payload);
    assert!(matches!(second, CommandOutcome::Executed(_)));
    assert_eq!(state.issues.len(), 2);
}

#[test]
fn newsletters_are_not_delivered_to_unconfirmed_subscribers() {
    let principal: u128 = 7;
    let mut state = DurableState::new();
    add_pending_subscriber(&mut state, "pending@example.com", "Pending");

    let outcome = publish_newsletter(
        &mut state,
        principal,
        &form("Newsletter title", "Newsletter body as plain text", "<p>Newsletter body as HTML</p>", "K9"),
    );
    assert!(matches!(outcome, CommandOutcome::Executed(_)));
    assert_eq!(state.issues.len(), 1);
    assert_eq!(state.queue.len(), 0);
}

#[test]
fn newsletters_are_delivered_to_confirmed_subscribers() {
    let principal: u128 = 7;
    let mut state = DurableState::new();
    add_confirmed_subscriber(&mut state, "confirmed@example.com", "Confirmed");

    let outcome = publish_newsletter(
        &mut state,
        principal,
        &form("Newsletter title", "Newsletter body as plain text", "<p>Newsletter body as HTML</p>", "K9"),
    );
    assert!(matches!(outcome, CommandOutcome::Executed(_)));
    assert_eq!(state.queue.len(), 1);
    assert_eq!(state.queue[0].recipient, "confirmed@example.com");
    assert_eq!(state.queue[0].issue_id, state.issues[0].id);
}
