//! The recipient directory: subscribing, validation, confirmation by token.

use zero2prod::store::DurableState;
use zero2prod::subscriptions::{
    build_confirmation_email, build_confirmation_link, confirm, get_subscriber_id_from_token,
    subscribe, ConfirmError, Parameters, SubscribeError, SubscribeFormData, SubscribeOutcome,
};

fn form(email: &str, name: &str) -> SubscribeFormData {
    SubscribeFormData { email: email.to_owned(), name: name.to_owned() }
}

#[test]
fn subscribe_persists_the_new_subscriber() {
    let mut state = DurableState::new();
    let outcome = subscribe(&mut state, &form("ursula_le_guin@gmail.com", "le guin")).unwrap();
    assert_eq!(outcome, SubscribeOutcome::Created);
    assert_eq!(state.subscribers.len(), 1);
    let row = &state.subscribers[0];
    assert_eq!(row.email, "ursula_le_guin@gmail.com");
    assert_eq!(row.name, "le guin");
    assert!(!row.confirmed);
    assert_eq!(row.token.len(), 25);
    assert!(row.token.chars().all(|c| c.is_ascii_alphanumeric()));
}

#[test]
fn subscribe_shows_error_when_fields_are_present_but_empty() {
    let mut state = DurableState::new();
    let cases = [
        form("ursula_le_guin@gmail.com", ""),   // empty name
        form("", "Ursula"),                     // empty email
        form("definitely-not-an-email", "Ursula"), // missing '@'
    ];
    for case in cases {
        let e = subscribe(&mut state, &case).unwrap_err();
        assert!(matches!(e, SubscribeError::BadFormData(_)));
        assert_eq!(e.error_id(), "invalid_data");
        assert_eq!(e.status_code(), 400);
    }
    assert_eq!(state.subscribers.len(), 0);
}

#[test]
fn subscribing_twice_with_the_same_address_writes_one_row() {
    let mut state = DurableState::new();
    let data = form("ursula_le_guin@gmail.com", "le guin");
    assert_eq!(subscribe(&mut state, &data).unwrap(), SubscribeOutcome::Created);
    assert_eq!(subscribe(&mut state, &data).unwrap(), SubscribeOutcome::AlreadySubscribed);
    assert_eq!(state.subscribers.len(), 1);
}

#[test]
fn confirmation_token_resolves_to_the_subscriber() {
    let mut state = DurableState::new();
    subscribe(&mut state, &form("reader@example.com", "Reader")).unwrap();
    let token = state.subscribers[0].token.clone();
    let id = get_subscriber_id_from_token(&state, &token).unwrap();
    assert_eq!(id, state.subscribers[0].id);
    assert!(get_subscriber_id_from_token(&state, &"nosuchtoken".to_owned()).is_none());
}

#[test]
fn confirm_marks_exactly_the_token_owner_confirmed() {
    let mut state = DurableState::new();
    subscribe(&mut state, &form("first@example.com", "First")).unwrap();
    subscribe(&mut state, &form("second@example.com", "Second")).unwrap();
    let token = state.subscribers[0].token.clone();

    confirm(&mut state, &Parameters { subscription_token: token }).unwrap();
    assert!(state.subscribers[0].confirmed);
    assert!(!state.subscribers[1].confirmed);
}

#[test]
fn confirm_rejects_an_unknown_token() {
    let mut state = DurableState::new();
    subscribe(&mut state, &form("reader@example.com", "Reader")).unwrap();
    let e = confirm(
        &mut state,
        &Parameters { subscription_token: "0000000000000000000000000".to_owned() },
    )
    .unwrap_err();
    assert!(matches!(e, ConfirmError::UnknownToken));
    assert!(!state.subscribers[0].confirmed);
}

#[test]
fn subscribe_sends_a_confirmation_email_with_a_link() {
    let link = build_confirmation_link("https://example.com", "token123");
    assert_eq!(link, "https://example.com/subscriptions/confirm?subscription_token=token123");

    let (html, plain) = build_confirmation_email("https://example.com", "token123");
    assert_eq!(
        html,
        "Welcome to our newsletter!<br />Click <a href=\"https://example.com/subscriptions/confirm?subscription_token=token123\">here</a> to confirm your subscription.",
    );
    assert_eq!(
        plain,
        "Welcome to our newsletter!\nVisit https://example.com/subscriptions/confirm?subscription_token=token123 to confirm your subscription.",
    );
}

#[test]
fn subscribe_error_ids_match_their_statuses() {
    let db = SubscribeError::DatabaseError("collision".to_owned());
    assert_eq!(db.error_id(), "internal");
    assert_eq!(db.status_code(), 500);
    let send = SubscribeError::SendConfirmationEmailError("unreachable".to_owned());
    assert_eq!(send.error_id(), "send_confirmation_email");
    assert_eq!(send.status_code(), 500);
}
