//! The recipient directory: subscription requests, confirmation by token, and
//! the set of confirmed recipients the command executor fans out to.

use vstd::prelude::*;
use crate::runtime::{fresh_uuid_u128, is_alphanumeric_char, random_alphanumeric_string, unix_now_millis};
use crate::store::{DurableState, DurableStateV, Subscriber, SubscriberV, lemma_inv_subscribers_only};
use crate::text::string_eq;

verus! {

/// Raw subscription request, as the caller sends it.
pub struct SubscribeFormData {
    pub email: String,
    pub name: String,
}

#[verifier::ext_equal]
pub struct SubscribeFormV {
    pub email: Seq<char>,
    pub name: Seq<char>,
}

impl View for SubscribeFormData {
    type V = SubscribeFormV;

    open spec fn view(&self) -> SubscribeFormV {
        SubscribeFormV { email: self.email@, name: self.name@ }
    }
}

/// A recipient address is accepted when it is non-empty and holds an '@'.
pub open spec fn valid_email(email: Seq<char>) -> bool {
    email.len() > 0 && email.contains('@')
}

/// A subscriber name is accepted when it is non-empty.
pub open spec fn valid_name(name: Seq<char>) -> bool {
    name.len() > 0
}

/// A subscription request with both fields validated.
pub struct NewSubscriber {
    pub email: String,
    pub name: String,
}

/// Why a subscription request failed.
#[derive(Debug)]
pub enum SubscribeError {
    /// The form data was rejected; the message names the offending field.
    BadFormData(String),
    /// The store refused the write (an identifier collision).
    DatabaseError(String),
    /// The confirmation notification could not be handed off.
    SendConfirmationEmailError(String),
}

impl SubscribeError {
    /// The machine-readable identifier callers receive for this error.
    pub fn error_id(&self) -> (r: &'static str)
        ensures
            r@ == match self {
                SubscribeError::BadFormData(_) => "invalid_data"@,
                SubscribeError::DatabaseError(_) => "internal"@,
                SubscribeError::SendConfirmationEmailError(_) => "send_confirmation_email"@,
            },
    {
        match self {
            SubscribeError::BadFormData(_) => "invalid_data",
            SubscribeError::DatabaseError(_) => "internal",
            SubscribeError::SendConfirmationEmailError(_) => "send_confirmation_email",
        }
    }

    /// The response status class this error maps to.
    pub fn status_code(&self) -> (s: u16)
        ensures
            s == match self {
                SubscribeError::BadFormData(_) => 400u16,
                SubscribeError::DatabaseError(_) => 500u16,
                SubscribeError::SendConfirmationEmailError(_) => 500u16,
            },
    {
        match self {
            SubscribeError::BadFormData(_) => 400,
            SubscribeError::DatabaseError(_) => 500,
            SubscribeError::SendConfirmationEmailError(_) => 500,
        }
    }
}

/// Does this address hold an '@'?
fn email_has_at(email: &str) -> (b: bool)
    ensures
        b == email@.contains('@'),
{
    let n = email.unicode_len();
    let mut i: usize = 0;
    while i < n
        invariant
            n == email@.len(),
            i <= n,
            forall|j: int| 0 <= j < i ==> email@[j] != '@',
        decreases n - i,
    {
        if email.get_char(i) == '@' {
            assert(email@[i as int] == '@');
            return true;
        }
        i = i + 1;
    }
    assert(!email@.contains('@'));
    false
}

impl NewSubscriber {
    /// Validate a raw form: accepted exactly when the name is non-empty and
    /// the address is non-empty with an '@' in it.
    pub fn parse(form: &SubscribeFormData) -> (r: Result<NewSubscriber, SubscribeError>)
        ensures
            match r {
                Ok(ns) => valid_email(form.email@) && valid_name(form.name@) && ns.email@
                    == form.email@ && ns.name@ == form.name@,
                Err(e) => !(valid_email(form.email@) && valid_name(form.name@)) && e matches
                    SubscribeError::BadFormData(_),
            },
    {
        if form.name.as_str().is_empty() {
            return Err(SubscribeError::BadFormData("the name is empty".to_owned()));
        }
        if form.email.as_str().is_empty() {
            return Err(SubscribeError::BadFormData("the email is empty".to_owned()));
        }
        if !email_has_at(form.email.as_str()) {
            return Err(SubscribeError::BadFormData("the email is missing an '@'".to_owned()));
        }
        Ok(NewSubscriber { email: form.email.clone(), name: form.name.clone() })
    }
}

/// What a subscription request reports back on success.
#[derive(Clone, Copy, Debug, PartialEq, Eq, Structural)]
pub enum SubscribeOutcome {
    /// A pending subscription row was written and a confirmation token issued.
    Created,
    /// The address is already in the directory; nothing was written.
    AlreadySubscribed,
}

/// The row a fresh subscription inserts: pending until confirmed.
pub open spec fn pending_subscriber_row(
    email: Seq<char>,
    name: Seq<char>,
    id: u128,
    token: Seq<char>,
    now: i64,
) -> SubscriberV {
    SubscriberV { id, email, name, token, confirmed: false, subscribed_at: now }
}

/// Register a subscription request, with the fresh subscriber id, token and
/// time supplied by the caller: reject invalid form data without touching the
/// store, do nothing for an address already present, refuse colliding
/// identifiers as a store error, and otherwise insert the pending row.
pub fn subscribe_with(
    state: &mut DurableState,
    form: &SubscribeFormData,
    subscriber_id: u128,
    token: &String,
    now: i64,
) -> (r: Result<SubscribeOutcome, SubscribeError>)
    requires
        old(state)@.inv(),
    ensures
        final(state)@.inv(),
        !(valid_email(form.email@) && valid_name(form.name@)) ==> (r matches Err(
            SubscribeError::BadFormData(_),
        )) && final(state)@ == old(state)@,
        valid_email(form.email@) && valid_name(form.name@) && old(state)@.has_subscriber_email(
            form.email@,
        ) ==> r == Ok::<SubscribeOutcome, SubscribeError>(SubscribeOutcome::AlreadySubscribed)
            && final(state)@ == old(state)@,
        valid_email(form.email@) && valid_name(form.name@) && !old(state)@.has_subscriber_email(
            form.email@,
        ) && (old(state)@.has_subscriber_id(subscriber_id) || old(state)@.has_token(token@))
            ==> (r matches Err(SubscribeError::DatabaseError(_))) && final(state)@ == old(state)@,
        valid_email(form.email@) && valid_name(form.name@) && !old(state)@.has_subscriber_email(
            form.email@,
        ) && !old(state)@.has_subscriber_id(subscriber_id) && !old(state)@.has_token(token@)
            ==> r == Ok::<SubscribeOutcome, SubscribeError>(SubscribeOutcome::Created)
            && final(state)@ == (DurableStateV {
            subscribers: old(state)@.subscribers.push(
                pending_subscriber_row(form.email@, form.name@, subscriber_id, token@, now),
            ),
            ..old(state)@
        }),
{
    let new_subscriber = match NewSubscriber::parse(form) {
        Ok(ns) => ns,
        Err(e) => {
            return Err(e);
        },
    };
    if state.contains_subscriber_email(&new_subscriber.email) {
        return Ok(SubscribeOutcome::AlreadySubscribed);
    }
    if state.contains_subscriber_id(subscriber_id) {
        return Err(SubscribeError::DatabaseError("subscriber id already in use".to_owned()));
    }
    if state.contains_token(token) {
        return Err(SubscribeError::DatabaseError("subscription token already in use".to_owned()));
    }
    let ghost s0 = state@;
    state.subscribers.push(Subscriber {
        id: subscriber_id,
        email: new_subscriber.email,
        name: new_subscriber.name,
        token: token.clone(),
        confirmed: false,
        subscribed_at: now,
    });
    proof {
        assert(state@.subscribers =~= s0.subscribers.push(
            pending_subscriber_row(form.email@, form.name@, subscriber_id, token@, now),
        ));
        assert(state@ =~= (DurableStateV { subscribers: state@.subscribers, ..s0 }));
        let n = s0.subscribers.len() as int;
        assert forall|a: int, b: int|
            0 <= a < state@.subscribers.len() && 0 <= b < state@.subscribers.len() && a != b
                implies (#[trigger] state@.subscribers[a]).email != (
            #[trigger] state@.subscribers[b]).email && state@.subscribers[a].token
                != state@.subscribers[b].token && state@.subscribers[a].id
                != state@.subscribers[b].id by {
            if a < n && b < n {
                assert(state@.subscribers[a] == s0.subscribers[a]);
                assert(state@.subscribers[b] == s0.subscribers[b]);
            } else if a == n {
                assert(state@.subscribers[b] == s0.subscribers[b]);
            } else {
                assert(b == n);
                assert(state@.subscribers[a] == s0.subscribers[a]);
            }
        }
        lemma_inv_subscribers_only(s0, state@);
    }
    Ok(SubscribeOutcome::Created)
}

/// Predicate of `subscribe`'s outcome when it inserted a fresh pending row:
/// some fresh identifiers and a 25-character token account for the insert.
pub open spec fn subscribed_fresh(
    s0: DurableStateV,
    s1: DurableStateV,
    email: Seq<char>,
    name: Seq<char>,
    id: u128,
    token: Seq<char>,
    now: i64,
) -> bool {
    &&& !s0.has_subscriber_id(id)
    &&& !s0.has_token(token)
    &&& token.len() == 25
    &&& s1 == (DurableStateV {
        subscribers: s0.subscribers.push(pending_subscriber_row(email, name, id, token, now)),
        ..s0
    })
}

/// Handle one subscription request: validate the form, draw a fresh
/// subscriber id and confirmation token, and insert the pending row. The
/// drawn values are arbitrary; an identifier collision is reported as a
/// retryable store error and writes nothing.
pub fn subscribe(state: &mut DurableState, form: &SubscribeFormData) -> (r: Result<
    SubscribeOutcome,
    SubscribeError,
>)
    requires
        old(state)@.inv(),
    ensures
        final(state)@.inv(),
        !(valid_email(form.email@) && valid_name(form.name@)) ==> (r matches Err(
            SubscribeError::BadFormData(_),
        )) && final(state)@ == old(state)@,
        valid_email(form.email@) && valid_name(form.name@) && old(state)@.has_subscriber_email(
            form.email@,
        ) ==> r == Ok::<SubscribeOutcome, SubscribeError>(SubscribeOutcome::AlreadySubscribed)
            && final(state)@ == old(state)@,
        valid_email(form.email@) && valid_name(form.name@) && !old(state)@.has_subscriber_email(
            form.email@,
        ) ==> match r {
            Ok(o) => o == SubscribeOutcome::Created && exists|id: u128, token: Seq<char>, now: i64|
                #[trigger] subscribed_fresh(
                    old(state)@,
                    final(state)@,
                    form.email@,
                    form.name@,
                    id,
                    token,
                    now,
                ),
            Err(e) => e matches SubscribeError::DatabaseError(_) && final(state)@ == old(state)@,
        },
{
    let subscriber_id = fresh_uuid_u128();
    let token = generate_subscription_token();
    let now = unix_now_millis();
    let r = subscribe_with(state, form, subscriber_id, &token, now);
    proof {
        if valid_email(form.email@) && valid_name(form.name@) && !old(state)@
            .has_subscriber_email(form.email@) && !old(state)@.has_subscriber_id(subscriber_id)
            && !old(state)@.has_token(token@) {
            assert(subscribed_fresh(
                old(state)@,
                state@,
                form.email@,
                form.name@,
                subscriber_id,
                token@,
                now,
            ));
        }
    }
    r
}

/// Length of a subscription token, in characters.
pub const TOKEN_LEN: usize = 25;

/// Generate a random case-sensitive alphanumeric subscription token.
fn generate_subscription_token() -> (t: String)
    ensures
        t@.len() == TOKEN_LEN as nat,
        forall|i: int| 0 <= i < t@.len() ==> is_alphanumeric_char(#[trigger] t@[i]),
{
    random_alphanumeric_string(TOKEN_LEN)
}

/// The confirmation link a new subscriber receives.
pub fn build_confirmation_link(base_url: &str, subscription_token: &str) -> (link: String)
    ensures
        link@ == base_url@ + "/subscriptions/confirm?subscription_token="@ + subscription_token@,
{
    let mut link = base_url.to_owned();
    link.append("/subscriptions/confirm?subscription_token=");
    link.append(subscription_token);
    link
}

/// The two bodies of the confirmation email, html first, built around the
/// confirmation link. Handing them to the mail transport is the caller's
/// concern.
pub fn build_confirmation_email(base_url: &str, subscription_token: &str) -> (bodies: (
    String,
    String,
))
    ensures
        ({
            let link = base_url@ + "/subscriptions/confirm?subscription_token="@
                + subscription_token@;
            &&& bodies.0@ == "Welcome to our newsletter!<br />Click <a href=\""@ + link
                + "\">here</a> to confirm your subscription."@
            &&& bodies.1@ == "Welcome to our newsletter!\nVisit "@ + link
                + " to confirm your subscription."@
        }),
{
    let link = build_confirmation_link(base_url, subscription_token);
    let mut html_body = "Welcome to our newsletter!<br />Click <a href=\"".to_owned();
    html_body.append(link.as_str());
    html_body.append("\">here</a> to confirm your subscription.");
    let mut plain_body = "Welcome to our newsletter!\nVisit ".to_owned();
    plain_body.append(link.as_str());
    plain_body.append(" to confirm your subscription.");
    (html_body, plain_body)
}

/// Query string of the confirmation link.
pub struct Parameters {
    pub subscription_token: String,
}

/// Why a confirmation request failed.
#[derive(Debug)]
pub enum ConfirmError {
    /// No pending subscription carries this token.
    UnknownToken,
}

/// The directory after marking every row with this subscriber id confirmed.
pub open spec fn spec_confirm(s: DurableStateV, subscriber_id: u128) -> DurableStateV {
    DurableStateV {
        subscribers: Seq::new(
            s.subscribers.len(),
            |i: int|
                if s.subscribers[i].id == subscriber_id {
                    SubscriberV { confirmed: true, ..s.subscribers[i] }
                } else {
                    s.subscribers[i]
                },
        ),
        ..s
    }
}

impl DurableState {
    /// Is this address already in the directory?
    pub fn contains_subscriber_email(&self, email: &String) -> (b: bool)
        ensures
            b == self@.has_subscriber_email(email@),
    {
        let mut i: usize = 0;
        while i < self.subscribers.len()
            invariant
                i <= self.subscribers.len(),
                forall|j: int| 0 <= j < i ==> (#[trigger] self@.subscribers[j]).email != email@,
            decreases self.subscribers.len() - i,
        {
            if string_eq(&self.subscribers[i].email, email) {
                assert(self@.subscribers[i as int].email == email@);
                return true;
            }
            i = i + 1;
        }
        false
    }

    /// Is this subscriber id already in use?
    pub fn contains_subscriber_id(&self, id: u128) -> (b: bool)
        ensures
            b == self@.has_subscriber_id(id),
    {
        let mut i: usize = 0;
        while i < self.subscribers.len()
            invariant
                i <= self.subscribers.len(),
                forall|j: int| 0 <= j < i ==> (#[trigger] self@.subscribers[j]).id != id,
            decreases self.subscribers.len() - i,
        {
            if self.subscribers[i].id == id {
                assert(self@.subscribers[i as int].id == id);
                return true;
            }
            i = i + 1;
        }
        false
    }

    /// Is this confirmation token already in use?
    pub fn contains_token(&self, token: &String) -> (b: bool)
        ensures
            b == self@.has_token(token@),
    {
        let mut i: usize = 0;
        while i < self.subscribers.len()
            invariant
                i <= self.subscribers.len(),
                forall|j: int| 0 <= j < i ==> (#[trigger] self@.subscribers[j]).token != token@,
            decreases self.subscribers.len() - i,
        {
            if string_eq(&self.subscribers[i].token, token) {
                assert(self@.subscribers[i as int].token == token@);
                return true;
            }
            i = i + 1;
        }
        false
    }
}

/// The subscriber id a confirmation token belongs to, if any.
pub fn get_subscriber_id_from_token(state: &DurableState, token: &String) -> (r: Option<u128>)
    ensures
        match r {
            Some(id) => exists|i: int|
                0 <= i < state@.subscribers.len() && (#[trigger] state@.subscribers[i]).token
                    == token@ && state@.subscribers[i].id == id,
            None => !state@.has_token(token@),
        },
{
    let mut i: usize = 0;
    while i < state.subscribers.len()
        invariant
            i <= state.subscribers.len(),
            forall|j: int| 0 <= j < i ==> (#[trigger] state@.subscribers[j]).token != token@,
        decreases state.subscribers.len() - i,
    {
        if string_eq(&state.subscribers[i].token, token) {
            assert(state@.subscribers[i as int].token == token@);
            return Some(state.subscribers[i].id);
        }
        i = i + 1;
    }
    None
}

/// Mark the subscription with this id confirmed. A no-op when the id is
/// unknown, as the underlying update would be.
pub fn confirm_subscriber(state: &mut DurableState, subscriber_id: u128)
    requires
        old(state)@.inv(),
    ensures
        final(state)@.inv(),
        final(state)@ == spec_confirm(old(state)@, subscriber_id),
{
    let ghost s0 = state@;
    let mut i: usize = 0;
    while i < state.subscribers.len()
        invariant
            i <= state.subscribers.len(),
            state@.subscribers.len() == s0.subscribers.len(),
            forall|j: int|
                i <= j < s0.subscribers.len() ==> (#[trigger] state@.subscribers[j])
                    == s0.subscribers[j],
            forall|j: int|
                0 <= j < i ==> (#[trigger] state@.subscribers[j]) == (
                if s0.subscribers[j].id == subscriber_id {
                    SubscriberV { confirmed: true, ..s0.subscribers[j] }
                } else {
                    s0.subscribers[j]
                }),
            state@.idempotency == s0.idempotency,
            state@.issues == s0.issues,
            state@.queue == s0.queue,
            state@.delivery_log == s0.delivery_log,
        decreases state.subscribers.len() - i,
    {
        if state.subscribers[i].id == subscriber_id {
            let ghost pre = state@.subscribers;
            proof {
                assert(pre[i as int] == s0.subscribers[i as int]);
            }
            let id = state.subscribers[i].id;
            let email = state.subscribers[i].email.clone();
            let name = state.subscribers[i].name.clone();
            let token = state.subscribers[i].token.clone();
            let subscribed_at = state.subscribers[i].subscribed_at;
            state.subscribers.set(i, Subscriber {
                id,
                email,
                name,
                token,
                confirmed: true,
                subscribed_at,
            });
            proof {
                assert(state@.subscribers =~= pre.update(
                    i as int,
                    SubscriberV { confirmed: true, ..s0.subscribers[i as int] },
                ));
            }
        }
        i = i + 1;
    }
    proof {
        assert(state@.subscribers =~= spec_confirm(s0, subscriber_id).subscribers);
        assert(state@ =~= spec_confirm(s0, subscriber_id));
        // uniqueness is untouched: ids, addresses and tokens are unchanged
        assert forall|a: int, b: int|
            0 <= a < state@.subscribers.len() && 0 <= b < state@.subscribers.len() && a != b
                implies (#[trigger] state@.subscribers[a]).email != (
            #[trigger] state@.subscribers[b]).email && state@.subscribers[a].token
                != state@.subscribers[b].token && state@.subscribers[a].id
                != state@.subscribers[b].id by {
            assert(s0.subscribers[a].email == state@.subscribers[a].email
                && s0.subscribers[a].token == state@.subscribers[a].token
                && s0.subscribers[a].id == state@.subscribers[a].id);
            assert(s0.subscribers[b].email == state@.subscribers[b].email
                && s0.subscribers[b].token == state@.subscribers[b].token
                && s0.subscribers[b].id == state@.subscribers[b].id);
        }
        lemma_inv_subscribers_only(s0, state@);
    }
}

/// Confirm a pending subscription by its token: resolve the token to the
/// subscriber and mark that subscription confirmed; an unknown token is
/// rejected and writes nothing.
pub fn confirm(state: &mut DurableState, parameters: &Parameters) -> (r: Result<(), ConfirmError>)
    requires
        old(state)@.inv(),
    ensures
        final(state)@.inv(),
        !old(state)@.has_token(parameters.subscription_token@) ==> r == Err::<(), ConfirmError>(
            ConfirmError::UnknownToken,
        ) && final(state)@ == old(state)@,
        old(state)@.has_token(parameters.subscription_token@) ==> r == Ok::<(), ConfirmError>(())
            && exists|i: int|
            0 <= i < old(state)@.subscribers.len() && (#[trigger] old(state)@.subscribers[i]).token
                == parameters.subscription_token@ && final(state)@ == spec_confirm(
                old(state)@,
                old(state)@.subscribers[i].id,
            ),
{
    match get_subscriber_id_from_token(state, &parameters.subscription_token) {
        None => Err(ConfirmError::UnknownToken),
        Some(subscriber_id) => {
            confirm_subscriber(state, subscriber_id);
            Ok(())
        },
    }
}

} // verus!
