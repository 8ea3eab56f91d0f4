//! The command executor: one invocation of the "publish a newsletter issue"
//! command, executed exactly once per (principal, idempotency key) however
//! often the request is retried or duplicated.
//!
//! `execute` models one atomic unit of work: it claims the idempotency slot,
//! persists the issue, enqueues one delivery task per eligible recipient and
//! stores the response snapshot, all in one indivisible step — exactly the
//! atomicity the durable store guarantees for the underlying transaction.

use vstd::prelude::*;
use crate::idempotency::{
    ClaimOutcome, IdempotencyKey, KeyError, valid_key,
};
use crate::snapshot::{ResponseSnapshot, SnapshotV, see_other, see_other_v};
use crate::store::{
    DeliveryTask, DurableState, DurableStateV, IdempotencyRecordV, IdempotencyStoreV,
    ClaimStateV, NewsletterIssue, NewsletterIssueV, SubscriberV, TaskV, emails_unique_in,
    lemma_pending_count_concat, lemma_pending_count_push, lemma_pending_count_positive,
    lemma_log_count_positive, lemma_record_at_index, pending_count, log_count, rec_matches,
};
use crate::runtime::{fresh_uuid_u128, unix_now_millis};

verus! {

/// Inbound payload of the publish command: the issue content plus the
/// caller-supplied idempotency key.
pub struct PublishNewsletterFormData {
    pub title: String,
    pub content_text: String,
    pub content_html: String,
    pub idempotency_key: String,
}

#[verifier::ext_equal]
pub struct PublishFormV {
    pub title: Seq<char>,
    pub content_text: Seq<char>,
    pub content_html: Seq<char>,
    pub idempotency_key: Seq<char>,
}

impl View for PublishNewsletterFormData {
    type V = PublishFormV;

    open spec fn view(&self) -> PublishFormV {
        PublishFormV {
            title: self.title@,
            content_text: self.content_text@,
            content_html: self.content_html@,
            idempotency_key: self.idempotency_key@,
        }
    }
}

/// Issue content in its nested shape: html and text bodies side by side.
pub struct Content {
    pub html: String,
    pub text: String,
}

/// An issue payload without a key, as older callers shaped it.
pub struct BodyData {
    pub title: String,
    pub content: Content,
}

impl BodyData {
    /// Flatten into the publish form shape, attaching the caller's key.
    pub fn into_form(self, idempotency_key: String) -> (f: PublishNewsletterFormData)
        ensures
            f@ == (PublishFormV {
                title: self.title@,
                content_text: self.content.text@,
                content_html: self.content.html@,
                idempotency_key: idempotency_key@,
            }),
    {
        PublishNewsletterFormData {
            title: self.title,
            content_text: self.content.text,
            content_html: self.content.html,
            idempotency_key,
        }
    }
}

/// What one command invocation reports back.
pub enum CommandOutcome {
    /// The business write happened now; this response was stored and returned.
    Executed(ResponseSnapshot),
    /// The command had already completed; the stored snapshot is returned
    /// verbatim and nothing was written.
    Replayed(ResponseSnapshot),
    /// Another invocation holds the claim in progress: poll for its outcome.
    InFlight,
    /// The idempotency key was rejected; nothing was written.
    Rejected(KeyError),
    /// A retryable infrastructure condition; nothing was written.
    TransientFailure,
}

#[verifier::ext_equal]
pub enum CommandOutcomeV {
    Executed(SnapshotV),
    Replayed(SnapshotV),
    InFlight,
    Rejected(KeyError),
    TransientFailure,
}

impl View for CommandOutcome {
    type V = CommandOutcomeV;

    open spec fn view(&self) -> CommandOutcomeV {
        match self {
            CommandOutcome::Executed(snap) => CommandOutcomeV::Executed(snap@),
            CommandOutcome::Replayed(snap) => CommandOutcomeV::Replayed(snap@),
            CommandOutcome::InFlight => CommandOutcomeV::InFlight,
            CommandOutcome::Rejected(e) => CommandOutcomeV::Rejected(*e),
            CommandOutcome::TransientFailure => CommandOutcomeV::TransientFailure,
        }
    }
}

/// The response a fresh execution returns and stores: a redirect back to the
/// newsletter form.
pub open spec fn success_response_v() -> SnapshotV {
    see_other_v("/admin/newsletters"@)
}

/// Which error an invalid key produces.
pub open spec fn key_error_of(key: Seq<char>) -> KeyError {
    if key.len() == 0 {
        KeyError::Empty
    } else {
        KeyError::TooLong
    }
}

// ---------------------------------------------------------------------------
// Recipient fan-out
// ---------------------------------------------------------------------------

/// The delivery obligations one issue creates: one task per confirmed
/// subscriber, in directory order.
pub open spec fn eligible_tasks(subs: Seq<SubscriberV>, issue_id: u128) -> Seq<TaskV>
    decreases subs.len(),
{
    if subs.len() == 0 {
        Seq::empty()
    } else {
        let prefix = eligible_tasks(subs.drop_last(), issue_id);
        if subs.last().confirmed {
            prefix.push(TaskV { issue_id, recipient: subs.last().email })
        } else {
            prefix
        }
    }
}

/// How many subscribers are confirmed.
pub open spec fn confirmed_count(subs: Seq<SubscriberV>) -> nat
    decreases subs.len(),
{
    if subs.len() == 0 {
        0
    } else {
        confirmed_count(subs.drop_last()) + (if subs.last().confirmed {
            1nat
        } else {
            0nat
        })
    }
}

/// Is some confirmed subscriber registered under this address?
pub open spec fn confirmed_has_email(subs: Seq<SubscriberV>, email: Seq<char>) -> bool {
    exists|i: int| 0 <= i < subs.len() && (#[trigger] subs[i]).confirmed && subs[i].email == email
}

/// The fan-out creates exactly one task per confirmed subscriber, each
/// carrying the new issue's id.
pub proof fn lemma_eligible_tasks_shape(subs: Seq<SubscriberV>, issue_id: u128)
    ensures
        eligible_tasks(subs, issue_id).len() == confirmed_count(subs),
        forall|i: int|
            0 <= i < eligible_tasks(subs, issue_id).len()
                ==> (#[trigger] eligible_tasks(subs, issue_id)[i]).issue_id == issue_id,
    decreases subs.len(),
{
    if subs.len() > 0 {
        lemma_eligible_tasks_shape(subs.drop_last(), issue_id);
    }
}

/// With unique addresses, the fan-out owes each recipient at most one task:
/// exactly one when a confirmed subscriber holds the address, none otherwise.
pub proof fn lemma_eligible_tasks_count(
    subs: Seq<SubscriberV>,
    issue_id: u128,
    id2: u128,
    r: Seq<char>,
)
    requires
        emails_unique_in(subs),
    ensures
        pending_count(eligible_tasks(subs, issue_id), id2, r) == (
        if id2 == issue_id && confirmed_has_email(subs, r) {
            1nat
        } else {
            0nat
        }),
    decreases subs.len(),
{
    if subs.len() == 0 {
    } else {
        let prefix = subs.drop_last();
        let n = subs.len() - 1;
        assert(emails_unique_in(prefix)) by {
            assert forall|i: int, j: int|
                0 <= i < prefix.len() && 0 <= j < prefix.len() && i != j
                    implies #[trigger] prefix[i].email != #[trigger] prefix[j].email by {
                assert(prefix[i] == subs[i]);
                assert(prefix[j] == subs[j]);
            }
        }
        lemma_eligible_tasks_count(prefix, issue_id, id2, r);
        let last = subs.last();
        assert(last == subs[n]);
        if last.confirmed {
            let t = TaskV { issue_id, recipient: last.email };
            lemma_pending_count_push(eligible_tasks(prefix, issue_id), t, id2, r);
        }
        // Relate membership in `subs` to membership in its prefix.
        if confirmed_has_email(prefix, r) {
            let i = choose|i: int|
                0 <= i < prefix.len() && (#[trigger] prefix[i]).confirmed && prefix[i].email == r;
            assert(subs[i] == prefix[i]);
            assert(confirmed_has_email(subs, r));
            if last.confirmed && last.email == r {
                // two rows would share the address
                assert(subs[i].email == subs[n].email);
                assert(false);
            }
        } else {
            if confirmed_has_email(subs, r) {
                let i = choose|i: int|
                    0 <= i < subs.len() && (#[trigger] subs[i]).confirmed && subs[i].email == r;
                if i < n {
                    assert(prefix[i] == subs[i]);
                    assert(confirmed_has_email(prefix, r));
                    assert(false);
                } else {
                    assert(i == n);
                }
            }
        }
    }
}

// ---------------------------------------------------------------------------
// The atomic command step
// ---------------------------------------------------------------------------

/// One atomic invocation of the publish command on the durable state, given
/// the fresh issue id and commit time the environment supplies.
///
/// Validation failures and duplicate observations change nothing; the one
/// winning invocation commits the issue, its delivery tasks and the completed
/// idempotency record together.
pub open spec fn spec_execute(
    s: DurableStateV,
    principal: u128,
    form: PublishFormV,
    issue_id: u128,
    now: i64,
) -> (DurableStateV, CommandOutcomeV) {
    let key = form.idempotency_key;
    if !valid_key(key) {
        (s, CommandOutcomeV::Rejected(key_error_of(key)))
    } else if s.idempotency.has_record(principal, key) {
        match s.idempotency.record(principal, key).state {
            ClaimStateV::InProgress => (s, CommandOutcomeV::InFlight),
            ClaimStateV::Completed(snap) => (s, CommandOutcomeV::Replayed(snap)),
        }
    } else {
        let resp = success_response_v();
        let record = IdempotencyRecordV {
            principal,
            key,
            state: ClaimStateV::Completed(resp),
            created_at: now,
        };
        let issue = NewsletterIssueV {
            id: issue_id,
            title: form.title,
            content_text: form.content_text,
            content_html: form.content_html,
            published_at: now,
        };
        (
            DurableStateV {
                subscribers: s.subscribers,
                idempotency: IdempotencyStoreV { records: s.idempotency.records.push(record) },
                issues: s.issues.push(issue),
                queue: s.queue + eligible_tasks(s.subscribers, issue_id),
                delivery_log: s.delivery_log,
            },
            CommandOutcomeV::Executed(resp),
        )
    }
}

/// Execute one publish command as one atomic unit of work, with the fresh
/// issue id and the commit time passed in by the caller.
pub fn execute(
    state: &mut DurableState,
    principal: u128,
    form: &PublishNewsletterFormData,
    issue_id: u128,
    now: i64,
) -> (o: CommandOutcome)
    requires
        old(state)@.inv(),
        !old(state)@.has_issue(issue_id),
    ensures
        final(state)@.inv(),
        ({
            let (s2, o2) = spec_execute(old(state)@, principal, form@, issue_id, now);
            final(state)@ == s2 && o@ == o2
        }),
{
    let key = match IdempotencyKey::try_new(form.idempotency_key.clone()) {
        Ok(k) => k,
        Err(e) => {
            return CommandOutcome::Rejected(e);
        },
    };
    let ghost s0 = state@;
    match state.idempotency.try_claim(principal, &key, now) {
        ClaimOutcome::Pending => CommandOutcome::InFlight,
        ClaimOutcome::AlreadyCompleted(snap) => CommandOutcome::Replayed(snap),
        ClaimOutcome::Claimed => {
            // The business write: the issue row.
            state.issues.push(NewsletterIssue {
                id: issue_id,
                title: form.title.clone(),
                content_text: form.content_text.clone(),
                content_html: form.content_html.clone(),
                published_at: now,
            });
            proof {
                assert(state@.issues =~= s0.issues.push(NewsletterIssueV {
                    id: issue_id,
                    title: form.title@,
                    content_text: form.content_text@,
                    content_html: form.content_html@,
                    published_at: now,
                }));
            }
            // The fan-out: one delivery task per confirmed subscriber,
            // computed from the recipient state at commit time.
            let mut tasks: Vec<DeliveryTask> = Vec::new();
            let mut i: usize = 0;
            while i < state.subscribers.len()
                invariant
                    i <= state.subscribers.len(),
                    tasks@.map_values(|t: DeliveryTask| t@) == eligible_tasks(
                        state@.subscribers.take(i as int),
                        issue_id,
                    ),
                decreases state.subscribers.len() - i,
            {
                let ghost pre = state@.subscribers.take(i as int);
                let ghost post = state@.subscribers.take(i as int + 1);
                proof {
                    assert(post.drop_last() =~= pre);
                    assert(post.last() == state@.subscribers[i as int]);
                }
                if state.subscribers[i].confirmed {
                    tasks.push(DeliveryTask {
                        issue_id,
                        recipient: state.subscribers[i].email.clone(),
                    });
                    proof {
                        assert(tasks@.map_values(|t: DeliveryTask| t@) =~= eligible_tasks(
                            post,
                            issue_id,
                        ));
                    }
                } else {
                    proof {
                        assert(tasks@.map_values(|t: DeliveryTask| t@) =~= eligible_tasks(
                            post,
                            issue_id,
                        ));
                    }
                }
                i = i + 1;
            }
            proof {
                assert(state@.subscribers.take(state@.subscribers.len() as int)
                    =~= state@.subscribers);
            }
            let ghost tasks_v = tasks@.map_values(|t: DeliveryTask| t@);
            let ghost queue_before = state@.queue;
            state.queue.append(&mut tasks);
            proof {
                assert(state@.queue =~= queue_before + tasks_v);
            }
            // Build, store and return the response, completing the claim in
            // the same unit of work.
            let response = see_other("/admin/newsletters");
            proof {
                // The claimed record sits at the end of the table.
                let records1 = state@.idempotency.records;
                assert(records1.len() == s0.idempotency.records.len() + 1);
                let n = records1.len() - 1;
                assert(rec_matches(records1[n as int], principal, key@));
                lemma_record_at_index(state@.idempotency, principal, key@, n as int);
            }
            state.idempotency.complete(principal, &key, response.duplicate());
            proof {
                lemma_execute_claimed_post(
                    s0,
                    state@,
                    principal,
                    form@,
                    issue_id,
                    now,
                    tasks_v,
                    queue_before,
                );
            }
            CommandOutcome::Executed(response)
        },
    }
}

/// Discharges the postcondition of `execute`'s claimed branch: the state the
/// body built field by field is the state `spec_execute` denotes, and the
/// invariant survives.
proof fn lemma_execute_claimed_post(
    s0: DurableStateV,
    s1: DurableStateV,
    principal: u128,
    form: PublishFormV,
    issue_id: u128,
    now: i64,
    tasks_v: Seq<TaskV>,
    queue_before: Seq<TaskV>,
)
    requires
        s0.inv(),
        !s0.has_issue(issue_id),
        valid_key(form.idempotency_key),
        !s0.idempotency.has_record(principal, form.idempotency_key),
        tasks_v == eligible_tasks(s0.subscribers, issue_id),
        queue_before == s0.queue,
        s1.subscribers == s0.subscribers,
        s1.delivery_log == s0.delivery_log,
        s1.issues == s0.issues.push(NewsletterIssueV {
            id: issue_id,
            title: form.title,
            content_text: form.content_text,
            content_html: form.content_html,
            published_at: now,
        }),
        s1.queue == s0.queue + tasks_v,
        s1.idempotency.records == s0.idempotency.records.push(IdempotencyRecordV {
            principal,
            key: form.idempotency_key,
            state: ClaimStateV::InProgress,
            created_at: now,
        }).update(
            s0.idempotency.records.len() as int,
            IdempotencyRecordV {
                principal,
                key: form.idempotency_key,
                state: ClaimStateV::Completed(success_response_v()),
                created_at: now,
            },
        ),
    ensures
        s1 == spec_execute(s0, principal, form, issue_id, now).0,
        s1.inv(),
{
    let key = form.idempotency_key;
    let (s2, o2) = spec_execute(s0, principal, form, issue_id, now);
    let completed = IdempotencyRecordV {
        principal,
        key,
        state: ClaimStateV::Completed(success_response_v()),
        created_at: now,
    };
    assert(s1.idempotency.records =~= s0.idempotency.records.push(completed));
    assert(s1 =~= s2);

    // --- the invariant ---
    let n = s0.idempotency.records.len() as int;
    // uniqueness of idempotency keys
    assert forall|a: int, b: int|
        0 <= a < s1.idempotency.records.len() && 0 <= b < s1.idempotency.records.len() && a != b
            implies !(s1.idempotency.records[a].principal == s1.idempotency.records[b].principal
            && s1.idempotency.records[a].key == s1.idempotency.records[b].key) by {
        if a < n && b < n {
            assert(s1.idempotency.records[a] == s0.idempotency.records[a]);
            assert(s1.idempotency.records[b] == s0.idempotency.records[b]);
        } else if a == n {
            assert(!rec_matches(s0.idempotency.records[b], principal, key));
        } else {
            assert(b == n);
            assert(!rec_matches(s0.idempotency.records[a], principal, key));
        }
    }
    // stored snapshots stay well-formed
    assert forall|i: int| 0 <= i < s1.idempotency.records.len() implies match (
    #[trigger] s1.idempotency.records[i]).state {
        ClaimStateV::InProgress => true,
        ClaimStateV::Completed(snap) => snap.wf(),
    } by {
        if i < n {
            assert(s1.idempotency.records[i] == s0.idempotency.records[i]);
        }
    }
    // issue ids stay unique
    assert forall|a: int, b: int|
        0 <= a < s1.issues.len() && 0 <= b < s1.issues.len() && a != b implies (
    #[trigger] s1.issues[a]).id != (#[trigger] s1.issues[b]).id by {
        let m = s0.issues.len() as int;
        if a < m && b < m {
            assert(s1.issues[a] == s0.issues[a]);
            assert(s1.issues[b] == s0.issues[b]);
        } else if a == m {
            assert(s1.issues[a].id == issue_id);
            assert(s1.issues[b] == s0.issues[b]);
            assert(!(s0.issues[b].id == issue_id));
        } else {
            assert(b == m);
            assert(s1.issues[a] == s0.issues[a]);
            assert(!(s0.issues[a].id == issue_id));
        }
    }
    // every issue of s0 still exists in s1
    assert forall|id: u128| s0.has_issue(id) implies s1.has_issue(id) by {
        let i = choose|i: int| 0 <= i < s0.issues.len() && (#[trigger] s0.issues[i]).id == id;
        assert(s1.issues[i].id == id);
    }
    // each obligation is settled at most once
    lemma_eligible_tasks_shape(s0.subscribers, issue_id);
    assert forall|id2: u128, r: Seq<char>|
        #[trigger] pending_count(s1.queue, id2, r) + #[trigger] log_count(s1.delivery_log, id2, r)
            <= 1 by {
        lemma_pending_count_concat(s0.queue, tasks_v, id2, r);
        lemma_eligible_tasks_count(s0.subscribers, issue_id, id2, r);
        assert(pending_count(s0.queue, id2, r) + log_count(s0.delivery_log, id2, r) <= 1);
        if id2 == issue_id {
            // nothing for the fresh issue was pending or logged before
            lemma_pending_count_positive(s0.queue, id2, r);
            if pending_count(s0.queue, id2, r) > 0 {
                let i = choose|i: int|
                    0 <= i < s0.queue.len() && (#[trigger] s0.queue[i]).issue_id == id2
                        && s0.queue[i].recipient == r;
                assert(s0.has_issue(issue_id));
                assert(false);
            }
            lemma_log_count_positive(s0.delivery_log, id2, r);
            if log_count(s0.delivery_log, id2, r) > 0 {
                let i = choose|i: int|
                    0 <= i < s0.delivery_log.len() && (#[trigger] s0.delivery_log[i]).issue_id
                        == id2 && s0.delivery_log[i].recipient == r;
                assert(s0.has_issue(issue_id));
                assert(false);
            }
        }
    }
    // queued tasks and logged outcomes still point at existing issues
    assert forall|i: int| 0 <= i < s1.queue.len() implies s1.has_issue(
        (#[trigger] s1.queue[i]).issue_id,
    ) by {
        if i < s0.queue.len() {
            assert(s1.queue[i] == s0.queue[i]);
            assert(s0.has_issue(s0.queue[i].issue_id));
        } else {
            assert(s1.queue[i] == tasks_v[i - s0.queue.len()]);
            assert(tasks_v[i - s0.queue.len()].issue_id == issue_id);
            assert(s1.issues[s0.issues.len() as int].id == issue_id);
        }
    }
    assert forall|i: int| 0 <= i < s1.delivery_log.len() implies s1.has_issue(
        (#[trigger] s1.delivery_log[i]).issue_id,
    ) by {
        assert(s1.delivery_log[i] == s0.delivery_log[i]);
        assert(s0.has_issue(s0.delivery_log[i].issue_id));
    }
}

/// A fresh atomic execution preserves the durable-state invariant.
pub proof fn lemma_execute_preserves_inv(
    s0: DurableStateV,
    principal: u128,
    form: PublishFormV,
    issue_id: u128,
    now: i64,
)
    requires
        s0.inv(),
        !s0.has_issue(issue_id),
    ensures
        spec_execute(s0, principal, form, issue_id, now).0.inv(),
{
    let (s1, o1) = spec_execute(s0, principal, form, issue_id, now);
    let key = form.idempotency_key;
    if valid_key(key) && !s0.idempotency.has_record(principal, key) {
        let n = s0.idempotency.records.len() as int;
        let in_progress = IdempotencyRecordV {
            principal,
            key,
            state: ClaimStateV::InProgress,
            created_at: now,
        };
        let completed = IdempotencyRecordV {
            principal,
            key,
            state: ClaimStateV::Completed(success_response_v()),
            created_at: now,
        };
        assert(s1.idempotency.records =~= s0.idempotency.records.push(in_progress).update(
            n,
            completed,
        ));
        lemma_execute_claimed_post(
            s0,
            s1,
            principal,
            form,
            issue_id,
            now,
            eligible_tasks(s0.subscribers, issue_id),
            s0.queue,
        );
    }
}

// ---------------------------------------------------------------------------
// Idempotency laws
// ---------------------------------------------------------------------------

/// Law: invoking the command twice with the same principal and key — the
/// retry carrying any payload whatsoever — yields the same stored response on
/// both calls and exactly one business write: the second call writes nothing.
pub proof fn lemma_duplicate_command_is_replayed(
    s0: DurableStateV,
    principal: u128,
    form1: PublishFormV,
    form2: PublishFormV,
    id1: u128,
    now1: i64,
    id2: u128,
    now2: i64,
)
    requires
        s0.inv(),
        valid_key(form1.idempotency_key),
        form2.idempotency_key == form1.idempotency_key,
        !s0.idempotency.has_record(principal, form1.idempotency_key),
        !s0.has_issue(id1),
    ensures
        ({
            let (s1, o1) = spec_execute(s0, principal, form1, id1, now1);
            let (s2, o2) = spec_execute(s1, principal, form2, id2, now2);
            &&& o1 == CommandOutcomeV::Executed(success_response_v())
            &&& o2 == CommandOutcomeV::Replayed(success_response_v())
            &&& s2 == s1
            &&& s1.issues.len() == s0.issues.len() + 1
        }),
{
    let k = form1.idempotency_key;
    let (s1, o1) = spec_execute(s0, principal, form1, id1, now1);
    let n = s0.idempotency.records.len() as int;
    lemma_execute_preserves_inv(s0, principal, form1, id1, now1);
    assert(rec_matches(s1.idempotency.records[n], principal, k));
    lemma_record_at_index(s1.idempotency, principal, k, n);
    assert(s1.idempotency.record(principal, k).state == ClaimStateV::Completed(
        success_response_v(),
    ));
}

/// The states and outcomes of a whole sequence of invocations of one command,
/// each with its own fresh issue id and commit time, applied in order — the
/// model of concurrent identical requests interleaving their atomic units.
pub open spec fn spec_execute_all(
    s: DurableStateV,
    principal: u128,
    form: PublishFormV,
    params: Seq<(u128, i64)>,
) -> (DurableStateV, Seq<CommandOutcomeV>)
    decreases params.len(),
{
    if params.len() == 0 {
        (s, Seq::empty())
    } else {
        let (s1, o1) = spec_execute(s, principal, form, params[0].0, params[0].1);
        let (sfin, rest) = spec_execute_all(s1, principal, form, params.drop_first());
        (sfin, seq![o1] + rest)
    }
}

/// Once the command completed with a stored response, any number of further
/// invocations with the same key replay it verbatim and write nothing at all.
pub proof fn lemma_completed_key_is_stable(
    s: DurableStateV,
    principal: u128,
    form: PublishFormV,
    params: Seq<(u128, i64)>,
    resp: SnapshotV,
)
    requires
        valid_key(form.idempotency_key),
        s.idempotency.has_record(principal, form.idempotency_key),
        s.idempotency.record(principal, form.idempotency_key).state == ClaimStateV::Completed(
            resp,
        ),
    ensures
        spec_execute_all(s, principal, form, params).0 == s,
        spec_execute_all(s, principal, form, params).1.len() == params.len(),
        forall|i: int|
            0 <= i < params.len() ==> spec_execute_all(s, principal, form, params).1[i]
                == CommandOutcomeV::Replayed(resp),
    decreases params.len(),
{
    if params.len() > 0 {
        lemma_completed_key_is_stable(s, principal, form, params.drop_first(), resp);
        let (s1, o1) = spec_execute(s, principal, form, params[0].0, params[0].1);
        assert(s1 == s && o1 == CommandOutcomeV::Replayed(resp));
        let (sfin, rest) = spec_execute_all(s, principal, form, params.drop_first());
        assert forall|i: int|
            0 <= i < params.len() implies spec_execute_all(s, principal, form, params).1[i]
            == CommandOutcomeV::Replayed(resp) by {
            if i > 0 {
                assert((seq![o1] + rest)[i] == rest[i - 1]);
            }
        }
    }
}

/// Law: however many identical requests race on one key — the durable store
/// serialises their atomic units in some order, which this sequence models —
/// exactly one of them performs the business write, and every caller observes
/// the identical stored response.
pub proof fn lemma_concurrent_duplicates_single_write(
    s0: DurableStateV,
    principal: u128,
    form: PublishFormV,
    params: Seq<(u128, i64)>,
)
    requires
        s0.inv(),
        valid_key(form.idempotency_key),
        !s0.idempotency.has_record(principal, form.idempotency_key),
        params.len() > 0,
        !s0.has_issue(params[0].0),
    ensures
        ({
            let (sfin, outs) = spec_execute_all(s0, principal, form, params);
            &&& outs.len() == params.len()
            &&& outs[0] == CommandOutcomeV::Executed(success_response_v())
            &&& forall|i: int|
                1 <= i < outs.len() ==> outs[i] == CommandOutcomeV::Replayed(success_response_v())
            &&& sfin.issues.len() == s0.issues.len() + 1
            &&& sfin.inv()
        }),
{
    let k = form.idempotency_key;
    let (s1, o1) = spec_execute(s0, principal, form, params[0].0, params[0].1);
    let n = s0.idempotency.records.len() as int;
    lemma_execute_preserves_inv(s0, principal, form, params[0].0, params[0].1);
    assert(rec_matches(s1.idempotency.records[n], principal, k));
    lemma_record_at_index(s1.idempotency, principal, k, n);
    lemma_completed_key_is_stable(s1, principal, form, params.drop_first(), success_response_v());
    let (sfin, outs) = spec_execute_all(s0, principal, form, params);
    let rest = spec_execute_all(s1, principal, form, params.drop_first()).1;
    assert forall|i: int|
        1 <= i < outs.len() implies outs[i] == CommandOutcomeV::Replayed(success_response_v()) by {
        assert((seq![o1] + rest)[i] == rest[i - 1]);
    }
}

/// Predicate of `publish_newsletter`'s outcome when it ran a fresh atomic
/// execution: some fresh issue id and commit time account for the transition.
pub open spec fn executed_fresh(
    s0: DurableStateV,
    s1: DurableStateV,
    o: CommandOutcomeV,
    principal: u128,
    form: PublishFormV,
    issue_id: u128,
    now: i64,
) -> bool {
    &&& !s0.has_issue(issue_id)
    &&& spec_execute(s0, principal, form, issue_id, now) == (s1, o)
}

/// One full command invocation: validate the key, draw a fresh issue id and
/// the commit time from the environment, and run the atomic execution.
///
/// The drawn id and time are arbitrary; whatever came back, either nothing
/// was written (a rejected key, a replay, an in-flight claim, or a retryable
/// id collision) or one fresh atomic execution took place.
pub fn publish_newsletter(
    state: &mut DurableState,
    principal: u128,
    form: &PublishNewsletterFormData,
) -> (o: CommandOutcome)
    requires
        old(state)@.inv(),
    ensures
        final(state)@.inv(),
        !valid_key(form.idempotency_key@) ==> o@ == CommandOutcomeV::Rejected(
            key_error_of(form.idempotency_key@),
        ) && final(state)@ == old(state)@,
        o is TransientFailure ==> final(state)@ == old(state)@,
        valid_key(form.idempotency_key@) && !(o is TransientFailure) ==> exists|id: u128, now: i64|
            #[trigger] executed_fresh(old(state)@, final(state)@, o@, principal, form@, id, now),
        valid_key(form.idempotency_key@) && !(o is TransientFailure)
            && old(state)@.idempotency.has_record(principal, form.idempotency_key@) ==> match old(
            state,
        )@.idempotency.record(principal, form.idempotency_key@).state {
            ClaimStateV::InProgress => o is InFlight && final(state)@ == old(state)@,
            ClaimStateV::Completed(snap) => o@ == CommandOutcomeV::Replayed(snap) && final(state)@
                == old(state)@,
        },
        valid_key(form.idempotency_key@) && !(o is TransientFailure)
            && !old(state)@.idempotency.has_record(principal, form.idempotency_key@) ==> o@
            == CommandOutcomeV::Executed(success_response_v()) && final(state)@.issues.len() == old(
            state,
        )@.issues.len() + 1,
{
    if let Err(e) = IdempotencyKey::try_new(form.idempotency_key.clone()) {
        return CommandOutcome::Rejected(e);
    }
    let issue_id = fresh_uuid_u128();
    let now = unix_now_millis();
    if state.contains_issue(issue_id) {
        // The freshly drawn id collides with an existing issue; report a
        // retryable condition rather than reuse an id.
        return CommandOutcome::TransientFailure;
    }
    let o = execute(state, principal, form, issue_id, now);
    proof {
        assert(executed_fresh(old(state)@, state@, o@, principal, form@, issue_id, now));
    }
    o
}

} // verus!
