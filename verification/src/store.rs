//! The durable tables shared by the command executor and the delivery worker,
//! together with the invariants that hold of them at every commit point.
//!
//! All coordination between concurrent command invocations and the worker goes
//! through this state: there are no in-process locks, only the uniqueness and
//! atomicity guarantees stated here.

use vstd::prelude::*;
use crate::snapshot::SnapshotV;
use crate::snapshot::ResponseSnapshot;

verus! {

// ---------------------------------------------------------------------------
// Subscribers (the recipient directory)
// ---------------------------------------------------------------------------

/// One subscriber row: a recipient address, its confirmation token and whether
/// the subscription has been confirmed. Only confirmed subscribers are
/// eligible for delivery fan-out.
pub struct Subscriber {
    pub id: u128,
    pub email: String,
    pub name: String,
    pub token: String,
    pub confirmed: bool,
    pub subscribed_at: i64,
}

#[verifier::ext_equal]
pub struct SubscriberV {
    pub id: u128,
    pub email: Seq<char>,
    pub name: Seq<char>,
    pub token: Seq<char>,
    pub confirmed: bool,
    pub subscribed_at: i64,
}

impl View for Subscriber {
    type V = SubscriberV;

    open spec fn view(&self) -> SubscriberV {
        SubscriberV {
            id: self.id,
            email: self.email@,
            name: self.name@,
            token: self.token@,
            confirmed: self.confirmed,
            subscribed_at: self.subscribed_at,
        }
    }
}

// ---------------------------------------------------------------------------
// Idempotency records
// ---------------------------------------------------------------------------

/// Claim state of an idempotency record: reserved by an in-flight invocation,
/// or completed with the stored response snapshot.
pub enum ClaimState {
    InProgress,
    Completed(ResponseSnapshot),
}

#[verifier::ext_equal]
pub enum ClaimStateV {
    InProgress,
    Completed(SnapshotV),
}

impl View for ClaimState {
    type V = ClaimStateV;

    open spec fn view(&self) -> ClaimStateV {
        match self {
            ClaimState::InProgress => ClaimStateV::InProgress,
            ClaimState::Completed(snap) => ClaimStateV::Completed(snap@),
        }
    }
}

/// One idempotency row, identified by (principal, key). At most one row per
/// identity ever exists; it is created in progress and completed exactly once.
pub struct IdempotencyRecord {
    pub principal: u128,
    pub key: String,
    pub state: ClaimState,
    pub created_at: i64,
}

#[verifier::ext_equal]
pub struct IdempotencyRecordV {
    pub principal: u128,
    pub key: Seq<char>,
    pub state: ClaimStateV,
    pub created_at: i64,
}

impl View for IdempotencyRecord {
    type V = IdempotencyRecordV;

    open spec fn view(&self) -> IdempotencyRecordV {
        IdempotencyRecordV {
            principal: self.principal,
            key: self.key@,
            state: self.state@,
            created_at: self.created_at,
        }
    }
}

/// Does record `r` belong to (principal, key)?
pub open spec fn rec_matches(r: IdempotencyRecordV, principal: u128, key: Seq<char>) -> bool {
    r.principal == principal && r.key == key
}

/// The idempotency table. A leaf component: it knows nothing of issues or
/// delivery, only of claim slots per (principal, key).
pub struct IdempotencyStore {
    pub records: Vec<IdempotencyRecord>,
}

#[verifier::ext_equal]
pub struct IdempotencyStoreV {
    pub records: Seq<IdempotencyRecordV>,
}

impl View for IdempotencyStore {
    type V = IdempotencyStoreV;

    open spec fn view(&self) -> IdempotencyStoreV {
        IdempotencyStoreV { records: self.records@.map_values(|r: IdempotencyRecord| r@) }
    }
}

impl IdempotencyStoreV {
    pub open spec fn has_record(self, principal: u128, key: Seq<char>) -> bool {
        exists|i: int|
            0 <= i < self.records.len() && rec_matches(#[trigger] self.records[i], principal, key)
    }

    /// Index of the record for (principal, key); meaningful under `wf`.
    pub open spec fn record_index(self, principal: u128, key: Seq<char>) -> int
        recommends
            self.has_record(principal, key),
    {
        choose|i: int|
            0 <= i < self.records.len() && rec_matches(#[trigger] self.records[i], principal, key)
    }

    /// The record for (principal, key); meaningful under `wf`.
    pub open spec fn record(self, principal: u128, key: Seq<char>) -> IdempotencyRecordV
        recommends
            self.has_record(principal, key),
    {
        self.records[self.record_index(principal, key)]
    }

    /// The uniqueness constraint: at most one row per (principal, key).
    pub open spec fn wf(self) -> bool {
        forall|i: int, j: int|
            #![trigger self.records[i], self.records[j]]
            0 <= i < self.records.len() && 0 <= j < self.records.len() && i != j
                ==> !(self.records[i].principal == self.records[j].principal
                    && self.records[i].key == self.records[j].key)
    }
}

/// Under the uniqueness constraint, any index holding (principal, key) is the
/// one that `record_index` denotes.
pub proof fn lemma_record_at_index(s: IdempotencyStoreV, principal: u128, key: Seq<char>, i: int)
    requires
        s.wf(),
        0 <= i < s.records.len(),
        rec_matches(s.records[i], principal, key),
    ensures
        s.has_record(principal, key),
        s.record_index(principal, key) == i,
        s.record(principal, key) == s.records[i],
{
    assert(s.has_record(principal, key));
    let j = s.record_index(principal, key);
    assert(0 <= j < s.records.len() && rec_matches(s.records[j], principal, key));
    if i != j {
        assert(s.records[i].principal == s.records[j].principal
            && s.records[i].key == s.records[j].key);
        assert(false);
    }
}

// ---------------------------------------------------------------------------
// Newsletter issues (the business entity)
// ---------------------------------------------------------------------------

/// One published newsletter issue. Created once per successful non-duplicate
/// command invocation; never mutated afterwards.
pub struct NewsletterIssue {
    pub id: u128,
    pub title: String,
    pub content_text: String,
    pub content_html: String,
    pub published_at: i64,
}

#[verifier::ext_equal]
pub struct NewsletterIssueV {
    pub id: u128,
    pub title: Seq<char>,
    pub content_text: Seq<char>,
    pub content_html: Seq<char>,
    pub published_at: i64,
}

impl View for NewsletterIssue {
    type V = NewsletterIssueV;

    open spec fn view(&self) -> NewsletterIssueV {
        NewsletterIssueV {
            id: self.id,
            title: self.title@,
            content_text: self.content_text@,
            content_html: self.content_html@,
            published_at: self.published_at,
        }
    }
}

// ---------------------------------------------------------------------------
// Delivery queue and delivery log
// ---------------------------------------------------------------------------

/// One pending delivery obligation: issue × recipient. Existence in the queue
/// means pending; the worker removes the row on a terminal outcome.
pub struct DeliveryTask {
    pub issue_id: u128,
    pub recipient: String,
}

#[verifier::ext_equal]
pub struct TaskV {
    pub issue_id: u128,
    pub recipient: Seq<char>,
}

impl View for DeliveryTask {
    type V = TaskV;

    open spec fn view(&self) -> TaskV {
        TaskV { issue_id: self.issue_id, recipient: self.recipient@ }
    }
}

/// One terminal delivery outcome, recorded when the worker removes a task:
/// delivered, or skipped because the recipient is permanently unreachable.
pub struct DeliveryRecord {
    pub issue_id: u128,
    pub recipient: String,
    pub delivered: bool,
}

#[verifier::ext_equal]
pub struct DeliveryRecordV {
    pub issue_id: u128,
    pub recipient: Seq<char>,
    pub delivered: bool,
}

impl View for DeliveryRecord {
    type V = DeliveryRecordV;

    open spec fn view(&self) -> DeliveryRecordV {
        DeliveryRecordV {
            issue_id: self.issue_id,
            recipient: self.recipient@,
            delivered: self.delivered,
        }
    }
}

/// How many pending tasks in `q` belong to (issue_id, recipient).
pub open spec fn pending_count(q: Seq<TaskV>, issue_id: u128, recipient: Seq<char>) -> nat
    decreases q.len(),
{
    if q.len() == 0 {
        0
    } else {
        (if q[0].issue_id == issue_id && q[0].recipient == recipient {
            1nat
        } else {
            0nat
        }) + pending_count(q.drop_first(), issue_id, recipient)
    }
}

/// How many terminal outcomes in `l` belong to (issue_id, recipient).
pub open spec fn log_count(l: Seq<DeliveryRecordV>, issue_id: u128, recipient: Seq<char>) -> nat
    decreases l.len(),
{
    if l.len() == 0 {
        0
    } else {
        (if l[0].issue_id == issue_id && l[0].recipient == recipient {
            1nat
        } else {
            0nat
        }) + log_count(l.drop_first(), issue_id, recipient)
    }
}

/// How many successful deliveries in `l` belong to (issue_id, recipient).
pub open spec fn delivered_count(l: Seq<DeliveryRecordV>, issue_id: u128, recipient: Seq<char>) -> nat
    decreases l.len(),
{
    if l.len() == 0 {
        0
    } else {
        (if l[0].issue_id == issue_id && l[0].recipient == recipient && l[0].delivered {
            1nat
        } else {
            0nat
        }) + delivered_count(l.drop_first(), issue_id, recipient)
    }
}

pub proof fn lemma_pending_count_push(q: Seq<TaskV>, t: TaskV, issue_id: u128, recipient: Seq<char>)
    ensures
        pending_count(q.push(t), issue_id, recipient) == pending_count(q, issue_id, recipient)
            + (if t.issue_id == issue_id && t.recipient == recipient { 1nat } else { 0nat }),
    decreases q.len(),
{
    if q.len() == 0 {
        assert(q.push(t).drop_first() =~= q);
    } else {
        assert(q.push(t).drop_first() =~= q.drop_first().push(t));
        lemma_pending_count_push(q.drop_first(), t, issue_id, recipient);
    }
}

pub proof fn lemma_log_count_push(l: Seq<DeliveryRecordV>, d: DeliveryRecordV, issue_id: u128, recipient: Seq<char>)
    ensures
        log_count(l.push(d), issue_id, recipient) == log_count(l, issue_id, recipient)
            + (if d.issue_id == issue_id && d.recipient == recipient { 1nat } else { 0nat }),
        delivered_count(l.push(d), issue_id, recipient) == delivered_count(l, issue_id, recipient)
            + (if d.issue_id == issue_id && d.recipient == recipient && d.delivered { 1nat } else { 0nat }),
    decreases l.len(),
{
    if l.len() == 0 {
        assert(l.push(d).drop_first() =~= l);
    } else {
        assert(l.push(d).drop_first() =~= l.drop_first().push(d));
        lemma_log_count_push(l.drop_first(), d, issue_id, recipient);
    }
}

pub proof fn lemma_pending_count_concat(q1: Seq<TaskV>, q2: Seq<TaskV>, issue_id: u128, recipient: Seq<char>)
    ensures
        pending_count(q1 + q2, issue_id, recipient) == pending_count(q1, issue_id, recipient)
            + pending_count(q2, issue_id, recipient),
    decreases q1.len(),
{
    if q1.len() == 0 {
        assert(q1 + q2 =~= q2);
    } else {
        assert((q1 + q2).drop_first() =~= q1.drop_first() + q2);
        assert((q1 + q2)[0] == q1[0]);
        lemma_pending_count_concat(q1.drop_first(), q2, issue_id, recipient);
    }
}

/// A key has a pending task exactly when its count is positive.
pub proof fn lemma_pending_count_positive(q: Seq<TaskV>, issue_id: u128, recipient: Seq<char>)
    ensures
        pending_count(q, issue_id, recipient) > 0 <==> exists|i: int|
            0 <= i < q.len() && (#[trigger] q[i]).issue_id == issue_id
                && q[i].recipient == recipient,
    decreases q.len(),
{
    if q.len() > 0 {
        lemma_pending_count_positive(q.drop_first(), issue_id, recipient);
        if q[0].issue_id == issue_id && q[0].recipient == recipient {
            assert(q[0].issue_id == issue_id && q[0].recipient == recipient);
        } else if pending_count(q.drop_first(), issue_id, recipient) > 0 {
            let i = choose|i: int|
                0 <= i < q.drop_first().len() && (#[trigger] q.drop_first()[i]).issue_id == issue_id
                    && q.drop_first()[i].recipient == recipient;
            assert(q[i + 1].issue_id == issue_id && q[i + 1].recipient == recipient);
        } else if exists|i: int|
            0 <= i < q.len() && (#[trigger] q[i]).issue_id == issue_id
                && q[i].recipient == recipient {
            let i = choose|i: int|
                0 <= i < q.len() && (#[trigger] q[i]).issue_id == issue_id
                    && q[i].recipient == recipient;
            assert(i != 0);
            assert(q.drop_first()[i - 1].issue_id == issue_id
                && q.drop_first()[i - 1].recipient == recipient);
        }
    }
}

/// A key has a terminal outcome exactly when its log count is positive.
pub proof fn lemma_log_count_positive(l: Seq<DeliveryRecordV>, issue_id: u128, recipient: Seq<char>)
    ensures
        log_count(l, issue_id, recipient) > 0 <==> exists|i: int|
            0 <= i < l.len() && (#[trigger] l[i]).issue_id == issue_id
                && l[i].recipient == recipient,
    decreases l.len(),
{
    if l.len() > 0 {
        lemma_log_count_positive(l.drop_first(), issue_id, recipient);
        if l[0].issue_id == issue_id && l[0].recipient == recipient {
        } else if log_count(l.drop_first(), issue_id, recipient) > 0 {
            let i = choose|i: int|
                0 <= i < l.drop_first().len() && (#[trigger] l.drop_first()[i]).issue_id == issue_id
                    && l.drop_first()[i].recipient == recipient;
            assert(l[i + 1].issue_id == issue_id && l[i + 1].recipient == recipient);
        } else if exists|i: int|
            0 <= i < l.len() && (#[trigger] l[i]).issue_id == issue_id
                && l[i].recipient == recipient {
            let i = choose|i: int|
                0 <= i < l.len() && (#[trigger] l[i]).issue_id == issue_id
                    && l[i].recipient == recipient;
            assert(i != 0);
            assert(l.drop_first()[i - 1].issue_id == issue_id
                && l.drop_first()[i - 1].recipient == recipient);
        }
    }
}

// ---------------------------------------------------------------------------
// The whole durable state
// ---------------------------------------------------------------------------

/// All durable tables as one value. One call that mutates it models one
/// atomic unit of work: a reader only ever observes the state between calls.
pub struct DurableState {
    pub subscribers: Vec<Subscriber>,
    pub idempotency: IdempotencyStore,
    pub issues: Vec<NewsletterIssue>,
    pub queue: Vec<DeliveryTask>,
    pub delivery_log: Vec<DeliveryRecord>,
}

#[verifier::ext_equal]
pub struct DurableStateV {
    pub subscribers: Seq<SubscriberV>,
    pub idempotency: IdempotencyStoreV,
    pub issues: Seq<NewsletterIssueV>,
    pub queue: Seq<TaskV>,
    pub delivery_log: Seq<DeliveryRecordV>,
}

impl View for DurableState {
    type V = DurableStateV;

    open spec fn view(&self) -> DurableStateV {
        DurableStateV {
            subscribers: self.subscribers@.map_values(|s: Subscriber| s@),
            idempotency: self.idempotency@,
            issues: self.issues@.map_values(|i: NewsletterIssue| i@),
            queue: self.queue@.map_values(|t: DeliveryTask| t@),
            delivery_log: self.delivery_log@.map_values(|d: DeliveryRecord| d@),
        }
    }
}

/// No two subscriber rows share a recipient address.
pub open spec fn emails_unique_in(subs: Seq<SubscriberV>) -> bool {
    forall|i: int, j: int|
        #![trigger subs[i], subs[j]]
        0 <= i < subs.len() && 0 <= j < subs.len() && i != j ==> subs[i].email != subs[j].email
}

impl DurableStateV {
    pub open spec fn has_issue(self, id: u128) -> bool {
        exists|i: int| 0 <= i < self.issues.len() && (#[trigger] self.issues[i]).id == id
    }

    pub open spec fn has_subscriber_email(self, email: Seq<char>) -> bool {
        exists|i: int| 0 <= i < self.subscribers.len() && (#[trigger] self.subscribers[i]).email == email
    }

    pub open spec fn has_subscriber_id(self, id: u128) -> bool {
        exists|i: int| 0 <= i < self.subscribers.len() && (#[trigger] self.subscribers[i]).id == id
    }

    pub open spec fn has_token(self, token: Seq<char>) -> bool {
        exists|i: int| 0 <= i < self.subscribers.len() && (#[trigger] self.subscribers[i]).token == token
    }

    pub open spec fn emails_unique(self) -> bool {
        emails_unique_in(self.subscribers)
    }

    pub open spec fn tokens_unique(self) -> bool {
        forall|i: int, j: int|
            #![trigger self.subscribers[i], self.subscribers[j]]
            0 <= i < self.subscribers.len() && 0 <= j < self.subscribers.len() && i != j
                ==> self.subscribers[i].token != self.subscribers[j].token
    }

    pub open spec fn subscriber_ids_unique(self) -> bool {
        forall|i: int, j: int|
            #![trigger self.subscribers[i], self.subscribers[j]]
            0 <= i < self.subscribers.len() && 0 <= j < self.subscribers.len() && i != j
                ==> self.subscribers[i].id != self.subscribers[j].id
    }

    pub open spec fn issue_ids_unique(self) -> bool {
        forall|i: int, j: int|
            #![trigger self.issues[i], self.issues[j]]
            0 <= i < self.issues.len() && 0 <= j < self.issues.len() && i != j
                ==> self.issues[i].id != self.issues[j].id
    }

    /// Every completed idempotency record stores a well-formed snapshot.
    pub open spec fn snapshots_wf(self) -> bool {
        forall|i: int|
            0 <= i < self.idempotency.records.len()
                ==> match (#[trigger] self.idempotency.records[i]).state {
                    ClaimStateV::InProgress => true,
                    ClaimStateV::Completed(snap) => snap.wf(),
                }
    }

    /// Each (issue, recipient) obligation is settled at most once: pending in
    /// the queue, or terminally recorded in the log, never both and never
    /// twice.
    pub open spec fn delivery_at_most_once(self) -> bool {
        forall|issue_id: u128, recipient: Seq<char>|
            #![trigger pending_count(self.queue, issue_id, recipient)]
            #![trigger log_count(self.delivery_log, issue_id, recipient)]
            pending_count(self.queue, issue_id, recipient)
                + log_count(self.delivery_log, issue_id, recipient) <= 1
    }

    /// Queued tasks refer to issues that exist.
    pub open spec fn queue_issues_exist(self) -> bool {
        forall|i: int|
            0 <= i < self.queue.len() ==> self.has_issue((#[trigger] self.queue[i]).issue_id)
    }

    /// Logged outcomes refer to issues that exist.
    pub open spec fn log_issues_exist(self) -> bool {
        forall|i: int|
            0 <= i < self.delivery_log.len()
                ==> self.has_issue((#[trigger] self.delivery_log[i]).issue_id)
    }

    /// The invariant of the whole durable state, preserved by every atomic
    /// unit of work.
    pub open spec fn inv(self) -> bool {
        &&& self.idempotency.wf()
        &&& self.snapshots_wf()
        &&& self.emails_unique()
        &&& self.tokens_unique()
        &&& self.subscriber_ids_unique()
        &&& self.issue_ids_unique()
        &&& self.delivery_at_most_once()
        &&& self.queue_issues_exist()
        &&& self.log_issues_exist()
    }
}

/// Issue existence carries over to any state holding the same issue table.
pub proof fn lemma_has_issue_transfer(s0: DurableStateV, s1: DurableStateV, id: u128)
    requires
        s1.issues == s0.issues,
        s0.has_issue(id),
    ensures
        s1.has_issue(id),
{
    let k = choose|k: int| 0 <= k < s0.issues.len() && (#[trigger] s0.issues[k]).id == id;
    assert(s1.issues[k].id == id);
}

/// The whole invariant carries over to a state that changed only the
/// subscriber table, provided the new table keeps its uniqueness.
pub proof fn lemma_inv_subscribers_only(s0: DurableStateV, s1: DurableStateV)
    requires
        s0.inv(),
        s1.idempotency == s0.idempotency,
        s1.issues == s0.issues,
        s1.queue == s0.queue,
        s1.delivery_log == s0.delivery_log,
        s1.emails_unique(),
        s1.tokens_unique(),
        s1.subscriber_ids_unique(),
    ensures
        s1.inv(),
{
    assert forall|i: int| 0 <= i < s1.queue.len() implies s1.has_issue(
        (#[trigger] s1.queue[i]).issue_id,
    ) by {
        assert(s0.has_issue(s0.queue[i].issue_id));
        lemma_has_issue_transfer(s0, s1, s0.queue[i].issue_id);
    }
    assert forall|i: int| 0 <= i < s1.delivery_log.len() implies s1.has_issue(
        (#[trigger] s1.delivery_log[i]).issue_id,
    ) by {
        assert(s0.has_issue(s0.delivery_log[i].issue_id));
        lemma_has_issue_transfer(s0, s1, s0.delivery_log[i].issue_id);
    }
    assert forall|issue_id: u128, recipient: Seq<char>|
        #[trigger] pending_count(s1.queue, issue_id, recipient) + #[trigger] log_count(
            s1.delivery_log,
            issue_id,
            recipient,
        ) <= 1 by {
        assert(pending_count(s0.queue, issue_id, recipient) + log_count(
            s0.delivery_log,
            issue_id,
            recipient,
        ) <= 1);
    }
    assert forall|i: int| 0 <= i < s1.idempotency.records.len() implies match (
    #[trigger] s1.idempotency.records[i]).state {
        ClaimStateV::InProgress => true,
        ClaimStateV::Completed(snap) => snap.wf(),
    } by {
        assert(s1.idempotency.records[i] == s0.idempotency.records[i]);
    }
    assert forall|a: int, b: int|
        0 <= a < s1.issues.len() && 0 <= b < s1.issues.len() && a != b implies (
    #[trigger] s1.issues[a]).id != (#[trigger] s1.issues[b]).id by {
        assert(s1.issues[a] == s0.issues[a]);
        assert(s1.issues[b] == s0.issues[b]);
    }
}

impl DurableState {
    /// A fresh, empty durable state.
    pub fn new() -> (s: DurableState)
        ensures
            s@.inv(),
            s@.subscribers.len() == 0,
            s@.idempotency.records.len() == 0,
            s@.issues.len() == 0,
            s@.queue.len() == 0,
            s@.delivery_log.len() == 0,
    {
        DurableState {
            subscribers: Vec::new(),
            idempotency: IdempotencyStore { records: Vec::new() },
            issues: Vec::new(),
            queue: Vec::new(),
            delivery_log: Vec::new(),
        }
    }

    /// Whether an issue with this id already exists.
    pub fn contains_issue(&self, id: u128) -> (b: bool)
        ensures
            b == self@.has_issue(id),
    {
        let mut i: usize = 0;
        while i < self.issues.len()
            invariant
                i <= self.issues.len(),
                forall|j: int| 0 <= j < i ==> (#[trigger] self@.issues[j]).id != id,
            decreases self.issues.len() - i,
        {
            if self.issues[i].id == id {
                assert(self@.issues[i as int].id == id);
                return true;
            }
            i = i + 1;
        }
        false
    }
}

} // verus!
