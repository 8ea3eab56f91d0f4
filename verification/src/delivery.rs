//! The delivery worker: an independent consumer that drains the delivery
//! queue with at-least-once dispatch and exactly-once terminal outcomes.
//!
//! One pass claims the task at the head of the queue, dispatches it through
//! the external notifier, and records the outcome: the task is removed on a
//! terminal result (delivered, or permanently unreachable) and moved to the
//! tail on a transient failure, so one failing recipient cannot starve the
//! others. The loop around the notifier lives outside the library; the state
//! transition it commits is verified here.
//!
//! Claiming is a read: no "currently dispatching" state is ever persisted, so
//! a worker that crashes between claiming and recording leaves the task
//! pending. A restarted worker simply re-scans the queue — at worst one extra
//! dispatch attempt, never a lost task.

use vstd::prelude::*;
use crate::executor::{
    confirmed_has_email, eligible_tasks, lemma_eligible_tasks_count, lemma_execute_preserves_inv,
    spec_execute, PublishFormV,
};
use crate::idempotency::valid_key;
use crate::store::{
    DeliveryRecord, DeliveryRecordV, DeliveryTask, DurableState, DurableStateV, delivered_count,
    lemma_log_count_positive, lemma_log_count_push, lemma_pending_count_concat,
    lemma_pending_count_positive, lemma_pending_count_push, log_count, pending_count,
};

verus! {

/// What the external notifier reported for one dispatch attempt.
#[derive(Clone, Copy, Debug, PartialEq, Eq, Structural)]
pub enum DeliveryOutcome {
    /// The notification reached the recipient. Terminal.
    Delivered,
    /// The notifier was unreachable or failed temporarily: the task stays
    /// pending and is retried on a later pass.
    TransientFailure,
    /// The recipient itself is invalid: the task is dropped and the skip is
    /// recorded. Terminal; never retried.
    PermanentFailure,
}

/// One pass of the worker over the task at the head of the queue. With an
/// empty queue the worker idles and the state is unchanged.
pub open spec fn spec_worker_step(s: DurableStateV, o: DeliveryOutcome) -> DurableStateV {
    if s.queue.len() == 0 {
        s
    } else {
        let t = s.queue[0];
        match o {
            DeliveryOutcome::Delivered => DurableStateV {
                queue: s.queue.drop_first(),
                delivery_log: s.delivery_log.push(
                    DeliveryRecordV { issue_id: t.issue_id, recipient: t.recipient, delivered: true },
                ),
                ..s
            },
            DeliveryOutcome::PermanentFailure => DurableStateV {
                queue: s.queue.drop_first(),
                delivery_log: s.delivery_log.push(
                    DeliveryRecordV {
                        issue_id: t.issue_id,
                        recipient: t.recipient,
                        delivered: false,
                    },
                ),
                ..s
            },
            DeliveryOutcome::TransientFailure => DurableStateV {
                queue: s.queue.drop_first().push(t),
                ..s
            },
        }
    }
}

/// The worker's claim/record pass neither invents nor loses an obligation:
/// for every (issue, recipient), pending tasks plus recorded outcomes stay
/// exactly what they were, and the invariant survives.
pub proof fn lemma_worker_step_preserves_inv(s: DurableStateV, o: DeliveryOutcome)
    requires
        s.inv(),
    ensures
        spec_worker_step(s, o).inv(),
        forall|id: u128, r: Seq<char>|
            #![trigger pending_count(spec_worker_step(s, o).queue, id, r)]
            #![trigger log_count(spec_worker_step(s, o).delivery_log, id, r)]
            pending_count(spec_worker_step(s, o).queue, id, r) + log_count(
                spec_worker_step(s, o).delivery_log,
                id,
                r,
            ) == pending_count(s.queue, id, r) + log_count(s.delivery_log, id, r),
{
    let s2 = spec_worker_step(s, o);
    if s.queue.len() == 0 {
    } else {
        let t = s.queue[0];
        assert forall|id: u128, r: Seq<char>|
            #![trigger pending_count(s2.queue, id, r)]
            #![trigger log_count(s2.delivery_log, id, r)]
            pending_count(s2.queue, id, r) + log_count(s2.delivery_log, id, r) == pending_count(
                s.queue,
                id,
                r,
            ) + log_count(s.delivery_log, id, r) by {
            let head: nat = if t.issue_id == id && t.recipient == r {
                1nat
            } else {
                0nat
            };
            assert(pending_count(s.queue, id, r) == head + pending_count(
                s.queue.drop_first(),
                id,
                r,
            ));
            match o {
                DeliveryOutcome::Delivered => {
                    lemma_log_count_push(
                        s.delivery_log,
                        DeliveryRecordV {
                            issue_id: t.issue_id,
                            recipient: t.recipient,
                            delivered: true,
                        },
                        id,
                        r,
                    );
                },
                DeliveryOutcome::PermanentFailure => {
                    lemma_log_count_push(
                        s.delivery_log,
                        DeliveryRecordV {
                            issue_id: t.issue_id,
                            recipient: t.recipient,
                            delivered: false,
                        },
                        id,
                        r,
                    );
                },
                DeliveryOutcome::TransientFailure => {
                    lemma_pending_count_push(s.queue.drop_first(), t, id, r);
                },
            }
        }
        // tasks and outcomes still point at existing issues
        assert(s2.issues == s.issues);
        assert forall|id: u128| s.has_issue(id) implies s2.has_issue(id) by {}
        assert forall|i: int| 0 <= i < s2.queue.len() implies s2.has_issue(
            (#[trigger] s2.queue[i]).issue_id,
        ) by {
            match o {
                DeliveryOutcome::TransientFailure => {
                    if i < s.queue.len() - 1 {
                        assert(s2.queue[i] == s.queue[i + 1]);
                    } else {
                        assert(s2.queue[i] == t);
                    }
                },
                _ => {
                    assert(s2.queue[i] == s.queue[i + 1]);
                },
            }
        }
        assert forall|i: int| 0 <= i < s2.delivery_log.len() implies s2.has_issue(
            (#[trigger] s2.delivery_log[i]).issue_id,
        ) by {
            if i < s.delivery_log.len() {
                assert(s2.delivery_log[i] == s.delivery_log[i]);
            } else {
                assert(s2.delivery_log[i].issue_id == t.issue_id);
                assert(s.has_issue(t.issue_id));
            }
        }
    }
}

impl DurableState {
    /// Claim one pending task without removing it: the worker dispatches it
    /// through the notifier and then records the outcome. `None` means the
    /// queue is drained and the worker idles until the next polling pass.
    pub fn claim_next_task(&self) -> (t: Option<DeliveryTask>)
        ensures
            match t {
                Some(task) => self@.queue.len() > 0 && task@ == self@.queue[0],
                None => self@.queue.len() == 0,
            },
    {
        if self.queue.len() == 0 {
            None
        } else {
            Some(DeliveryTask {
                issue_id: self.queue[0].issue_id,
                recipient: self.queue[0].recipient.clone(),
            })
        }
    }

    /// Record the notifier's outcome for the claimed task (the head of the
    /// queue): remove it on a terminal outcome, requeue it at the tail on a
    /// transient failure.
    pub fn record_outcome(&mut self, outcome: DeliveryOutcome)
        requires
            old(self)@.inv(),
            old(self)@.queue.len() > 0,
        ensures
            final(self)@.inv(),
            final(self)@ == spec_worker_step(old(self)@, outcome),
    {
        let ghost s0 = self@;
        let task = self.queue.remove(0);
        proof {
            assert(self@.queue =~= s0.queue.drop_first());
            assert(task@ == s0.queue[0]);
        }
        match outcome {
            DeliveryOutcome::Delivered => {
                self.delivery_log.push(DeliveryRecord {
                    issue_id: task.issue_id,
                    recipient: task.recipient,
                    delivered: true,
                });
                proof {
                    assert(self@.delivery_log =~= s0.delivery_log.push(
                        DeliveryRecordV {
                            issue_id: s0.queue[0].issue_id,
                            recipient: s0.queue[0].recipient,
                            delivered: true,
                        },
                    ));
                    assert(self@ =~= spec_worker_step(s0, outcome));
                    lemma_worker_step_preserves_inv(s0, outcome);
                }
            },
            DeliveryOutcome::PermanentFailure => {
                self.delivery_log.push(DeliveryRecord {
                    issue_id: task.issue_id,
                    recipient: task.recipient,
                    delivered: false,
                });
                proof {
                    assert(self@.delivery_log =~= s0.delivery_log.push(
                        DeliveryRecordV {
                            issue_id: s0.queue[0].issue_id,
                            recipient: s0.queue[0].recipient,
                            delivered: false,
                        },
                    ));
                    assert(self@ =~= spec_worker_step(s0, outcome));
                    lemma_worker_step_preserves_inv(s0, outcome);
                }
            },
            DeliveryOutcome::TransientFailure => {
                self.queue.push(task);
                proof {
                    assert(self@.queue =~= s0.queue.drop_first().push(s0.queue[0]));
                    assert(self@ =~= spec_worker_step(s0, outcome));
                    lemma_worker_step_preserves_inv(s0, outcome);
                }
            },
        }
    }
}

/// The worker run: one step per notifier outcome, in order. Steps taken on an
/// empty queue are idle passes.
pub open spec fn spec_worker_run(s: DurableStateV, outcomes: Seq<DeliveryOutcome>) -> DurableStateV
    decreases outcomes.len(),
{
    if outcomes.len() == 0 {
        s
    } else {
        spec_worker_run(spec_worker_step(s, outcomes[0]), outcomes.drop_first())
    }
}

/// A whole worker run preserves the invariant and, per (issue, recipient),
/// the sum of pending tasks and recorded outcomes.
pub proof fn lemma_worker_run_preserves_inv(s: DurableStateV, outcomes: Seq<DeliveryOutcome>)
    requires
        s.inv(),
    ensures
        spec_worker_run(s, outcomes).inv(),
        forall|id: u128, r: Seq<char>|
            #![trigger pending_count(spec_worker_run(s, outcomes).queue, id, r)]
            #![trigger log_count(spec_worker_run(s, outcomes).delivery_log, id, r)]
            pending_count(spec_worker_run(s, outcomes).queue, id, r) + log_count(
                spec_worker_run(s, outcomes).delivery_log,
                id,
                r,
            ) == pending_count(s.queue, id, r) + log_count(s.delivery_log, id, r),
    decreases outcomes.len(),
{
    if outcomes.len() > 0 {
        lemma_worker_step_preserves_inv(s, outcomes[0]);
        lemma_worker_run_preserves_inv(spec_worker_step(s, outcomes[0]), outcomes.drop_first());
    }
}

/// Successful deliveries are terminal outcomes, so never more numerous.
pub proof fn lemma_delivered_le_log(l: Seq<DeliveryRecordV>, issue_id: u128, recipient: Seq<char>)
    ensures
        delivered_count(l, issue_id, recipient) <= log_count(l, issue_id, recipient),
    decreases l.len(),
{
    if l.len() > 0 {
        lemma_delivered_le_log(l.drop_first(), issue_id, recipient);
    }
}

/// Once the worker has drained the queue, every obligation that was owed
/// exactly once has exactly one terminal outcome in the log — in particular
/// at most one successful delivery, never two.
pub proof fn lemma_drained_queue_settles_each_once(
    s: DurableStateV,
    outcomes: Seq<DeliveryOutcome>,
    issue_id: u128,
    recipient: Seq<char>,
)
    requires
        s.inv(),
        pending_count(s.queue, issue_id, recipient) + log_count(
            s.delivery_log,
            issue_id,
            recipient,
        ) == 1,
        spec_worker_run(s, outcomes).queue.len() == 0,
    ensures
        log_count(spec_worker_run(s, outcomes).delivery_log, issue_id, recipient) == 1,
        delivered_count(spec_worker_run(s, outcomes).delivery_log, issue_id, recipient) <= 1,
{
    let sfin = spec_worker_run(s, outcomes);
    lemma_worker_run_preserves_inv(s, outcomes);
    assert(pending_count(sfin.queue, issue_id, recipient) == 0);
    lemma_delivered_le_log(sfin.delivery_log, issue_id, recipient);
}

/// One command execution followed by a worker run that drains the queue
/// settles every recipient eligible at commit time exactly once: one terminal
/// outcome, at most one successful delivery, never two.
pub proof fn lemma_publish_then_drain_settles_each_recipient_once(
    s0: DurableStateV,
    principal: u128,
    form: PublishFormV,
    issue_id: u128,
    now: i64,
    outcomes: Seq<DeliveryOutcome>,
    recipient: Seq<char>,
)
    requires
        s0.inv(),
        valid_key(form.idempotency_key),
        !s0.idempotency.has_record(principal, form.idempotency_key),
        !s0.has_issue(issue_id),
        confirmed_has_email(s0.subscribers, recipient),
        spec_worker_run(
            spec_execute(s0, principal, form, issue_id, now).0,
            outcomes,
        ).queue.len() == 0,
    ensures
        ({
            let s1 = spec_execute(s0, principal, form, issue_id, now).0;
            let sfin = spec_worker_run(s1, outcomes);
            &&& log_count(sfin.delivery_log, issue_id, recipient) == 1
            &&& delivered_count(sfin.delivery_log, issue_id, recipient) <= 1
        }),
{
    let s1 = spec_execute(s0, principal, form, issue_id, now).0;
    lemma_execute_preserves_inv(s0, principal, form, issue_id, now);
    let tasks = eligible_tasks(s0.subscribers, issue_id);
    lemma_pending_count_concat(s0.queue, tasks, issue_id, recipient);
    lemma_eligible_tasks_count(s0.subscribers, issue_id, issue_id, recipient);
    // nothing for the fresh issue was pending or logged before the command
    lemma_pending_count_positive(s0.queue, issue_id, recipient);
    if pending_count(s0.queue, issue_id, recipient) > 0 {
        let i = choose|i: int|
            0 <= i < s0.queue.len() && (#[trigger] s0.queue[i]).issue_id == issue_id
                && s0.queue[i].recipient == recipient;
        assert(s0.has_issue(issue_id));
        assert(false);
    }
    lemma_log_count_positive(s0.delivery_log, issue_id, recipient);
    if log_count(s0.delivery_log, issue_id, recipient) > 0 {
        let i = choose|i: int|
            0 <= i < s0.delivery_log.len() && (#[trigger] s0.delivery_log[i]).issue_id == issue_id
                && s0.delivery_log[i].recipient == recipient;
        assert(s0.has_issue(issue_id));
        assert(false);
    }
    assert(pending_count(s1.queue, issue_id, recipient) + log_count(
        s1.delivery_log,
        issue_id,
        recipient,
    ) == 1);
    lemma_drained_queue_settles_each_once(s1, outcomes, issue_id, recipient);
}

/// A transient notifier failure is not terminal: it records nothing, keeps
/// every obligation exactly as pending as before — the failing task included,
/// which stays owed — and touches no other recipient's state.
pub proof fn lemma_transient_failure_keeps_all_pending(s: DurableStateV)
    requires
        s.queue.len() > 0,
    ensures
        ({
            let s2 = spec_worker_step(s, DeliveryOutcome::TransientFailure);
            &&& s2.delivery_log == s.delivery_log
            &&& s2.issues == s.issues
            &&& s2.subscribers == s.subscribers
            &&& s2.idempotency == s.idempotency
            &&& s2.queue.len() == s.queue.len()
            &&& forall|id: u128, r: Seq<char>|
                #![trigger pending_count(spec_worker_step(s, DeliveryOutcome::TransientFailure).queue, id, r)]
                pending_count(
                    spec_worker_step(s, DeliveryOutcome::TransientFailure).queue,
                    id,
                    r,
                ) == pending_count(s.queue, id, r)
        }),
{
    let t = s.queue[0];
    let s2 = spec_worker_step(s, DeliveryOutcome::TransientFailure);
    assert forall|id: u128, r: Seq<char>|
        #![trigger pending_count(s2.queue, id, r)]
        pending_count(s2.queue, id, r) == pending_count(s.queue, id, r) by {
        lemma_pending_count_push(s.queue.drop_first(), t, id, r);
    }
}

/// After a transient failure for the task at the head of the queue, a run
/// that drains the queue still settles that recipient exactly once: the retry
/// delivers once and never twice.
pub proof fn lemma_retry_after_transient_settles_once(
    s: DurableStateV,
    outcomes: Seq<DeliveryOutcome>,
    issue_id: u128,
    recipient: Seq<char>,
)
    requires
        s.inv(),
        s.queue.len() > 0,
        pending_count(s.queue, issue_id, recipient) + log_count(
            s.delivery_log,
            issue_id,
            recipient,
        ) == 1,
        spec_worker_run(
            spec_worker_step(s, DeliveryOutcome::TransientFailure),
            outcomes,
        ).queue.len() == 0,
    ensures
        log_count(
            spec_worker_run(spec_worker_step(s, DeliveryOutcome::TransientFailure), outcomes)
                .delivery_log,
            issue_id,
            recipient,
        ) == 1,
        delivered_count(
            spec_worker_run(spec_worker_step(s, DeliveryOutcome::TransientFailure), outcomes)
                .delivery_log,
            issue_id,
            recipient,
        ) <= 1,
{
    let s2 = spec_worker_step(s, DeliveryOutcome::TransientFailure);
    lemma_worker_step_preserves_inv(s, DeliveryOutcome::TransientFailure);
    lemma_drained_queue_settles_each_once(s2, outcomes, issue_id, recipient);
}

} // verus!
