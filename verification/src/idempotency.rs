//! The idempotency store's claim protocol.
//!
//! A command invocation first tries to claim its (principal, key) slot. The
//! winner of a race inserts the one in-progress record and executes the
//! business logic; every later or concurrent invocation observes the record
//! and either waits (in progress) or replays the stored snapshot (completed).

use vstd::prelude::*;
use crate::snapshot::{ResponseSnapshot, SnapshotV};
use crate::store::{
    ClaimState, ClaimStateV, IdempotencyRecord, IdempotencyRecordV, IdempotencyStore,
    IdempotencyStoreV, lemma_record_at_index, rec_matches,
};
use crate::text::string_eq;

verus! {

/// Longest idempotency key a caller may supply, in characters.
pub const MAX_KEY_LEN: usize = 50;

/// A caller-supplied key is accepted when it is non-empty and bounded.
pub open spec fn valid_key(key: Seq<char>) -> bool {
    0 < key.len() <= MAX_KEY_LEN
}

/// Why a caller-supplied key was rejected.
#[derive(Clone, Copy, Debug, PartialEq, Eq, Structural)]
pub enum KeyError {
    Empty,
    TooLong,
}

/// A validated idempotency key: an opaque, non-empty, bounded string that
/// scopes deduplication of one logical command per principal.
pub struct IdempotencyKey {
    key: String,
}

impl View for IdempotencyKey {
    type V = Seq<char>;

    closed spec fn view(&self) -> Seq<char> {
        self.key@
    }
}

impl IdempotencyKey {
    /// Validate a raw key: rejected exactly when it is empty or too long.
    pub fn try_new(raw: String) -> (r: Result<IdempotencyKey, KeyError>)
        ensures
            match r {
                Ok(k) => valid_key(raw@) && k@ == raw@,
                Err(e) => !valid_key(raw@) && e == (if raw@.len() == 0 {
                    KeyError::Empty
                } else {
                    KeyError::TooLong
                }),
            },
    {
        if raw.as_str().is_empty() {
            return Err(KeyError::Empty);
        }
        let n = raw.as_str().unicode_len();
        if n > MAX_KEY_LEN {
            return Err(KeyError::TooLong);
        }
        Ok(IdempotencyKey { key: raw })
    }

    /// The underlying key string.
    pub fn raw(&self) -> (s: &String)
        ensures
            s@ == self@,
    {
        &self.key
    }
}

/// What `try_claim` reports back to the caller.
pub enum ClaimOutcome {
    /// The caller won the slot: it must run the business logic and complete.
    Claimed,
    /// Another invocation holds the slot in progress: wait and re-check.
    Pending,
    /// The command already completed: return this snapshot verbatim.
    AlreadyCompleted(ResponseSnapshot),
}

#[verifier::ext_equal]
pub enum ClaimOutcomeV {
    Claimed,
    Pending,
    AlreadyCompleted(SnapshotV),
}

impl View for ClaimOutcome {
    type V = ClaimOutcomeV;

    open spec fn view(&self) -> ClaimOutcomeV {
        match self {
            ClaimOutcome::Claimed => ClaimOutcomeV::Claimed,
            ClaimOutcome::Pending => ClaimOutcomeV::Pending,
            ClaimOutcome::AlreadyCompleted(snap) => ClaimOutcomeV::AlreadyCompleted(snap@),
        }
    }
}

/// The record `try_claim` inserts when the slot is free.
pub open spec fn in_progress_record(principal: u128, key: Seq<char>, now: i64) -> IdempotencyRecordV {
    IdempotencyRecordV {
        principal,
        key,
        state: ClaimStateV::InProgress,
        created_at: now,
    }
}

/// One atomic insert-if-absent on the idempotency table.
pub open spec fn spec_try_claim(
    s: IdempotencyStoreV,
    principal: u128,
    key: Seq<char>,
    now: i64,
) -> (IdempotencyStoreV, ClaimOutcomeV) {
    if !s.has_record(principal, key) {
        (
            IdempotencyStoreV { records: s.records.push(in_progress_record(principal, key, now)) },
            ClaimOutcomeV::Claimed,
        )
    } else {
        match s.record(principal, key).state {
            ClaimStateV::InProgress => (s, ClaimOutcomeV::Pending),
            ClaimStateV::Completed(snap) => (s, ClaimOutcomeV::AlreadyCompleted(snap)),
        }
    }
}

/// The atomic transition of the one in-progress record to completed.
pub open spec fn spec_complete(
    s: IdempotencyStoreV,
    principal: u128,
    key: Seq<char>,
    snap: SnapshotV,
) -> IdempotencyStoreV
    recommends
        s.has_record(principal, key),
{
    let i = s.record_index(principal, key);
    IdempotencyStoreV {
        records: s.records.update(
            i,
            IdempotencyRecordV { state: ClaimStateV::Completed(snap), ..s.records[i] },
        ),
    }
}

/// Once a slot exists, no later claim attempt can win it again: whoever
/// observes it either waits or replays, so exactly one invocation per
/// (principal, key) ever runs the business logic.
pub proof fn lemma_claim_is_exclusive(
    s: IdempotencyStoreV,
    principal: u128,
    key: Seq<char>,
    now: i64,
)
    requires
        s.has_record(principal, key),
    ensures
        !(spec_try_claim(s, principal, key, now).1 is Claimed),
        spec_try_claim(s, principal, key, now).0 == s,
{
}

impl IdempotencyStore {
    /// Index of the row for (principal, key), if one exists.
    fn find(&self, principal: u128, key: &IdempotencyKey) -> (r: Option<usize>)
        ensures
            match r {
                Some(i) => i < self.records.len()
                    && rec_matches(self@.records[i as int], principal, key@),
                None => !self@.has_record(principal, key@),
            },
    {
        let mut i: usize = 0;
        while i < self.records.len()
            invariant
                i <= self.records.len(),
                forall|j: int| 0 <= j < i ==> !rec_matches(#[trigger] self@.records[j], principal, key@),
            decreases self.records.len() - i,
        {
            if self.records[i].principal == principal
                && string_eq(&self.records[i].key, key.raw()) {
                return Some(i);
            }
            i = i + 1;
        }
        None
    }

    /// Try to claim the slot for (principal, key): insert the in-progress
    /// record if no row exists, otherwise report the existing row's state.
    pub fn try_claim(&mut self, principal: u128, key: &IdempotencyKey, now: i64) -> (o:
        ClaimOutcome)
        requires
            old(self)@.wf(),
        ensures
            final(self)@.wf(),
            ({
                let (s2, o2) = spec_try_claim(old(self)@, principal, key@, now);
                final(self)@ == s2 && o@ == o2
            }),
    {
        match self.find(principal, key) {
            None => {
                let ghost old_view = self@;
                self.records.push(IdempotencyRecord {
                    principal,
                    key: key.raw().clone(),
                    state: ClaimState::InProgress,
                    created_at: now,
                });
                proof {
                    assert(self@.records =~= old_view.records.push(
                        in_progress_record(principal, key@, now),
                    ));
                    let n = old_view.records.len() as int;
                    assert forall|i: int, j: int|
                        0 <= i < self@.records.len() && 0 <= j < self@.records.len() && i != j
                            implies !(self@.records[i].principal == self@.records[j].principal
                            && self@.records[i].key == self@.records[j].key) by {
                        if i < n && j < n {
                            assert(self@.records[i] == old_view.records[i]);
                            assert(self@.records[j] == old_view.records[j]);
                        } else if i == n {
                            assert(!rec_matches(old_view.records[j], principal, key@));
                        } else {
                            assert(j == n);
                            assert(!rec_matches(old_view.records[i], principal, key@));
                        }
                    }
                }
                ClaimOutcome::Claimed
            },
            Some(i) => {
                proof {
                    lemma_record_at_index(self@, principal, key@, i as int);
                }
                match &self.records[i].state {
                    ClaimState::InProgress => ClaimOutcome::Pending,
                    ClaimState::Completed(snap) => ClaimOutcome::AlreadyCompleted(snap.duplicate()),
                }
            },
        }
    }

    /// Transition the in-progress record for (principal, key) to completed,
    /// storing the response snapshot. Must be called exactly once per claimed
    /// slot, by the invocation that won the claim, inside the same atomic
    /// unit of work as the business write.
    pub fn complete(&mut self, principal: u128, key: &IdempotencyKey, snapshot: ResponseSnapshot)
        requires
            old(self)@.wf(),
            old(self)@.has_record(principal, key@),
            old(self)@.record(principal, key@).state is InProgress,
        ensures
            final(self)@.wf(),
            final(self)@ == spec_complete(old(self)@, principal, key@, snapshot@),
    {
        let r = self.find(principal, key);
        let i = if let Some(i) = r {
            i
        } else {
            proof {
                assert(false);
            }
            0
        };
        proof {
            lemma_record_at_index(self@, principal, key@, i as int);
        }
        let ghost old_view = self@;
        let rec_principal = self.records[i].principal;
        let rec_key = self.records[i].key.clone();
        let rec_created_at = self.records[i].created_at;
        self.records.set(i, IdempotencyRecord {
            principal: rec_principal,
            key: rec_key,
            state: ClaimState::Completed(snapshot),
            created_at: rec_created_at,
        });
        proof {
            assert(self@.records =~= old_view.records.update(
                i as int,
                IdempotencyRecordV {
                    state: ClaimStateV::Completed(snapshot@),
                    ..old_view.records[i as int]
                },
            ));
            assert(final(self)@ =~= spec_complete(old_view, principal, key@, snapshot@));
            assert forall|a: int, b: int|
                0 <= a < self@.records.len() && 0 <= b < self@.records.len() && a != b
                    implies !(self@.records[a].principal == self@.records[b].principal
                    && self@.records[a].key == self@.records[b].key) by {
                assert(self@.records[a].principal == old_view.records[a].principal
                    && self@.records[a].key == old_view.records[a].key);
                assert(self@.records[b].principal == old_view.records[b].principal
                    && self@.records[b].key == old_view.records[b].key);
            }
        }
    }

    /// The stored snapshot for (principal, key), if the command completed.
    pub fn get_saved_response(&self, principal: u128, key: &IdempotencyKey) -> (r: Option<
        ResponseSnapshot,
    >)
        requires
            self@.wf(),
        ensures
            match r {
                Some(snap) => self@.has_record(principal, key@)
                    && self@.record(principal, key@).state == ClaimStateV::Completed(snap@),
                None => !self@.has_record(principal, key@)
                    || self@.record(principal, key@).state is InProgress,
            },
    {
        match self.find(principal, key) {
            None => None,
            Some(i) => {
                proof {
                    lemma_record_at_index(self@, principal, key@, i as int);
                }
                match &self.records[i].state {
                    ClaimState::InProgress => None,
                    ClaimState::Completed(snap) => Some(snap.duplicate()),
                }
            },
        }
    }
}

/// What a waiting caller should do after one poll of the store.
pub enum PollDecision {
    /// The in-flight invocation finished: replay its snapshot verbatim.
    Replay(ResponseSnapshot),
    /// Still in progress and attempts remain: back off and poll again.
    Wait,
    /// The bound is exhausted: fail with a retryable error instead of
    /// blocking forever on a claimant that may have crashed.
    GiveUp,
}

/// Decide one pass of the bounded busy-poll that waits for another in-flight
/// invocation of the same command to complete.
pub fn poll_decision(saved: Option<ResponseSnapshot>, attempts_left: u32) -> (d: PollDecision)
    ensures
        match saved {
            Some(s) => d matches PollDecision::Replay(r) && r == s,
            None => if attempts_left > 0 {
                d is Wait
            } else {
                d is GiveUp
            },
        },
{
    match saved {
        Some(s) => PollDecision::Replay(s),
        None => if attempts_left > 0 {
            PollDecision::Wait
        } else {
            PollDecision::GiveUp
        },
    }
}

} // verus!
