//! The round/queue state machine: the authoritative ceremony state.
//!
//! A participant occupies exactly one of six states: unknown, queued,
//! current contributor, finished contributor of the round, dropped, or
//! banned. The round height only moves forward. Every operation here takes
//! the state by `&mut self`, so Rust's exclusivity is the single-writer
//! discipline: no two state mutations can be in flight at once.
//!
//! All operations require and preserve [`CoordinatorState::wf`]; the
//! constructor establishes it.

use vstd::prelude::*;

use crate::errors::CoordinatorError;
use crate::errors::ResponseError;
use crate::objects::{ContributorStatus, LockedLocators, Task};
use crate::participant::{lex_lt, str_lex_lt, Participant};
use crate::tokens::TokenStore;

verus! {

/// A contributor waiting in the queue.
pub struct QueueEntry {
    pub participant: Participant,
    /// Source address presented at admission, if any.
    pub address: Option<String>,
    /// Initial reputation; queue metadata, not read by any transition.
    pub reliability: u64,
    /// Round this entry is planned for, if planned already.
    pub assigned_round: Option<u64>,
    /// Cohort index at admission.
    pub cohort: usize,
    /// Admission order stamp.
    pub admitted_at: u64,
    /// Last heartbeat stamp.
    pub last_seen: u64,
}

/// Whether a participant with view `v` occurs in `s`.
pub open spec fn is_in(s: Seq<Participant>, v: (bool, Seq<char>)) -> bool {
    exists|i: int| 0 <= i < s.len() && (#[trigger] s[i]@) == v
}

/// Whether all participants of `s` are distinct.
pub open spec fn no_dup_participants(s: Seq<Participant>) -> bool {
    forall|i: int, j: int| 0 <= i < j < s.len() ==> (#[trigger] s[i]@) != (#[trigger] s[j]@)
}

/// Whether a queue holds a participant with view `v`.
pub open spec fn queue_holds(q: Seq<QueueEntry>, v: (bool, Seq<char>)) -> bool {
    exists|i: int| 0 <= i < q.len() && (#[trigger] q[i].participant@) == v
}

/// Whether the history records a finished contributor for round `r`.
pub open spec fn round_on_record(h: Seq<(u64, Participant)>, r: int) -> bool {
    exists|i: int| 0 <= i < h.len() && (#[trigger] h[i]).0 == r
}

/// Whether some queue entry presents the address text `a`.
pub open spec fn queue_holds_address(q: Seq<QueueEntry>, a: Seq<char>) -> bool {
    exists|i: int|
        0 <= i < q.len() && (#[trigger] q[i].address) is Some && q[i].address->Some_0@ == a
}

/// The authoritative round/queue/participant state.
pub struct CoordinatorState {
    /// The current round number; only ever advances.
    pub round_height: u64,
    /// Contributors waiting for a round, in admission order.
    pub queue: Vec<QueueEntry>,
    /// The one contributor allowed to act in the current round.
    pub current: Option<Participant>,
    /// Whether the current contributor has locked the round's chunk.
    pub current_locked: bool,
    /// Last heartbeat stamp of the current contributor.
    pub current_last_seen: u64,
    /// Contributors that finished the current round (at most one).
    pub finished: Vec<Participant>,
    /// Participants dropped for missing heartbeats.
    pub dropped: Vec<Participant>,
    /// Participants banned from the ceremony.
    pub banned: Vec<Participant>,
    /// The task whose uploaded artifact awaits verification, if any.
    pub pending_verification: Option<Task>,
    /// Completed rounds: (round, the contributor that finished it).
    pub history: Vec<(u64, Participant)>,
    /// The cohort admission tokens.
    pub tokens: TokenStore,
    /// The coordinator's own verifiers; the first one may administer.
    pub verifiers: Vec<Participant>,
    /// Set on shutdown; all further mutating operations fail.
    pub done: bool,
}

impl CoordinatorState {
    /// Whether `v` is waiting in the queue.
    pub open spec fn in_queue(&self, v: (bool, Seq<char>)) -> bool {
        queue_holds(self.queue@, v)
    }

    /// Whether `v` is the current contributor.
    pub open spec fn is_current(&self, v: (bool, Seq<char>)) -> bool {
        match self.current {
            Some(c) => c@ == v,
            None => false,
        }
    }

    /// Whether `v` finished the current round.
    pub open spec fn in_finished(&self, v: (bool, Seq<char>)) -> bool {
        is_in(self.finished@, v)
    }

    /// Whether `v` was dropped.
    pub open spec fn in_dropped(&self, v: (bool, Seq<char>)) -> bool {
        is_in(self.dropped@, v)
    }

    /// Whether `v` was banned.
    pub open spec fn in_banned(&self, v: (bool, Seq<char>)) -> bool {
        is_in(self.banned@, v)
    }

    /// Whether `v` is known to the ceremony at all.
    pub open spec fn known(&self, v: (bool, Seq<char>)) -> bool {
        self.in_queue(v) || self.is_current(v) || self.in_finished(v) || self.in_dropped(v)
            || self.in_banned(v)
    }

    /// Well-formedness: each participant is in at most one bucket, each
    /// bucket holds no duplicates, the round has at most one finished
    /// contributor (none while one is still current), a pending
    /// verification names exactly the current round's single uploaded
    /// contribution, and every completed round is on record.
    pub open spec fn wf(&self) -> bool {
        &&& (forall|i: int, j: int|
            0 <= i < j < self.queue@.len() ==> (#[trigger] self.queue@[i].participant@) != (
            #[trigger] self.queue@[j].participant@))
        &&& no_dup_participants(self.finished@)
        &&& no_dup_participants(self.dropped@)
        &&& no_dup_participants(self.banned@)
        &&& (forall|i: int|
            0 <= i < self.queue@.len() ==> {
                let v = (#[trigger] self.queue@[i].participant@);
                !self.is_current(v) && !self.in_finished(v) && !self.in_dropped(v)
                    && !self.in_banned(v)
            })
        &&& (match self.current {
            Some(c) => !self.in_finished(c@) && !self.in_dropped(c@) && !self.in_banned(c@),
            None => true,
        })
        &&& (forall|i: int|
            0 <= i < self.finished@.len() ==> {
                let v = (#[trigger] self.finished@[i]@);
                !self.in_dropped(v) && !self.in_banned(v)
            })
        &&& (forall|i: int|
            0 <= i < self.dropped@.len() ==> !self.in_banned(#[trigger] self.dropped@[i]@))
        &&& self.finished@.len() <= 1
        &&& (self.current is Some ==> self.finished@.len() == 0)
        &&& (match self.pending_verification {
            Some(t) => self.finished@.len() == 1 && self.current is None && t
                == (Task { round_height: self.round_height, chunk_id: 0u64, contribution_id: 1u64 }),
            None => true,
        })
        &&& (forall|r: int|
            1 <= r < self.round_height ==> #[trigger] round_on_record(self.history@, r))
    }

    /// A fresh coordinator: round 1 open, nobody admitted, nothing pending.
    pub fn new(tokens: TokenStore, verifiers: Vec<Participant>) -> (r: CoordinatorState)
        ensures
            r.wf(),
            r.round_height == 1,
            r.queue@.len() == 0,
            r.current is None,
            r.finished@.len() == 0,
            r.dropped@.len() == 0,
            r.banned@.len() == 0,
            r.pending_verification is None,
            r.history@.len() == 0,
            r.tokens == tokens,
            r.verifiers == verifiers,
            !r.done,
    {
        CoordinatorState {
            round_height: 1,
            queue: Vec::new(),
            current: None,
            current_locked: false,
            current_last_seen: 0,
            finished: Vec::new(),
            dropped: Vec::new(),
            banned: Vec::new(),
            pending_verification: None,
            history: Vec::new(),
            tokens,
            verifiers,
            done: false,
        }
    }

    /// The current round number.
    pub fn current_round_height(&self) -> (r: u64)
        ensures
            r == self.round_height,
    {
        self.round_height
    }

    /// The admission cohort currently open.
    pub fn get_cohort(&self) -> (r: usize)
        ensures
            r == self.tokens.current_cohort,
    {
        self.tokens.get_cohort()
    }

    /// Whether this participant is the current contributor.
    pub fn is_current_contributor(&self, participant: &Participant) -> (r: bool)
        ensures
            r == self.is_current(participant@),
    {
        match &self.current {
            Some(c) => c.eq(participant),
            None => false,
        }
    }

    /// Whether this participant is waiting in the queue.
    pub fn is_queue_contributor(&self, participant: &Participant) -> (r: bool)
        ensures
            r == self.in_queue(participant@),
    {
        queue_index_of(&self.queue, participant).is_some()
    }

    /// Whether this participant finished the current round.
    pub fn is_finished_contributor(&self, participant: &Participant) -> (r: bool)
        ensures
            r == self.in_finished(participant@),
    {
        index_of(&self.finished, participant).is_some()
    }

    /// Whether this participant was dropped.
    pub fn is_dropped_participant(&self, participant: &Participant) -> (r: bool)
        ensures
            r == self.in_dropped(participant@),
    {
        index_of(&self.dropped, participant).is_some()
    }

    /// Whether this participant was banned.
    pub fn is_banned_participant(&self, participant: &Participant) -> (r: bool)
        ensures
            r == self.in_banned(participant@),
    {
        index_of(&self.banned, participant).is_some()
    }

    /// How many contributors wait in the queue.
    pub fn number_of_queue_contributors(&self) -> (r: usize)
        ensures
            r == self.queue@.len(),
    {
        self.queue.len()
    }

    /// The queue metadata of a participant: (reliability, assigned round,
    /// cohort at admission, admission stamp).
    pub fn queue_contributor_info(&self, participant: &Participant) -> (r: Option<
        (u64, Option<u64>, usize, u64),
    >)
        ensures
            r is Some <==> self.in_queue(participant@),
            r is Some ==> exists|i: int|
                0 <= i < self.queue@.len() && (#[trigger] self.queue@[i].participant@)
                    == participant@ && r->Some_0 == (
                self.queue@[i].reliability,
                self.queue@[i].assigned_round,
                self.queue@[i].cohort,
                self.queue@[i].admitted_at,
            ),
    {
        match queue_index_of(&self.queue, participant) {
            Some(i) => {
                let e = &self.queue[i];
                Some((e.reliability, e.assigned_round, e.cohort, e.admitted_at))
            },
            None => None,
        }
    }

    /// Checks whether a new participant may be admitted: the coordinator is
    /// running, the participant is entirely unknown — in particular neither
    /// banned nor dropped — and no queued entry already presented the same
    /// source address.
    pub fn add_to_queue_checks(&self, participant: &Participant, ip: Option<&String>) -> (r:
        Result<(), CoordinatorError>)
        ensures
            r is Ok <==> !self.done && !self.known(participant@) && (ip is Some
                ==> !queue_holds_address(self.queue@, ip->Some_0@)),
            r is Err ==> match r->Err_0 {
                CoordinatorError::CeremonyShutdown => self.done,
                CoordinatorError::ParticipantBanned => !self.done && self.in_banned(participant@),
                CoordinatorError::ParticipantDropped => !self.done && !self.in_banned(
                    participant@,
                ) && self.in_dropped(participant@),
                CoordinatorError::ParticipantAlreadyAdded => !self.done && !self.in_banned(
                    participant@,
                ) && !self.in_dropped(participant@) && (self.in_queue(participant@)
                    || self.is_current(participant@) || self.in_finished(participant@)),
                CoordinatorError::AddressAlreadyInQueue => !self.done && !self.known(participant@)
                    && ip is Some && queue_holds_address(self.queue@, ip->Some_0@),
                _ => false,
            },
    {
        if self.done {
            return Err(CoordinatorError::CeremonyShutdown);
        }
        if self.is_banned_participant(participant) {
            return Err(CoordinatorError::ParticipantBanned);
        }
        if self.is_dropped_participant(participant) {
            return Err(CoordinatorError::ParticipantDropped);
        }
        if self.is_queue_contributor(participant) || self.is_current_contributor(participant)
            || self.is_finished_contributor(participant) {
            return Err(CoordinatorError::ParticipantAlreadyAdded);
        }
        if let Some(a) = ip {
            if queue_address_used(&self.queue, a) {
                return Err(CoordinatorError::AddressAlreadyInQueue);
            }
        }
        Ok(())
    }

    /// Admits a participant to the queue with the given initial reliability.
    ///
    /// Succeeds exactly when [`Self::add_to_queue_checks`] passes; then the
    /// participant is appended to the queue, unplanned, stamped `now`, with
    /// the cohort open at admission, and nothing else changes. On failure
    /// the state is unchanged.
    #[verifier::rlimit(60)]
    pub fn add_to_queue(
        &mut self,
        participant: Participant,
        ip: Option<String>,
        reliability: u64,
        now: u64,
    ) -> (r: Result<(), CoordinatorError>)
        requires
            old(self).wf(),
        ensures
            final(self).wf(),
            r is Ok <==> !old(self).done && !old(self).known(participant@) && (ip is Some
                ==> !queue_holds_address(old(self).queue@, ip->Some_0@)),
            r is Ok ==> ({
                let e = final(self).queue@.last();
                &&& final(self).queue@ == old(self).queue@.push(e)
                &&& e.participant@ == participant@
                &&& e.assigned_round is None
                &&& e.reliability == reliability
                &&& e.admitted_at == now
                &&& e.last_seen == now
                &&& e.cohort == old(self).tokens.current_cohort
                &&& final(self).current == old(self).current
                &&& final(self).current_locked == old(self).current_locked
                &&& final(self).finished == old(self).finished
                &&& final(self).dropped == old(self).dropped
                &&& final(self).banned == old(self).banned
                &&& final(self).pending_verification == old(self).pending_verification
                &&& final(self).history == old(self).history
                &&& final(self).tokens == old(self).tokens
                &&& final(self).verifiers == old(self).verifiers
                &&& final(self).done == old(self).done
            }),
            r is Err ==> *final(self) == *old(self),
            final(self).round_height == old(self).round_height,
    {
        let checks = self.add_to_queue_checks(&participant, ip.as_ref());
        if let Err(e) = checks {
            return Err(e);
        }
        let entry = QueueEntry {
            participant,
            address: ip,
            reliability,
            assigned_round: None,
            cohort: self.tokens.get_cohort(),
            admitted_at: now,
            last_seen: now,
        };
        self.queue.push(entry);
        proof {
            lemma_wf_after_admit(*old(self), *self, self.queue@.last());
        }
        Ok(())
    }

    /// Locks the round's single chunk for the current contributor.
    ///
    /// This is the first step of a contribution; it succeeds exactly when
    /// the caller is the current contributor and the chunk is not locked
    /// yet, and then hands out the locators of the previous artifact and of
    /// the expected new one.
    pub fn try_lock(&mut self, participant: &Participant) -> (r: Result<
        LockedLocators,
        CoordinatorError,
    >)
        requires
            old(self).wf(),
        ensures
            final(self).wf(),
            r is Ok <==> !old(self).done && old(self).is_current(participant@) && !old(self).current_locked,
            r is Ok ==> r->Ok_0 == crate::objects::spec_locked_locators(old(self).round_height)
                && final(self).current_locked && final(self).queue == old(self).queue && final(self).current == old(self).current && final(self).finished == old(self).finished && final(self).dropped == old(self).dropped && final(self).banned == old(self).banned && final(self).pending_verification == old(self).pending_verification && final(self).history == old(self).history && final(self).tokens == old(self).tokens && final(self).done == old(self).done && final(self).verifiers == old(self).verifiers && final(self).current_last_seen
                == old(self).current_last_seen,
            r is Err ==> *final(self) == *old(self) && match r->Err_0 {
                CoordinatorError::CeremonyShutdown => old(self).done,
                CoordinatorError::NotCurrentContributor => !old(self).done && !old(self).is_current(participant@),
                CoordinatorError::ChunkAlreadyLocked => !old(self).done && old(self).is_current(
                    participant@,
                ) && old(self).current_locked,
                _ => false,
            },
            final(self).round_height == old(self).round_height,
    {
        if self.done {
            return Err(CoordinatorError::CeremonyShutdown);
        }
        if !self.is_current_contributor(participant) {
            return Err(CoordinatorError::NotCurrentContributor);
        }
        if self.current_locked {
            return Err(CoordinatorError::ChunkAlreadyLocked);
        }
        self.current_locked = true;
        Ok(LockedLocators::for_round(self.round_height))
    }

    /// Registers the current contributor's uploaded contribution to the
    /// round's single chunk (chunk 0).
    ///
    /// Succeeds exactly when the caller is the current contributor, the
    /// chunk is locked, and the chunk id is 0; then the contributor becomes
    /// the round's finished contributor and the round's contribution awaits
    /// verification.
    pub fn try_contribute(&mut self, participant: &Participant, chunk_id: u64) -> (r: Result<
        (),
        CoordinatorError,
    >)
        requires
            old(self).wf(),
        ensures
            final(self).wf(),
            r is Ok <==> !old(self).done && chunk_id == 0 && old(self).is_current(participant@)
                && old(self).current_locked,
            r is Ok ==> final(self).current is None && !final(self).current_locked && final(self).finished@.len() == 1 && final(self).finished@[0]@ == participant@ && final(self).pending_verification == Some(
                Task {
                    round_height: old(self).round_height,
                    chunk_id: 0u64,
                    contribution_id: 1u64,
                },
            ) && final(self).queue == old(self).queue && final(self).dropped == old(self).dropped
                && final(self).banned == old(self).banned && final(self).history == old(self).history && final(self).tokens == old(self).tokens && final(self).done == old(self).done && final(self).verifiers == old(self).verifiers,
            r is Err ==> *final(self) == *old(self) && match r->Err_0 {
                CoordinatorError::CeremonyShutdown => old(self).done,
                CoordinatorError::WrongChunk => !old(self).done && chunk_id != 0,
                CoordinatorError::NotCurrentContributor => !old(self).done && chunk_id == 0
                    && !old(self).is_current(participant@),
                CoordinatorError::ChunkNotLocked => !old(self).done && chunk_id == 0 && old(self).is_current(participant@) && !old(self).current_locked,
                _ => false,
            },
            final(self).round_height == old(self).round_height,
    {
        if self.done {
            return Err(CoordinatorError::CeremonyShutdown);
        }
        if chunk_id != 0 {
            return Err(CoordinatorError::WrongChunk);
        }
        if !self.is_current_contributor(participant) {
            return Err(CoordinatorError::NotCurrentContributor);
        }
        if !self.current_locked {
            return Err(CoordinatorError::ChunkNotLocked);
        }
        self.current = None;
        self.current_locked = false;
        self.finished.push(participant.clone());
        self.pending_verification = Some(
            Task { round_height: self.round_height, chunk_id: 0, contribution_id: 1 },
        );
        Ok(())
    }

    /// Refreshes the liveness stamp of a queued or current participant.
    pub fn heartbeat(&mut self, participant: &Participant, now: u64) -> (r: Result<
        (),
        CoordinatorError,
    >)
        requires
            old(self).wf(),
        ensures
            final(self).wf(),
            r is Ok <==> !old(self).done && (old(self).is_current(participant@) || old(self).in_queue(participant@)),
            r is Ok && old(self).is_current(participant@) ==> final(self).current_last_seen == now
                && final(self).queue == old(self).queue,
            r is Ok && !old(self).is_current(participant@) ==> exists|i: int|
                0 <= i < old(self).queue@.len() && (#[trigger] old(self).queue@[i].participant@)
                    == participant@ && final(self).queue@ =~= old(self).queue@.update(
                    i,
                    QueueEntry { last_seen: now, ..old(self).queue@[i] },
                ),
            r is Ok ==> final(self).current == old(self).current && final(self).finished == old(self).finished && final(self).dropped == old(self).dropped && final(self).banned == old(self).banned && final(self).pending_verification == old(self).pending_verification
                && final(self).history == old(self).history && final(self).tokens == old(self).tokens && final(self).done == old(self).done,
            r is Err ==> *final(self) == *old(self) && match r->Err_0 {
                CoordinatorError::CeremonyShutdown => old(self).done,
                CoordinatorError::ParticipantUnknown => !old(self).done && !old(self).is_current(
                    participant@,
                ) && !old(self).in_queue(participant@),
                _ => false,
            },
            final(self).round_height == old(self).round_height,
    {
        if self.done {
            return Err(CoordinatorError::CeremonyShutdown);
        }
        if self.is_current_contributor(participant) {
            self.current_last_seen = now;
            return Ok(());
        }
        match queue_index_of(&self.queue, participant) {
            Some(i) => {
                let mut e = self.queue.remove(i);
                e.last_seen = now;
                self.queue.insert(i, e);
                proof {
                    assert(final(self).queue@ =~= old(self).queue@.update(
                        i as int,
                        QueueEntry { last_seen: now, ..old(self).queue@[i as int] },
                    ));
                    assert forall|k: int| 0 <= k < final(self).queue@.len() implies (
                    #[trigger] final(self).queue@[k].participant@) == old(self).queue@[k].participant@ by {}
                }
                Ok(())
            },
            None => Err(CoordinatorError::ParticipantUnknown),
        }
    }

    /// Marks the coordinator terminal; every further mutating operation
    /// fails.
    pub fn shutdown(&mut self) -> (r: Result<(), CoordinatorError>)
        requires
            old(self).wf(),
        ensures
            final(self).wf(),
            r is Ok <==> !old(self).done,
            r is Err ==> r->Err_0 is CeremonyShutdown,
            final(self).done,
            final(self).queue == old(self).queue && final(self).current == old(self).current
                && final(self).finished == old(self).finished && final(self).dropped == old(self).dropped && final(self).banned == old(self).banned && final(self).pending_verification == old(self).pending_verification && final(self).history == old(self).history && final(self).tokens == old(self).tokens && final(self).verifiers == old(self).verifiers && final(self).current_locked == old(self).current_locked,
            final(self).round_height == old(self).round_height,
    {
        if self.done {
            return Err(CoordinatorError::CeremonyShutdown);
        }
        self.done = true;
        Ok(())
    }

    /// Advances the ceremony: when the round has a verified contribution
    /// and a contributor is waiting, the round is completed and the next
    /// contributor promoted; when the round lost its contributor (drop or
    /// reset), a waiting contributor is promoted into the same round.
    ///
    /// Promotion picks the least queue entry under [`ahead`]: assigned
    /// round ascending (unplanned entries last), then admission order, with
    /// ties broken by participant identity. Returns whether anything
    /// changed; the round height never moves backwards.
    #[verifier::rlimit(60)]
    pub fn update(&mut self) -> (r: Result<bool, CoordinatorError>)
        requires
            old(self).wf(),
        ensures
            final(self).wf(),
            final(self).round_height >= old(self).round_height,
            r is Err <==> old(self).done || (old(self).pending_verification is None && old(self).finished@.len() == 1 && old(self).round_height == u64::MAX),
            r is Err ==> *final(self) == *old(self) && match r->Err_0 {
                CoordinatorError::CeremonyShutdown => old(self).done,
                CoordinatorError::RoundHeightOverflow => !old(self).done && old(self).pending_verification is None && old(self).finished@.len() == 1 && old(self).round_height == u64::MAX,
                _ => false,
            },
            r is Ok ==> spec_advance_effect(*old(self), *final(self), r->Ok_0),
    {
        if self.done {
            return Err(CoordinatorError::CeremonyShutdown);
        }
        if self.pending_verification.is_some() {
            return Ok(false);
        }
        if self.finished.len() > 0 {
            if self.round_height == u64::MAX {
                return Err(CoordinatorError::RoundHeightOverflow);
            }
            let c = self.finished.remove(0);
            self.history.push((self.round_height, c));
            self.round_height = self.round_height + 1;
            self.current = None;
            self.current_locked = false;
            proof {
                assert forall|r2: int|
                    1 <= r2 < self.round_height implies #[trigger] round_on_record(
                    self.history@,
                    r2,
                ) by {
                    if r2 < old(self).round_height {
                        assert(round_on_record(old(self).history@, r2));
                        let w = choose|w: int|
                            0 <= w < old(self).history@.len() && (#[trigger] old(self).history@[w]).0 == r2;
                        assert((self.history@[w]).0 == r2);
                    } else {
                        assert((self.history@[old(self).history@.len() as int]).0 == r2);
                    }
                }
                assert(self.finished@ =~= Seq::<Participant>::empty());
            }
            if self.queue.len() > 0 {
                let idx = select_next(&self.queue);
                let e = self.queue.remove(idx);
                self.current = Some(e.participant);
                self.current_last_seen = e.last_seen;
                proof {
                    old(self).queue@.remove_ensures(idx as int);
                    assert forall|k: int|
                        0 <= k < self.queue@.len() implies (#[trigger] self.queue@[k].participant@)
                            != old(self).queue@[idx as int].participant@ && queue_holds(
                        old(self).queue@,
                        self.queue@[k].participant@,
                    ) by {
                        if k < idx {
                            assert(self.queue@[k] == old(self).queue@[k]);
                        } else {
                            assert(self.queue@[k] == old(self).queue@[k + 1]);
                        }
                    }
                    assert forall|k: int, j: int|
                        0 <= k < j < self.queue@.len() implies (
                    #[trigger] self.queue@[k].participant@) != (
                    #[trigger] self.queue@[j].participant@) by {
                        let k2: int = if k < idx {
                            k
                        } else {
                            k + 1
                        };
                        let j2: int = if j < idx {
                            j
                        } else {
                            j + 1
                        };
                        assert(self.queue@[k] == old(self).queue@[k2] && self.queue@[j] == old(self).queue@[j2]);
                    }
                    assert forall|k: int|
                        0 <= k < self.queue@.len() implies {
                            let v = (#[trigger] self.queue@[k].participant@);
                            !final(self).is_current(v) && !final(self).in_finished(v) && !final(self).in_dropped(v) && !final(self).in_banned(v)
                        } by {
                        let v = self.queue@[k].participant@;
                        assert(queue_holds(old(self).queue@, v));
                        let w = choose|w: int|
                            0 <= w < old(self).queue@.len() && (#[trigger] old(self).queue@[w].participant@) == v;
                        assert(!old(self).in_dropped(old(self).queue@[w].participant@) && !old(self).in_banned(old(self).queue@[w].participant@));
                    }
                    assert(!old(self).in_dropped(old(self).queue@[idx as int].participant@)
                        && !old(self).in_banned(old(self).queue@[idx as int].participant@));
                }
            }
            Ok(true)
        } else if self.current.is_none() {
            if self.queue.len() == 0 {
                return Ok(false);
            }
            let idx = select_next(&self.queue);
            let e = self.queue.remove(idx);
            self.current = Some(e.participant);
            self.current_locked = false;
            self.current_last_seen = e.last_seen;
            proof {
                old(self).queue@.remove_ensures(idx as int);
                lemma_wf_after_promote(*old(self), *self, idx as int);
            }
            Ok(true)
        } else {
            Ok(false)
        }
    }

    /// Drops every participant whose last heartbeat is older than
    /// `timeout` at `now`: unresponsive queue entries leave the queue and
    /// an unresponsive current contributor loses the slot, all marked
    /// dropped. Everything else, the round height included, is unchanged.
    #[verifier::rlimit(30)]
    pub fn drop_unresponsive(&mut self, now: u64, timeout: u64) -> (r: Result<
        (),
        CoordinatorError,
    >)
        requires
            old(self).wf(),
        ensures
            final(self).wf(),
            r is Ok <==> !old(self).done,
            r is Err ==> *final(self) == *old(self) && r->Err_0 is CeremonyShutdown,
            r is Ok ==> spec_drop_effect(*old(self), *final(self), now, timeout),
            final(self).round_height == old(self).round_height,
    {
        if self.done {
            return Err(CoordinatorError::CeremonyShutdown);
        }
        let n = self.queue.len();
        let ghost oq = self.queue@;
        let ghost od = self.dropped@;
        let mut kept: Vec<QueueEntry> = Vec::new();
        let mut i: usize = 0;
        proof {
            assert(oq.subrange(0, 0) =~= Seq::<QueueEntry>::empty());
            assert(self.dropped@ =~= od + stale_participants(oq.subrange(0, 0), now, timeout));
            assert(self.queue@ =~= oq.subrange(0, n as int));
        }
        while i < n
            invariant
                0 <= i <= n,
                n == oq.len(),
                self.queue@ == oq.subrange(i as int, n as int),
                kept@ == fresh_entries(oq.subrange(0, i as int), now, timeout),
                self.dropped@ == od + stale_participants(oq.subrange(0, i as int), now, timeout),
                od == old(self).dropped@,
                oq == old(self).queue@,
                self.round_height == old(self).round_height,
                self.current == old(self).current,
                self.current_locked == old(self).current_locked,
                self.current_last_seen == old(self).current_last_seen,
                self.finished == old(self).finished,
                self.banned == old(self).banned,
                self.pending_verification == old(self).pending_verification,
                self.history == old(self).history,
                self.tokens == old(self).tokens,
                self.verifiers == old(self).verifiers,
                self.done == old(self).done,
            decreases n - i,
        {
            let e = self.queue.remove(0);
            proof {
                assert(e == oq[i as int]);
                assert(self.queue@ =~= oq.subrange(i as int + 1, n as int));
                assert(oq.subrange(0, i as int + 1).drop_last() =~= oq.subrange(0, i as int));
                assert(oq.subrange(0, i as int + 1).last() == oq[i as int]);
            }
            if is_stale_at(e.last_seen, now, timeout) {
                self.dropped.push(e.participant);
            } else {
                kept.push(e);
            }
            i += 1;
        }
        proof {
            assert(oq.subrange(0, n as int) =~= oq);
        }
        self.queue = kept;
        let drop_current = match &self.current {
            Some(_) => is_stale_at(self.current_last_seen, now, timeout),
            None => false,
        };
        if drop_current {
            let c = self.current.take();
            self.current_locked = false;
            match c {
                Some(p) => {
                    self.dropped.push(p);
                },
                None => {},
            }
        }
        proof {
            if old(self).current is Some && spec_is_stale(old(self).current_last_seen, now, timeout) {
                assert(self.dropped@ =~= old(self).dropped@ + stale_participants(
                    old(self).queue@,
                    now,
                    timeout,
                ) + seq![old(self).current->0]);
            }
            lemma_wf_after_drop(*old(self), *self, now, timeout);
        }
        Ok(())
    }

    /// Rolls the current round back to the state before its contribution:
    /// the pending verification is discarded and the round's finished
    /// contributor forgotten, so the round can be contributed anew. The
    /// round height is untouched.
    pub fn reset_round(&mut self) -> (r: Result<(), CoordinatorError>)
        requires
            old(self).wf(),
        ensures
            final(self).wf(),
            r is Ok <==> !old(self).done && old(self).pending_verification is Some,
            r is Ok ==> final(self).pending_verification is None && final(self).finished@.len()
                == 0 && final(self).current is None && !final(self).current_locked && final(self).queue == old(self).queue && final(self).dropped == old(self).dropped && final(self).banned == old(self).banned && final(self).history == old(self).history && final(self).tokens == old(self).tokens && final(self).done == old(self).done && final(self).verifiers == old(self).verifiers,
            r is Err ==> *final(self) == *old(self) && match r->Err_0 {
                CoordinatorError::CeremonyShutdown => old(self).done,
                CoordinatorError::NoPendingVerification => !old(self).done && old(self).pending_verification is None,
                _ => false,
            },
            final(self).round_height == old(self).round_height,
    {
        if self.done {
            return Err(CoordinatorError::CeremonyShutdown);
        }
        if self.pending_verification.is_none() {
            return Err(CoordinatorError::NoPendingVerification);
        }
        self.pending_verification = None;
        self.finished.clear();
        self.current = None;
        self.current_locked = false;
        Ok(())
    }

    /// Bans a participant from the ceremony, removing it from the queue,
    /// from the current slot and from the dropped list if present. A
    /// finished contributor cannot be banned (reset the round first), and a
    /// ban is not repeated.
    #[verifier::rlimit(60)]
    pub fn ban_participant(&mut self, participant: &Participant) -> (r: Result<
        (),
        CoordinatorError,
    >)
        requires
            old(self).wf(),
        ensures
            final(self).wf(),
            r is Ok <==> !old(self).done && !old(self).in_banned(participant@) && !old(self).in_finished(participant@),
            r is Ok ==> final(self).in_banned(participant@) && !final(self).in_queue(participant@)
                && !final(self).is_current(participant@) && !final(self).in_dropped(participant@)
                && final(self).banned@ == old(self).banned@.push(final(self).banned@.last())
                && final(self).banned@.last()@ == participant@ && final(self).finished == old(self).finished && final(self).pending_verification == old(self).pending_verification
                && final(self).history == old(self).history && final(self).tokens == old(self).tokens && final(self).done == old(self).done && final(self).verifiers == old(self).verifiers,
            r is Ok ==> (forall|v: (bool, Seq<char>)|
                v != participant@ ==> (final(self).in_queue(v) <==> old(self).in_queue(v)) && (
                final(self).in_dropped(v) <==> old(self).in_dropped(v)) && (final(self).is_current(
                    v,
                ) <==> old(self).is_current(v))),
            r is Err ==> *final(self) == *old(self) && match r->Err_0 {
                CoordinatorError::CeremonyShutdown => old(self).done,
                CoordinatorError::ParticipantBanned => !old(self).done && old(self).in_banned(
                    participant@,
                ),
                CoordinatorError::CannotBanFinished => !old(self).done && !old(self).in_banned(
                    participant@,
                ) && old(self).in_finished(participant@),
                _ => false,
            },
            final(self).round_height == old(self).round_height,
    {
        if self.done {
            return Err(CoordinatorError::CeremonyShutdown);
        }
        if self.is_banned_participant(participant) {
            return Err(CoordinatorError::ParticipantBanned);
        }
        if self.is_finished_contributor(participant) {
            return Err(CoordinatorError::CannotBanFinished);
        }
        let qpos = queue_index_of(&self.queue, participant);
        if let Some(i) = qpos {
            self.queue.remove(i);
            proof {
                let oq = old(self).queue@;
                oq.remove_ensures(i as int);
                assert forall|k: int| 0 <= k < self.queue@.len() implies (
                #[trigger] self.queue@[k].participant@) != participant@ && queue_holds(
                    oq,
                    self.queue@[k].participant@,
                ) by {
                    if k < i {
                        assert(self.queue@[k] == oq[k]);
                        assert(oq[k].participant@ != oq[i as int].participant@);
                    } else {
                        assert(self.queue@[k] == oq[k + 1]);
                        assert(oq[k + 1].participant@ != oq[i as int].participant@);
                    }
                }
                assert forall|v: (bool, Seq<char>)|
                    v != participant@ && queue_holds(oq, v) implies queue_holds(
                    self.queue@,
                    v,
                ) by {
                    let j = choose|j: int|
                        0 <= j < oq.len() && (#[trigger] oq[j].participant@) == v;
                    if j < i {
                        assert(self.queue@[j].participant@ == v);
                    } else {
                        assert(self.queue@[j - 1].participant@ == v);
                    }
                }
            }
        }
        let dpos = index_of(&self.dropped, participant);
        if let Some(i) = dpos {
            self.dropped.remove(i);
            proof {
                let prev = old(self).dropped@;
                prev.remove_ensures(i as int);
                assert forall|k: int| 0 <= k < self.dropped@.len() implies (
                #[trigger] self.dropped@[k]@) != participant@ && is_in(prev, self.dropped@[k]@) by {
                    if k < i {
                        assert(self.dropped@[k] == prev[k]);
                        assert(prev[k]@ != prev[i as int]@);
                        assert(is_in(prev, prev[k]@));
                    } else {
                        assert(self.dropped@[k] == prev[k + 1]);
                        assert(prev[k + 1]@ != prev[i as int]@);
                        assert(is_in(prev, prev[k + 1]@));
                    }
                }
                assert forall|v: (bool, Seq<char>)|
                    v != participant@ && is_in(prev, v) implies is_in(self.dropped@, v) by {
                    let j = choose|j: int| 0 <= j < prev.len() && (#[trigger] prev[j]@) == v;
                    if j < i {
                        assert(self.dropped@[j]@ == v);
                    } else {
                        assert(self.dropped@[j - 1]@ == v);
                    }
                }
            }
        }
        if self.is_current_contributor(participant) {
            self.current = None;
            self.current_locked = false;
        }
        proof {
            assert(!queue_holds(self.queue@, participant@));
            assert(!is_in(self.dropped@, participant@));
            assert(forall|k: int|
                0 <= k < self.queue@.len() ==> queue_holds(
                    old(self).queue@,
                    (#[trigger] self.queue@[k].participant@),
                ));
            assert(forall|k: int|
                0 <= k < self.dropped@.len() ==> is_in(
                    old(self).dropped@,
                    (#[trigger] self.dropped@[k]@),
                ));
        }
        self.banned.push(participant.clone());
        proof {
            assert(final(self).banned@.last()@ == participant@);
            assert forall|k: int| 0 <= k < final(self).banned@.len() implies (
            #[trigger] final(self).banned@[k]@) == participant@ || is_in(
                old(self).banned@,
                final(self).banned@[k]@,
            ) by {
                if k < old(self).banned@.len() {
                    assert(old(self).banned@[k]@ == final(self).banned@[k]@);
                }
            }
            if qpos is Some {
                assert(old(self).queue@[qpos->0 as int].participant@ == participant@
                    && final(self).queue@ == old(self).queue@.remove(qpos->0 as int));
            }
            if dpos is Some {
                assert(old(self).dropped@[dpos->0 as int]@ == participant@ && final(self).dropped@
                    == old(self).dropped@.remove(dpos->0 as int));
            }
            lemma_wf_after_ban(*old(self), *self, participant@);
        }
        Ok(())
    }

    /// Applies the verifier's verdict on the pending contribution.
    ///
    /// On success the pending verification is discharged and the round is
    /// ready to advance. On failure the round is reset to its state before
    /// the contribution and the contributor that produced the rejected
    /// artifact is banned (in that order: a finished contributor is not
    /// ban-eligible) and returned. With nothing pending this is a no-op.
    pub fn apply_verification(&mut self, outcome: bool) -> (r: Result<
        Option<Participant>,
        CoordinatorError,
    >)
        requires
            old(self).wf(),
        ensures
            final(self).wf(),
            r is Err ==> *final(self) == *old(self) && r->Err_0 is CeremonyShutdown && old(self).done,
            r is Ok <==> !old(self).done,
            r is Ok && old(self).pending_verification is None ==> *final(self) == *old(self)
                && r->Ok_0 is None,
            r is Ok && old(self).pending_verification is Some && outcome ==> r->Ok_0 is None
                && final(self).pending_verification is None && final(self).queue == old(self).queue
                && final(self).current == old(self).current && final(self).current_locked == old(self).current_locked && final(self).finished == old(self).finished && final(self).dropped
                == old(self).dropped && final(self).banned == old(self).banned && final(self).history == old(self).history && final(self).tokens == old(self).tokens && final(self).done == old(self).done && final(self).verifiers == old(self).verifiers,
            r is Ok && old(self).pending_verification is Some && !outcome ==> r->Ok_0 is Some
                && r->Ok_0->Some_0@ == old(self).finished@[0]@ && final(self).pending_verification is None && final(self).finished@.len() == 0 && final(self).current is None && !final(self).current_locked && final(self).banned@ == old(self).banned@.push(final(self).banned@.last()) && final(self).banned@.last()@ == old(self).finished@[0]@ && final(self).queue == old(self).queue && final(self).dropped == old(self).dropped && final(self).history == old(self).history && final(self).tokens == old(self).tokens && final(self).done == old(self).done && final(self).verifiers == old(self).verifiers,
            final(self).round_height == old(self).round_height,
    {
        if self.done {
            return Err(CoordinatorError::CeremonyShutdown);
        }
        if self.pending_verification.is_none() {
            return Ok(None);
        }
        if outcome {
            self.pending_verification = None;
            return Ok(None);
        }
        // The rejected artifact's contributor: the round's single finished
        // contributor.
        let c = self.finished.remove(0);
        let out = c.clone();
        self.pending_verification = None;
        self.current = None;
        self.current_locked = false;
        self.banned.push(c);
        proof {
            assert(final(self).finished@ =~= Seq::<Participant>::empty());
            assert forall|v: (bool, Seq<char>)|
                final(self).in_banned(v) implies old(self).in_banned(v) || v == old(self).finished@[0]@ by {
                let j = choose|j: int|
                    0 <= j < final(self).banned@.len() && (#[trigger] final(self).banned@[j]@)
                        == v;
                if j < old(self).banned@.len() {
                    assert(old(self).banned@[j]@ == v);
                }
            }
        }
        Ok(Some(out))
    }

    /// The status of a contributor with respect to the current round: in
    /// the round, queued at a position, finished, banned, or other.
    ///
    /// A queued contributor's position is how many rounds lie between its
    /// planned round and the current one, or the queue size when it has no
    /// planned round yet.
    pub fn contributor_queue_status(&self, participant: &Participant) -> (r: ContributorStatus)
        requires
            self.wf(),
        ensures
            self.is_current(participant@) ==> r == ContributorStatus::Round,
            !self.is_current(participant@) && self.in_queue(participant@) ==> exists|i: int|
                0 <= i < self.queue@.len() && (#[trigger] self.queue@[i].participant@)
                    == participant@ && r == ContributorStatus::Queue(
                    match self.queue@[i].assigned_round {
                        Some(ar) => if ar >= self.round_height {
                            (ar - self.round_height) as u64
                        } else {
                            0u64
                        },
                        None => self.queue@.len() as u64,
                    },
                    self.queue@.len() as u64,
                ),
            !self.is_current(participant@) && !self.in_queue(participant@) && self.in_finished(
                participant@,
            ) ==> r == ContributorStatus::Finished,
            !self.is_current(participant@) && !self.in_queue(participant@) && !self.in_finished(
                participant@,
            ) && self.in_banned(participant@) ==> r == ContributorStatus::Banned,
            !self.known(participant@) || self.in_dropped(participant@) ==> r
                == ContributorStatus::Other,
    {
        if self.is_current_contributor(participant) {
            return ContributorStatus::Round;
        }
        let queue_size = self.queue.len() as u64;
        match queue_index_of(&self.queue, participant) {
            Some(i) => {
                let position = match self.queue[i].assigned_round {
                    Some(ar) => {
                        if ar >= self.round_height {
                            ar - self.round_height
                        } else {
                            0
                        }
                    },
                    None => queue_size,
                };
                return ContributorStatus::Queue(position, queue_size);
            },
            None => {},
        }
        if self.is_finished_contributor(participant) {
            return ContributorStatus::Finished;
        }
        if self.is_banned_participant(participant) {
            return ContributorStatus::Banned;
        }
        ContributorStatus::Other
    }

    /// The token list of a cohort; none when the ceremony has ended beyond
    /// this index.
    pub fn tokens(&self, cohort: usize) -> (r: Option<&Vec<String>>)
        ensures
            r is Some <==> cohort < self.tokens.cohorts@.len(),
            r is Some ==> r->Some_0 == self.tokens.cohorts@[cohort as int],
    {
        self.tokens.tokens(cohort)
    }

    /// Replaces the token archive, under the cohort-update guard of
    /// [`TokenStore::update_tokens`]: the current cohort's set must be
    /// exactly what it was.
    pub fn update_tokens(&mut self, new_cohorts: Vec<Vec<String>>) -> (r: Result<
        (),
        ResponseError,
    >)
        requires
            old(self).wf(),
        ensures
            final(self).wf(),
            ({
                let cc = old(self).tokens.current_cohort as int;
                &&& r is Ok <==> cc < old(self).tokens.cohorts@.len() && cc < new_cohorts@.len()
                    && crate::tokens::spec_token_set(new_cohorts@[cc]@)
                    == crate::tokens::spec_token_set(old(self).tokens.cohorts@[cc]@)
                &&& r is Ok ==> final(self).tokens.cohorts@ == new_cohorts@ && final(self).tokens.current_cohort == old(self).tokens.current_cohort
                    && crate::tokens::spec_token_set(final(self).tokens.cohorts@[cc]@)
                    == crate::tokens::spec_token_set(old(self).tokens.cohorts@[cc]@)
                &&& r is Err ==> final(self).tokens == old(self).tokens && match r->Err_0 {
                    ResponseError::CeremonyIsOver => cc >= old(self).tokens.cohorts@.len(),
                    ResponseError::InvalidNewTokens => cc < old(self).tokens.cohorts@.len() && (cc
                        >= new_cohorts@.len() || crate::tokens::spec_token_set(new_cohorts@[cc]@)
                        != crate::tokens::spec_token_set(old(self).tokens.cohorts@[cc]@)),
                    _ => false,
                }
            }),
            final(self).queue == old(self).queue && final(self).current == old(self).current
                && final(self).finished == old(self).finished && final(self).dropped == old(self).dropped && final(self).banned == old(self).banned && final(self).pending_verification == old(self).pending_verification && final(self).history == old(self).history && final(self).done == old(self).done && final(self).verifiers == old(self).verifiers,
            final(self).round_height == old(self).round_height,
    {
        self.tokens.update_tokens(new_cohorts)
    }

    /// The task whose uploaded artifact awaits verification, if any.
    pub fn get_pending_verifications(&self) -> (r: Option<Task>)
        ensures
            r == self.pending_verification,
    {
        self.pending_verification
    }

    /// The contributors that finished the current round (at most one).
    pub fn current_round_finished_contributors(&self) -> (r: Vec<Participant>)
        ensures
            r@.len() == self.finished@.len(),
            forall|i: int| 0 <= i < r@.len() ==> (#[trigger] r@[i]@) == self.finished@[i]@,
    {
        let n = self.finished.len();
        let mut out: Vec<Participant> = Vec::new();
        let mut i: usize = 0;
        while i < n
            invariant
                0 <= i <= n,
                n == self.finished@.len(),
                out@.len() == i,
                forall|j: int| 0 <= j < i ==> (#[trigger] out@[j]@) == self.finished@[j]@,
            decreases n - i,
        {
            out.push(self.finished[i].clone());
            i += 1;
        }
        out
    }
}

/// Whether a participant that last reported at `last_seen` is unresponsive
/// at `now`.
pub open spec fn spec_is_stale(last_seen: u64, now: u64, timeout: u64) -> bool {
    last_seen + timeout < now
}

/// The queue entries that are still responsive at `now`, in order.
pub open spec fn fresh_entries(q: Seq<QueueEntry>, now: u64, timeout: u64) -> Seq<QueueEntry>
    decreases q.len(),
{
    if q.len() == 0 {
        Seq::empty()
    } else {
        let rest = fresh_entries(q.drop_last(), now, timeout);
        if spec_is_stale(q.last().last_seen, now, timeout) {
            rest
        } else {
            rest.push(q.last())
        }
    }
}

/// The participants of the queue entries that went unresponsive, in order.
pub open spec fn stale_participants(q: Seq<QueueEntry>, now: u64, timeout: u64) -> Seq<
    Participant,
>
    decreases q.len(),
{
    if q.len() == 0 {
        Seq::empty()
    } else {
        let rest = stale_participants(q.drop_last(), now, timeout);
        if spec_is_stale(q.last().last_seen, now, timeout) {
            rest.push(q.last().participant)
        } else {
            rest
        }
    }
}

/// Each kept entry is a responsive entry of the queue; each dropped
/// participant belonged to an unresponsive one; together they cover it.
proof fn lemma_split_membership(q: Seq<QueueEntry>, now: u64, timeout: u64)
    ensures
        forall|k: int|
            0 <= k < fresh_entries(q, now, timeout).len() ==> exists|j: int|
                0 <= j < q.len() && (#[trigger] fresh_entries(q, now, timeout)[k]) == q[j]
                    && !spec_is_stale(q[j].last_seen, now, timeout),
        forall|k: int|
            0 <= k < stale_participants(q, now, timeout).len() ==> exists|j: int|
                0 <= j < q.len() && (#[trigger] stale_participants(q, now, timeout)[k])
                    == q[j].participant && spec_is_stale(q[j].last_seen, now, timeout),
        fresh_entries(q, now, timeout).len() + stale_participants(q, now, timeout).len()
            == q.len(),
    decreases q.len(),
{
    if q.len() > 0 {
        let qd = q.drop_last();
        lemma_split_membership(qd, now, timeout);
        assert forall|k: int| 0 <= k < fresh_entries(q, now, timeout).len() implies exists|j: int|
            0 <= j < q.len() && (#[trigger] fresh_entries(q, now, timeout)[k]) == q[j]
                && !spec_is_stale(q[j].last_seen, now, timeout) by {
            if k < fresh_entries(qd, now, timeout).len() {
                let j = choose|j: int|
                    0 <= j < qd.len() && (#[trigger] fresh_entries(qd, now, timeout)[k]) == qd[j]
                        && !spec_is_stale(qd[j].last_seen, now, timeout);
                assert(qd[j] == q[j]);
                assert(fresh_entries(q, now, timeout)[k] == q[j] && !spec_is_stale(
                    q[j].last_seen,
                    now,
                    timeout,
                ));
            } else {
                assert(fresh_entries(q, now, timeout)[k] == q[q.len() - 1]);
            }
        }
        assert forall|k: int|
            0 <= k < stale_participants(q, now, timeout).len() implies exists|j: int|
                0 <= j < q.len() && (#[trigger] stale_participants(q, now, timeout)[k])
                    == q[j].participant && spec_is_stale(q[j].last_seen, now, timeout) by {
            if k < stale_participants(qd, now, timeout).len() {
                let j = choose|j: int|
                    0 <= j < qd.len() && (#[trigger] stale_participants(qd, now, timeout)[k])
                        == qd[j].participant && spec_is_stale(qd[j].last_seen, now, timeout);
                assert(qd[j] == q[j]);
                assert(stale_participants(q, now, timeout)[k] == q[j].participant && spec_is_stale(
                    q[j].last_seen,
                    now,
                    timeout,
                ));
            } else {
                assert(stale_participants(q, now, timeout)[k] == q[q.len() - 1].participant);
            }
        }
    }
}

/// On a duplicate-free queue the kept entries and the dropped participants
/// are duplicate-free and disjoint.
proof fn lemma_split_nodup(q: Seq<QueueEntry>, now: u64, timeout: u64)
    requires
        forall|i: int, j: int|
            0 <= i < j < q.len() ==> (#[trigger] q[i].participant@) != (
            #[trigger] q[j].participant@),
    ensures
        forall|k1: int, k2: int|
            0 <= k1 < k2 < fresh_entries(q, now, timeout).len() ==> (#[trigger] fresh_entries(
                q,
                now,
                timeout,
            )[k1].participant@) != (#[trigger] fresh_entries(q, now, timeout)[k2].participant@),
        forall|k1: int, k2: int|
            0 <= k1 < k2 < stale_participants(q, now, timeout).len() ==> (
            #[trigger] stale_participants(q, now, timeout)[k1]@) != (
            #[trigger] stale_participants(q, now, timeout)[k2]@),
        forall|k1: int, k2: int|
            0 <= k1 < fresh_entries(q, now, timeout).len() && 0 <= k2 < stale_participants(
                q,
                now,
                timeout,
            ).len() ==> (#[trigger] fresh_entries(q, now, timeout)[k1].participant@) != (
            #[trigger] stale_participants(q, now, timeout)[k2]@),
    decreases q.len(),
{
    if q.len() > 0 {
        let qd = q.drop_last();
        let last = q.last();
        lemma_split_nodup(qd, now, timeout);
        lemma_split_membership(qd, now, timeout);
        assert forall|k: int|
            0 <= k < fresh_entries(qd, now, timeout).len() implies (#[trigger] fresh_entries(
                qd,
                now,
                timeout,
            )[k].participant@) != last.participant@ by {
            let j = choose|j: int|
                0 <= j < qd.len() && (#[trigger] fresh_entries(qd, now, timeout)[k]) == qd[j]
                    && !spec_is_stale(qd[j].last_seen, now, timeout);
            assert(q[j].participant@ != q[q.len() - 1].participant@);
        }
        assert forall|k: int|
            0 <= k < stale_participants(qd, now, timeout).len() implies (
        #[trigger] stale_participants(qd, now, timeout)[k]@) != last.participant@ by {
            let j = choose|j: int|
                0 <= j < qd.len() && (#[trigger] stale_participants(qd, now, timeout)[k])
                    == qd[j].participant && spec_is_stale(qd[j].last_seen, now, timeout);
            assert(q[j].participant@ != q[q.len() - 1].participant@);
        }
    }
}

/// Dropping the unresponsive participants keeps the state well formed.
proof fn lemma_wf_after_drop(
    pre: CoordinatorState,
    post: CoordinatorState,
    now: u64,
    timeout: u64,
)
    requires
        pre.wf(),
        post.queue@ == fresh_entries(pre.queue@, now, timeout),
        (post.current == pre.current && post.dropped@ == pre.dropped@ + stale_participants(
            pre.queue@,
            now,
            timeout,
        )) || (pre.current is Some && post.current is None && post.dropped@ == pre.dropped@
            + stale_participants(pre.queue@, now, timeout) + seq![pre.current->0]),
        post.finished == pre.finished,
        post.banned == pre.banned,
        post.pending_verification == pre.pending_verification,
        post.history == pre.history,
        post.round_height == pre.round_height,
    ensures
        post.wf(),
{
    lemma_split_membership(pre.queue@, now, timeout);
    lemma_split_nodup(pre.queue@, now, timeout);
    let oq = pre.queue@;
    let od = pre.dropped@;
    let drops = stale_participants(oq, now, timeout);
    let nd = post.dropped@;
    let with_cur = !(post.current == pre.current && nd == od + drops);
    // Where each new dropped participant comes from.
    assert forall|k: int|
        0 <= k < nd.len() implies ((0 <= k < od.len() && (#[trigger] nd[k]) == od[k]) || (od.len()
            <= k < od.len() + drops.len() && nd[k] == drops[k - od.len()]) || (with_cur && k
            == od.len() + drops.len() && pre.current is Some && nd[k] == pre.current->0)) by {}
    // A stale participant came from some queue entry; queue entries are in
    // no other bucket, so the combined dropped list stays duplicate-free
    // and disjoint from the others.
    assert forall|k: int| 0 <= k < drops.len() implies !pre.in_dropped(#[trigger] drops[k]@)
        && !pre.in_banned(drops[k]@) && !pre.in_finished(drops[k]@) && !pre.is_current(
        drops[k]@,
    ) by {
        let j = choose|j: int|
            0 <= j < oq.len() && (#[trigger] drops[k]) == oq[j].participant && spec_is_stale(
                oq[j].last_seen,
                now,
                timeout,
            );
        assert(!pre.in_dropped(oq[j].participant@) && !pre.in_banned(oq[j].participant@)
            && !pre.in_finished(oq[j].participant@) && !pre.is_current(oq[j].participant@));
    }
    assert forall|k1: int, k2: int| 0 <= k1 < k2 < nd.len() implies (#[trigger] nd[k1]@) != (
    #[trigger] nd[k2]@) by {
        if k1 < od.len() && k2 < od.len() {
        } else if k1 < od.len() && od.len() <= k2 < od.len() + drops.len() {
            assert(!pre.in_dropped(drops[k2 - od.len()]@));
            assert(is_in(od, od[k1]@));
        } else if od.len() <= k1 && k2 < od.len() + drops.len() {
        } else {
            // k2 names the dropped current contributor
            assert(nd[k2]@ == pre.current->0@);
            assert(pre.is_current(pre.current->0@));
            if k1 < od.len() {
                assert(!pre.in_dropped(pre.current->0@));
                assert(is_in(od, od[k1]@));
            } else {
                assert(!pre.is_current(nd[k1]@));
            }
        }
    }
    // The kept queue entries are in no bucket.
    assert forall|k: int|
        0 <= k < post.queue@.len() implies {
            let v = (#[trigger] post.queue@[k].participant@);
            !post.is_current(v) && !post.in_finished(v) && !post.in_dropped(v) && !post.in_banned(
                v,
            )
        } by {
        let j = choose|j: int|
            0 <= j < oq.len() && (#[trigger] post.queue@[k]) == oq[j] && !spec_is_stale(
                oq[j].last_seen,
                now,
                timeout,
            );
        let v = oq[j].participant@;
        assert(!pre.is_current(v) && !pre.in_finished(v) && !pre.in_dropped(v) && !pre.in_banned(
            v,
        ));
        assert forall|m: int| 0 <= m < nd.len() implies (#[trigger] nd[m]@) != v by {
            if m < od.len() {
                assert(is_in(od, nd[m]@));
            } else if m < od.len() + drops.len() {
                let j2 = choose|j2: int|
                    0 <= j2 < oq.len() && (#[trigger] drops[m - od.len()]) == oq[j2].participant
                        && spec_is_stale(oq[j2].last_seen, now, timeout);
                assert(j2 != j);
                assert(oq[j2].participant@ != oq[j].participant@);
            } else {
                assert(nd[m]@ == pre.current->0@);
            }
        }
    }
    // The current contributor, if kept, is in no bucket.
    assert(match post.current {
        Some(c) => !post.in_finished(c@) && !post.in_dropped(c@) && !post.in_banned(c@),
        None => true,
    }) by {
        if post.current is Some {
            let c = post.current->0;
            assert(pre.is_current(c@));
            assert forall|m: int| 0 <= m < nd.len() implies (#[trigger] nd[m]@) != c@ by {
                if m < od.len() {
                    assert(is_in(od, nd[m]@));
                } else {
                    assert(!pre.is_current(nd[m]@));
                }
            }
        }
    }
    // Finished contributors are in no bucket.
    assert forall|k: int|
        0 <= k < post.finished@.len() implies {
            let v = (#[trigger] post.finished@[k]@);
            !post.in_dropped(v) && !post.in_banned(v)
        } by {
        let v = post.finished@[k]@;
        assert(is_in(pre.finished@, v));
        assert(!pre.in_dropped(v) && !pre.in_banned(v));
        assert(pre.in_finished(v));
        assert forall|m: int| 0 <= m < nd.len() implies (#[trigger] nd[m]@) != v by {
            if m < od.len() {
                assert(is_in(od, nd[m]@));
            } else if m < od.len() + drops.len() {
                assert(!pre.in_finished(nd[m]@));
            } else {
                assert(nd[m]@ == pre.current->0@);
                assert(pre.current is Some);
                assert(pre.finished@.len() == 0);
            }
        }
    }
    // Dropped participants are not banned.
    assert forall|k: int| 0 <= k < nd.len() implies !post.in_banned(#[trigger] nd[k]@) by {
        if k < od.len() {
            assert(is_in(od, nd[k]@));
            assert(!pre.in_banned(nd[k]@));
        } else if k < od.len() + drops.len() {
            assert(!pre.in_banned(nd[k]@));
        } else {
            assert(nd[k]@ == pre.current->0@);
            assert(!pre.in_banned(pre.current->0@));
        }
    }
}

/// Admitting an unknown participant to the queue keeps the state well
/// formed.
proof fn lemma_wf_after_admit(pre: CoordinatorState, post: CoordinatorState, e: QueueEntry)
    requires
        pre.wf(),
        post.queue@ == pre.queue@.push(e),
        !pre.known(e.participant@),
        post.current == pre.current,
        post.finished == pre.finished,
        post.dropped == pre.dropped,
        post.banned == pre.banned,
        post.pending_verification == pre.pending_verification,
        post.history == pre.history,
        post.round_height == pre.round_height,
    ensures
        post.wf(),
{
    let oq = pre.queue@;
    let nq = post.queue@;
    assert forall|i: int, j: int| 0 <= i < j < nq.len() implies (#[trigger] nq[i].participant@)
        != (#[trigger] nq[j].participant@) by {
        if j == oq.len() as int {
            assert(nq[i] == oq[i]);
            assert(oq[i].participant@ != e.participant@);
        } else {
            assert(nq[i] == oq[i] && nq[j] == oq[j]);
        }
    }
    assert forall|i: int|
        0 <= i < nq.len() implies {
            let v = (#[trigger] nq[i].participant@);
            !post.is_current(v) && !post.in_finished(v) && !post.in_dropped(v) && !post.in_banned(
                v,
            )
        } by {
        if i < oq.len() as int {
            assert(nq[i] == oq[i]);
            assert(!pre.is_current(oq[i].participant@) && !pre.in_finished(oq[i].participant@)
                && !pre.in_dropped(oq[i].participant@) && !pre.in_banned(oq[i].participant@));
        } else {
            assert(nq[i] == e);
        }
    }
    assert(match post.current {
        Some(c) => !post.in_finished(c@) && !post.in_dropped(c@) && !post.in_banned(c@),
        None => true,
    });
}

/// Promoting a queued participant into the current slot keeps the state
/// well formed.
proof fn lemma_wf_after_promote(pre: CoordinatorState, post: CoordinatorState, i: int)
    requires
        pre.wf(),
        0 <= i < pre.queue@.len(),
        post.queue@ == pre.queue@.remove(i),
        post.current == Some(pre.queue@[i].participant),
        post.finished@.len() == 0,
        post.dropped == pre.dropped,
        post.banned == pre.banned,
        post.pending_verification is None,
        forall|r: int| 1 <= r < post.round_height ==> #[trigger] round_on_record(post.history@, r),
    ensures
        post.wf(),
{
    let oq = pre.queue@;
    let nq = post.queue@;
    oq.remove_ensures(i);
    let p = oq[i].participant;
    assert forall|k: int, j: int| 0 <= k < j < nq.len() implies (#[trigger] nq[k].participant@)
        != (#[trigger] nq[j].participant@) by {
        let k2: int = if k < i {
            k
        } else {
            k + 1
        };
        let j2: int = if j < i {
            j
        } else {
            j + 1
        };
        assert(nq[k] == oq[k2] && nq[j] == oq[j2]);
    }
    assert forall|k: int|
        0 <= k < nq.len() implies {
            let v = (#[trigger] nq[k].participant@);
            !post.is_current(v) && !post.in_finished(v) && !post.in_dropped(v) && !post.in_banned(
                v,
            )
        } by {
        let k2: int = if k < i {
            k
        } else {
            k + 1
        };
        assert(nq[k] == oq[k2]);
        assert(!pre.is_current(oq[k2].participant@) && !pre.in_finished(oq[k2].participant@)
            && !pre.in_dropped(oq[k2].participant@) && !pre.in_banned(oq[k2].participant@));
        assert(oq[k2].participant@ != p@);
    }
    assert(!pre.in_dropped(p@) && !pre.in_banned(p@));
    assert(post.finished@ =~= Seq::<Participant>::empty());
}

/// Banning a participant that is neither finished nor banned, after
/// removing it from the queue, the current slot and the dropped list,
/// keeps the state well formed.
proof fn lemma_wf_after_ban(pre: CoordinatorState, post: CoordinatorState, p: (bool, Seq<char>))
    requires
        pre.wf(),
        !pre.in_banned(p),
        !pre.in_finished(p),
        // queue: unchanged or one entry (p's) removed, with p gone
        (post.queue == pre.queue && !queue_holds(pre.queue@, p)) || (exists|i: int|
            0 <= i < pre.queue@.len() && (#[trigger] pre.queue@[i].participant@) == p
                && post.queue@ == pre.queue@.remove(i)),
        // dropped: unchanged or p's entry removed
        (post.dropped == pre.dropped && !is_in(pre.dropped@, p)) || (exists|i: int|
            0 <= i < pre.dropped@.len() && (#[trigger] pre.dropped@[i]@) == p && post.dropped@
                == pre.dropped@.remove(i)),
        // current: unchanged and not p, or cleared
        (post.current == pre.current && !pre.is_current(p)) || post.current is None,
        post.banned@.len() == pre.banned@.len() + 1,
        post.banned@ == pre.banned@.push(post.banned@.last()),
        post.banned@.last()@ == p,
        post.finished == pre.finished,
        post.pending_verification == pre.pending_verification,
        post.history == pre.history,
        post.round_height == pre.round_height,
        pre.pending_verification is Some ==> post.current is None,
    ensures
        post.wf(),
{
    let ob = pre.banned@;
    let nb = post.banned@;
    // Facts about the new queue: no p, subset of the old queue, distinct.
    assert forall|k: int, j: int| 0 <= k < j < post.queue@.len() implies (
    #[trigger] post.queue@[k].participant@) != (#[trigger] post.queue@[j].participant@) by {
        if post.queue == pre.queue {
        } else {
            let i = choose|i: int|
                0 <= i < pre.queue@.len() && (#[trigger] pre.queue@[i].participant@) == p
                    && post.queue@ == pre.queue@.remove(i);
            pre.queue@.remove_ensures(i);
            let k2: int = if k < i {
                k
            } else {
                k + 1
            };
            let j2: int = if j < i {
                j
            } else {
                j + 1
            };
            assert(post.queue@[k] == pre.queue@[k2] && post.queue@[j] == pre.queue@[j2]);
        }
    }
    assert forall|k: int|
        0 <= k < post.queue@.len() implies queue_holds(
            pre.queue@,
            (#[trigger] post.queue@[k].participant@),
        ) && post.queue@[k].participant@ != p by {
        if post.queue == pre.queue {
        } else {
            let i = choose|i: int|
                0 <= i < pre.queue@.len() && (#[trigger] pre.queue@[i].participant@) == p
                    && post.queue@ == pre.queue@.remove(i);
            pre.queue@.remove_ensures(i);
            let k2: int = if k < i {
                k
            } else {
                k + 1
            };
            assert(post.queue@[k] == pre.queue@[k2]);
            assert(pre.queue@[k2].participant@ != p);
        }
    }
    // Facts about the new dropped list.
    assert forall|k: int, j: int| 0 <= k < j < post.dropped@.len() implies (
    #[trigger] post.dropped@[k]@) != (#[trigger] post.dropped@[j]@) by {
        if post.dropped == pre.dropped {
        } else {
            let i = choose|i: int|
                0 <= i < pre.dropped@.len() && (#[trigger] pre.dropped@[i]@) == p && post.dropped@
                    == pre.dropped@.remove(i);
            pre.dropped@.remove_ensures(i);
            let k2: int = if k < i {
                k
            } else {
                k + 1
            };
            let j2: int = if j < i {
                j
            } else {
                j + 1
            };
            assert(post.dropped@[k] == pre.dropped@[k2] && post.dropped@[j] == pre.dropped@[j2]);
        }
    }
    assert forall|k: int|
        0 <= k < post.dropped@.len() implies is_in(pre.dropped@, (#[trigger] post.dropped@[k]@))
            && post.dropped@[k]@ != p by {
        if post.dropped == pre.dropped {
        } else {
            let i = choose|i: int|
                0 <= i < pre.dropped@.len() && (#[trigger] pre.dropped@[i]@) == p && post.dropped@
                    == pre.dropped@.remove(i);
            pre.dropped@.remove_ensures(i);
            let k2: int = if k < i {
                k
            } else {
                k + 1
            };
            assert(post.dropped@[k] == pre.dropped@[k2]);
            assert(pre.dropped@[k2]@ != p);
        }
    }
    // Facts about the new banned list.
    assert forall|k: int| 0 <= k < nb.len() implies (#[trigger] nb[k]@) == p || (k < ob.len()
        && is_in(ob, nb[k]@)) by {
        if k < ob.len() {
            assert(nb[k] == ob[k]);
        }
    }
    assert forall|k: int, j: int| 0 <= k < j < nb.len() implies (#[trigger] nb[k]@) != (
    #[trigger] nb[j]@) by {
        if j < ob.len() {
            assert(nb[k] == ob[k] && nb[j] == ob[j]);
        } else {
            assert(nb[k] == ob[k]);
            assert(is_in(ob, ob[k]@));
            assert(nb[j]@ == p);
        }
    }
    // Queue entries are in no other bucket.
    assert forall|k: int|
        0 <= k < post.queue@.len() implies {
            let v = (#[trigger] post.queue@[k].participant@);
            !post.is_current(v) && !post.in_finished(v) && !post.in_dropped(v) && !post.in_banned(
                v,
            )
        } by {
        let v = post.queue@[k].participant@;
        assert(!pre.is_current(v) && !pre.in_finished(v) && !pre.in_dropped(v) && !pre.in_banned(
            v,
        ));
        assert forall|m: int| 0 <= m < post.dropped@.len() implies (#[trigger] post.dropped@[m]@)
            != v by {
            assert(is_in(pre.dropped@, post.dropped@[m]@));
        }
        assert forall|m: int| 0 <= m < nb.len() implies (#[trigger] nb[m]@) != v by {
            if m < ob.len() {
                assert(nb[m] == ob[m]);
            }
        }
    }
    // The current contributor, if kept, is in no other bucket.
    assert(match post.current {
        Some(c) => !post.in_finished(c@) && !post.in_dropped(c@) && !post.in_banned(c@),
        None => true,
    }) by {
        if post.current is Some {
            let c = post.current->0;
            assert(pre.is_current(c@));
            assert(!pre.in_finished(c@) && !pre.in_dropped(c@) && !pre.in_banned(c@));
            assert(c@ != p);
            assert forall|m: int| 0 <= m < post.dropped@.len() implies (
            #[trigger] post.dropped@[m]@) != c@ by {
                assert(is_in(pre.dropped@, post.dropped@[m]@));
            }
            assert forall|m: int| 0 <= m < nb.len() implies (#[trigger] nb[m]@) != c@ by {
                if m < ob.len() {
                    assert(nb[m] == ob[m]);
                }
            }
        }
    }
    // Finished contributors are in no other bucket.
    assert forall|k: int|
        0 <= k < post.finished@.len() implies {
            let v = (#[trigger] post.finished@[k]@);
            !post.in_dropped(v) && !post.in_banned(v)
        } by {
        let v = post.finished@[k]@;
        assert(is_in(pre.finished@, v));
        assert(v != p);
        assert(!pre.in_dropped(v) && !pre.in_banned(v));
        assert forall|m: int| 0 <= m < post.dropped@.len() implies (#[trigger] post.dropped@[m]@)
            != v by {
            assert(is_in(pre.dropped@, post.dropped@[m]@));
        }
        assert forall|m: int| 0 <= m < nb.len() implies (#[trigger] nb[m]@) != v by {
            if m < ob.len() {
                assert(nb[m] == ob[m]);
            }
        }
    }
    // Dropped participants are not banned.
    assert forall|k: int| 0 <= k < post.dropped@.len() implies !post.in_banned(
        #[trigger] post.dropped@[k]@,
    ) by {
        let v = post.dropped@[k]@;
        assert(is_in(pre.dropped@, v));
        assert(!pre.in_banned(v));
        assert(v != p);
        assert forall|m: int| 0 <= m < nb.len() implies (#[trigger] nb[m]@) != v by {
            if m < ob.len() {
                assert(nb[m] == ob[m]);
            }
        }
    }
}

/// Promotion order on queue entries: assigned round ascending with
/// unplanned entries last, then admission stamp ascending, then key text
/// lexicographically, contributors before verifiers. A strict total order
/// on entries with distinct participants.
pub open spec fn ahead(a: QueueEntry, b: QueueEntry) -> bool {
    if a.assigned_round is Some && b.assigned_round is None {
        true
    } else if a.assigned_round is None && b.assigned_round is Some {
        false
    } else if a.assigned_round is Some && b.assigned_round is Some
        && a.assigned_round->Some_0 != b.assigned_round->Some_0 {
        a.assigned_round->Some_0 < b.assigned_round->Some_0
    } else if a.admitted_at != b.admitted_at {
        a.admitted_at < b.admitted_at
    } else if a.participant@.1 != b.participant@.1 {
        lex_lt(a.participant@.1, b.participant@.1)
    } else {
        a.participant@.0 && !b.participant@.0
    }
}

/// Entries with distinct participants are ordered one way or the other.
proof fn lemma_ahead_total(a: QueueEntry, b: QueueEntry)
    requires
        a.participant@ != b.participant@,
    ensures
        ahead(a, b) || ahead(b, a),
{
    if a.assigned_round is Some == b.assigned_round is Some && (a.assigned_round is Some
        ==> a.assigned_round->Some_0 == b.assigned_round->Some_0) && a.admitted_at
        == b.admitted_at && a.participant@.1 != b.participant@.1 {
        crate::participant::lemma_lex_lt_total(a.participant@.1, b.participant@.1);
    }
}

/// The promotion order is transitive.
proof fn lemma_ahead_trans(a: QueueEntry, b: QueueEntry, c: QueueEntry)
    requires
        ahead(a, b),
        ahead(b, c),
    ensures
        ahead(a, c),
{
    let ta = a.participant@.1;
    let tb = b.participant@.1;
    let tc = c.participant@.1;
    if ta != tb && lex_lt(ta, tb) && tb != tc && lex_lt(tb, tc) {
        crate::participant::lemma_lex_lt_trans(ta, tb, tc);
        if ta == tc {
            crate::participant::lemma_lex_lt_asym(ta, tb);
        }
    } else if ta != tb && lex_lt(ta, tb) && tb == tc && ta == tc {
        crate::participant::lemma_lex_lt_asym(ta, tb);
    }
}

/// Compares two queue entries under the promotion order.
fn entry_ahead(a: &QueueEntry, b: &QueueEntry) -> (r: bool)
    ensures
        r == ahead(*a, *b),
{
    match (a.assigned_round, b.assigned_round) {
        (Some(_), None) => {
            return true;
        },
        (None, Some(_)) => {
            return false;
        },
        (Some(ra), Some(rb)) => {
            if ra != rb {
                return ra < rb;
            }
        },
        (None, None) => {},
    }
    if a.admitted_at != b.admitted_at {
        return a.admitted_at < b.admitted_at;
    }
    let at = a.participant.address();
    let bt = b.participant.address();
    if !at.eq(bt) {
        return str_lex_lt(at.as_str(), bt.as_str());
    }
    a.participant.is_contributor() && !b.participant.is_contributor()
}

/// Picks the queue entry to promote: the least entry under the promotion
/// order.
fn select_next(q: &Vec<QueueEntry>) -> (r: usize)
    requires
        q@.len() > 0,
        forall|i: int, j: int|
            0 <= i < j < q@.len() ==> (#[trigger] q@[i].participant@) != (
            #[trigger] q@[j].participant@),
    ensures
        0 <= r < q@.len(),
        forall|j: int| 0 <= j < q@.len() && j != r ==> ahead(q@[r as int], #[trigger] q@[j]),
{
    let n = q.len();
    let mut best: usize = 0;
    let mut i: usize = 1;
    while i < n
        invariant
            0 <= best < i <= n,
            n == q@.len(),
            forall|i2: int, j2: int|
                0 <= i2 < j2 < q@.len() ==> (#[trigger] q@[i2].participant@) != (
                #[trigger] q@[j2].participant@),
            forall|j: int| 0 <= j < i && j != best ==> ahead(q@[best as int], #[trigger] q@[j]),
        decreases n - i,
    {
        if entry_ahead(&q[i], &q[best]) {
            proof {
                assert forall|j: int| 0 <= j < i + 1 && j != i implies ahead(
                    q@[i as int],
                    #[trigger] q@[j],
                ) by {
                    if j != best {
                        lemma_ahead_trans(q@[i as int], q@[best as int], q@[j]);
                    }
                }
            }
            best = i;
        } else {
            proof {
                lemma_ahead_total(q@[best as int], q@[i as int]);
            }
        }
        i += 1;
    }
    best
}

/// What dropping the unresponsive participants at `now` does to the state:
/// the queue keeps its responsive entries, the stale participants are
/// appended to the dropped list, a stale current contributor is cleared,
/// and everything else — the round height included — is unchanged.
pub open spec fn spec_drop_effect(
    pre: CoordinatorState,
    post: CoordinatorState,
    now: u64,
    timeout: u64,
) -> bool {
    let drops = stale_participants(pre.queue@, now, timeout);
    let cur_stale = pre.current is Some && spec_is_stale(pre.current_last_seen, now, timeout);
    &&& post.queue@ == fresh_entries(pre.queue@, now, timeout)
    &&& (if cur_stale {
        post.dropped@ == pre.dropped@ + drops + seq![pre.current->0] && post.current is None
    } else {
        post.dropped@ == pre.dropped@ + drops && post.current == pre.current
            && post.current_locked == pre.current_locked
    })
    &&& post.current_last_seen == pre.current_last_seen
    &&& post.finished == pre.finished
    &&& post.banned == pre.banned
    &&& post.pending_verification == pre.pending_verification
    &&& post.history == pre.history
    &&& post.tokens == pre.tokens
    &&& post.done == pre.done
    &&& post.verifiers == pre.verifiers
    &&& post.round_height == pre.round_height
}

/// What a successful advancement pass does to the state. `advanced` holds
/// exactly when there is work: a verified contribution completes the round
/// (recorded in the history, round height + 1), and a waiting contributor
/// — if any — is promoted, the least queue entry under [`ahead`]; a round
/// that lost its contributor is refilled the same way without advancing.
pub open spec fn spec_advance_effect(
    pre: CoordinatorState,
    post: CoordinatorState,
    advanced: bool,
) -> bool {
    &&& advanced <==> !pre.done && pre.pending_verification is None && ((pre.finished@.len() == 1
        && pre.round_height < u64::MAX) || (pre.finished@.len() == 0 && pre.current is None
        && pre.queue@.len() > 0))
    &&& !advanced ==> post == pre
    &&& advanced && pre.queue@.len() > 0 ==> exists|i: int|
        #![auto]
        0 <= i < pre.queue@.len() && post.queue@ == pre.queue@.remove(i) && post.current == Some(
            pre.queue@[i].participant,
        ) && post.current_last_seen == pre.queue@[i].last_seen && (forall|j: int|
            0 <= j < pre.queue@.len() && j != i ==> ahead(pre.queue@[i], pre.queue@[j]))
    &&& advanced && pre.queue@.len() == 0 ==> post.queue == pre.queue && post.current is None
    &&& advanced && pre.finished@.len() == 1 ==> post.round_height == pre.round_height + 1
        && post.history@ == pre.history@.push((pre.round_height, pre.finished@[0]))
        && post.finished@.len() == 0
    &&& advanced && pre.finished@.len() == 0 ==> post.round_height == pre.round_height
        && post.history == pre.history && post.finished == pre.finished
    &&& advanced ==> post.dropped == pre.dropped && post.banned == pre.banned
        && post.pending_verification is None && !post.current_locked && post.tokens == pre.tokens
        && post.done == pre.done && post.verifiers == pre.verifiers
}

/// Law: in a well-formed state, a participant's membership is exactly one
/// of queued, current contributor, finished contributor, dropped, banned,
/// or unknown: the five member buckets exclude one another, and `known`
/// is their disjunction, so a participant outside all of them is unknown.
pub proof fn lemma_membership_exclusive(s: &CoordinatorState, v: (bool, Seq<char>))
    requires
        s.wf(),
    ensures
        s.in_queue(v) ==> !s.is_current(v) && !s.in_finished(v) && !s.in_dropped(v)
            && !s.in_banned(v),
        s.is_current(v) ==> !s.in_finished(v) && !s.in_dropped(v) && !s.in_banned(v),
        s.in_finished(v) ==> !s.in_dropped(v) && !s.in_banned(v),
        s.in_dropped(v) ==> !s.in_banned(v),
        !s.known(v) <==> !(s.in_queue(v) || s.is_current(v) || s.in_finished(v) || s.in_dropped(v)
            || s.in_banned(v)),
{
    if s.in_queue(v) {
        let i = choose|i: int|
            0 <= i < s.queue@.len() && (#[trigger] s.queue@[i].participant@) == v;
        assert(!s.is_current(s.queue@[i].participant@) && !s.in_finished(s.queue@[i].participant@)
            && !s.in_dropped(s.queue@[i].participant@) && !s.in_banned(
            s.queue@[i].participant@,
        ));
    }
    if s.in_finished(v) {
        let i = choose|i: int| 0 <= i < s.finished@.len() && (#[trigger] s.finished@[i]@) == v;
        assert(!s.in_dropped(s.finished@[i]@) && !s.in_banned(s.finished@[i]@));
    }
    if s.in_dropped(v) {
        let i = choose|i: int| 0 <= i < s.dropped@.len() && (#[trigger] s.dropped@[i]@) == v;
        assert(!s.in_banned(s.dropped@[i]@));
    }
}

/// Law: every completed round is on record with the contributor that
/// finished it. The verified artifact that starts round `r + 1` is that
/// round's output; round 1's starting artifact comes from ceremony
/// initialization.
pub proof fn lemma_completed_round_has_contributor(s: &CoordinatorState, r: int)
    requires
        s.wf(),
        1 <= r < s.round_height,
    ensures
        exists|i: int| 0 <= i < s.history@.len() && (#[trigger] s.history@[i]).0 == r,
{
    assert(round_on_record(s.history@, r));
}

/// Whether a heartbeat from `last_seen` has timed out at `now`.
fn is_stale_at(last_seen: u64, now: u64, timeout: u64) -> (r: bool)
    ensures
        r == spec_is_stale(last_seen, now, timeout),
{
    if timeout >= now {
        false
    } else {
        last_seen < now - timeout
    }
}

/// First position of `p` in a participant list.
fn index_of(v: &Vec<Participant>, p: &Participant) -> (r: Option<usize>)
    ensures
        r is Some <==> is_in(v@, p@),
        r is Some ==> 0 <= r->Some_0 < v@.len() && v@[r->Some_0 as int]@ == p@,
{
    let n = v.len();
    let mut i: usize = 0;
    while i < n
        invariant
            0 <= i <= n,
            n == v@.len(),
            forall|j: int| 0 <= j < i ==> (#[trigger] v@[j]@) != p@,
        decreases n - i,
    {
        if v[i].eq(p) {
            return Some(i);
        }
        i += 1;
    }
    None
}

/// First position of the entry of `p` in a queue.
fn queue_index_of(q: &Vec<QueueEntry>, p: &Participant) -> (r: Option<usize>)
    ensures
        r is Some <==> queue_holds(q@, p@),
        r is Some ==> 0 <= r->Some_0 < q@.len() && q@[r->Some_0 as int].participant@ == p@,
{
    let n = q.len();
    let mut i: usize = 0;
    while i < n
        invariant
            0 <= i <= n,
            n == q@.len(),
            forall|j: int| 0 <= j < i ==> (#[trigger] q@[j].participant@) != p@,
        decreases n - i,
    {
        if q[i].participant.eq(p) {
            return Some(i);
        }
        i += 1;
    }
    None
}

/// Whether some queue entry presents the address `a`.
fn queue_address_used(q: &Vec<QueueEntry>, a: &String) -> (r: bool)
    ensures
        r == queue_holds_address(q@, a@),
{
    let n = q.len();
    let mut i: usize = 0;
    while i < n
        invariant
            0 <= i <= n,
            n == q@.len(),
            forall|j: int|
                0 <= j < i ==> !((#[trigger] q@[j].address) is Some && q@[j].address->Some_0@
                    == a@),
        decreases n - i,
    {
        if let Some(addr) = &q[i].address {
            if addr.eq(a) {
                return true;
            }
        }
        i += 1;
    }
    false
}

} // verus!
