//! The order of the phases. A batch goes through replica commitment, tree
//! building, cleanup and proof generation in that order. A phase may only
//! run once the phase before it has succeeded for the batch, and a phase
//! that fails sets the batch back, so that nothing is built on what the
//! failure left behind.

use crate::params::{BatchKey, ConfigError};
use crate::phase::{Phase, PhaseResult, SUCCESS};
use vstd::prelude::*;

verus! {

/// How far a batch has come, counting only what no later failure has undone.
#[derive(Clone, Copy, Debug, PartialEq, Eq, Structural)]
pub enum BatchState {
    /// Nothing of the batch stands: no phase has succeeded yet, or a failure
    /// has sent the batch back to the start.
    Unsealed,
    /// Replica commitment has succeeded; tree building is due.
    Pc1Done,
    /// Tree building has succeeded and the replicas are final; cleanup is
    /// owed, whether or not a proof has been generated meanwhile.
    Pc2Done,
    /// Cleanup has succeeded; no proof has been generated since.
    CleanedUp,
    /// Cleanup has succeeded and, after it, a commitment proof has been
    /// generated. A proof generated before cleanup does not bring a batch
    /// here: that batch is still waiting for cleanup.
    ProofReady,
}

/// What to do with a phase that may run.
#[derive(Clone, Copy, Debug, PartialEq, Eq, Structural)]
pub enum Admission {
    /// Enter the engine.
    Invoke,
    /// The work of the phase is already done for the batch: answer the
    /// caller with success and leave the engine alone.
    Skip,
}

/// Whether `phase` may run for a batch in `state`.
///
/// Replica commitment runs on an unsealed batch, tree building after
/// replica commitment, cleanup after tree building. Cleanup of a batch that
/// is already clean is skipped. Proof generation runs once tree building has
/// succeeded, before or after cleanup, and as often as there are sectors to
/// prove. Everything else is out of order.
pub open spec fn admission(state: BatchState, phase: Phase) -> Result<Admission, ConfigError> {
    match (phase, state) {
        (Phase::Pc1, BatchState::Unsealed) => Ok(Admission::Invoke),
        (Phase::Pc2, BatchState::Pc1Done) => Ok(Admission::Invoke),
        (Phase::Cleanup, BatchState::Pc2Done) => Ok(Admission::Invoke),
        (Phase::Cleanup, BatchState::CleanedUp) => Ok(Admission::Skip),
        (Phase::Cleanup, BatchState::ProofReady) => Ok(Admission::Skip),
        (Phase::C1, BatchState::Pc2Done) => Ok(Admission::Invoke),
        (Phase::C1, BatchState::CleanedUp) => Ok(Admission::Invoke),
        (Phase::C1, BatchState::ProofReady) => Ok(Admission::Invoke),
        _ => Err(ConfigError::PhaseOutOfOrder),
    }
}

/// What to do when a caller asks for a phase.
#[derive(Clone, Copy, Debug, PartialEq, Eq, Structural)]
pub enum Step {
    /// The phase is out of order: hand the error to the caller and leave the
    /// engine alone.
    Refuse(ConfigError),
    /// The work of the phase is already done: hand this result to the
    /// caller and leave the engine alone.
    Answer(PhaseResult),
    /// Enter the engine, then record what it answers.
    Enter,
}

/// What a caller who asks for `phase` is owed for a batch in `state`: the
/// error when the phase is out of order, the status of success when the
/// phase is skipped, and the engine otherwise.
pub open spec fn step_of(state: BatchState, phase: Phase) -> Step {
    match admission(state, phase) {
        Err(e) => Step::Refuse(e),
        Ok(Admission::Skip) => Step::Answer(PhaseResult { phase, code: SUCCESS }),
        Ok(Admission::Invoke) => Step::Enter,
    }
}

/// The state of a batch in `state` after `phase` has succeeded.
///
/// Only the success of a phase that was due moves the batch on; the success
/// of a call that should not have been made leaves it where it was. A proof
/// generated before cleanup leaves the batch waiting for cleanup.
pub open spec fn after_success(state: BatchState, phase: Phase) -> BatchState {
    if admission(state, phase) == Ok::<Admission, ConfigError>(Admission::Invoke) {
        match phase {
            Phase::Pc1 => BatchState::Pc1Done,
            Phase::Pc2 => BatchState::Pc2Done,
            Phase::Cleanup => BatchState::CleanedUp,
            Phase::C1 => if state == BatchState::Pc2Done {
                BatchState::Pc2Done
            } else {
                BatchState::ProofReady
            },
        }
    } else {
        state
    }
}

/// The state of a batch in `state` after `phase` has failed, whether the
/// phase was due or not.
///
/// A failure never moves a batch on, and it sets back a batch that had come
/// as far as the phase reaches. Failed replica commitment leaves the batch
/// unsealed. Failed tree building leaves nothing beyond replica commitment:
/// the replicas are not final. Failed proof generation, for a batch whose
/// replicas were final, sends the batch back to the start: it has to be
/// sealed again. Failed cleanup leaves the batch where it was.
pub open spec fn after_failure(state: BatchState, phase: Phase) -> BatchState {
    match phase {
        Phase::Pc1 => BatchState::Unsealed,
        Phase::Pc2 => if state == BatchState::Unsealed {
            BatchState::Unsealed
        } else {
            BatchState::Pc1Done
        },
        Phase::Cleanup => state,
        Phase::C1 => if state == BatchState::Unsealed || state == BatchState::Pc1Done {
            state
        } else {
            BatchState::Unsealed
        },
    }
}

/// The state of a batch after the engine has answered a call.
pub open spec fn next_state(state: BatchState, result: PhaseResult) -> BatchState {
    if result.succeeded() {
        after_success(state, result.phase)
    } else {
        after_failure(state, result.phase)
    }
}

/// Decides whether `phase` may run for a batch in `state`.
pub fn check_order(state: BatchState, phase: Phase) -> (r: Result<Admission, ConfigError>)
    ensures
        r == admission(state, phase),
{
    match phase {
        Phase::Pc1 => match state {
            BatchState::Unsealed => Ok(Admission::Invoke),
            _ => Err(ConfigError::PhaseOutOfOrder),
        },
        Phase::Pc2 => match state {
            BatchState::Pc1Done => Ok(Admission::Invoke),
            _ => Err(ConfigError::PhaseOutOfOrder),
        },
        Phase::Cleanup => match state {
            BatchState::Pc2Done => Ok(Admission::Invoke),
            BatchState::CleanedUp | BatchState::ProofReady => Ok(Admission::Skip),
            _ => Err(ConfigError::PhaseOutOfOrder),
        },
        Phase::C1 => match state {
            BatchState::Pc2Done | BatchState::CleanedUp | BatchState::ProofReady => Ok(
                Admission::Invoke,
            ),
            _ => Err(ConfigError::PhaseOutOfOrder),
        },
    }
}

/// Decides what a caller who asks for `phase` is owed for a batch in
/// `state`.
pub fn step(state: BatchState, phase: Phase) -> (r: Step)
    ensures
        r == step_of(state, phase),
{
    match check_order(state, phase) {
        Err(e) => Step::Refuse(e),
        Ok(Admission::Skip) => Step::Answer(PhaseResult::new(phase, SUCCESS)),
        Ok(Admission::Invoke) => Step::Enter,
    }
}

/// Moves a batch by the result of one engine call: on by a success that was
/// due, back by a failure.
pub fn advance(state: BatchState, result: PhaseResult) -> (r: BatchState)
    ensures
        r == next_state(state, result),
{
    if result.is_success() {
        match check_order(state, result.phase) {
            Ok(Admission::Invoke) => match result.phase {
                Phase::Pc1 => BatchState::Pc1Done,
                Phase::Pc2 => BatchState::Pc2Done,
                Phase::Cleanup => BatchState::CleanedUp,
                Phase::C1 => match state {
                    BatchState::Pc2Done => BatchState::Pc2Done,
                    _ => BatchState::ProofReady,
                },
            },
            _ => state,
        }
    } else {
        match result.phase {
            Phase::Pc1 => BatchState::Unsealed,
            Phase::Pc2 => match state {
                BatchState::Unsealed => BatchState::Unsealed,
                _ => BatchState::Pc1Done,
            },
            Phase::Cleanup => state,
            Phase::C1 => match state {
                BatchState::Unsealed | BatchState::Pc1Done => state,
                _ => BatchState::Unsealed,
            },
        }
    }
}

/// One answer of the engine, with the batch it was given for.
#[derive(Clone, Copy, Debug, PartialEq, Eq, Structural)]
pub struct Event {
    pub key: BatchKey,
    pub result: PhaseResult,
}

/// The state of the batch `key` after the answers `events`, oldest first.
/// Answers given for other batches do not touch it.
pub open spec fn replay(events: Seq<Event>, key: BatchKey) -> BatchState
    decreases events.len(),
{
    if events.len() == 0 {
        BatchState::Unsealed
    } else if events.last().key == key {
        next_state(replay(events.drop_last(), key), events.last().result)
    } else {
        replay(events.drop_last(), key)
    }
}

/// Whether the engine has reported the success of `phase` for the batch
/// `key` somewhere in `events`.
pub open spec fn has_success(events: Seq<Event>, key: BatchKey, phase: Phase) -> bool {
    exists|i: int|
        0 <= i < events.len() && (#[trigger] events[i]).key == key && events[i].result.phase
            == phase && events[i].result.succeeded()
}

/// Whether `event` says that `phase` failed for the batch `key`.
pub open spec fn is_failure_of(event: Event, key: BatchKey, phase: Phase) -> bool {
    event.key == key && event.result.phase == phase && !event.result.succeeded()
}

/// Whether the engine has not reported the success of `phase` for the batch
/// `key` anywhere in `events` after the place `at`.
pub open spec fn no_success_since(events: Seq<Event>, at: int, key: BatchKey, phase: Phase) -> bool {
    forall|j: int|
        at < j < events.len() ==> !((#[trigger] events[j]).key == key && events[j].result.phase
            == phase && events[j].result.succeeded())
}

/// Whether tree building has not succeeded for a batch in `state`.
pub open spec fn is_before_pc2(state: BatchState) -> bool {
    state == BatchState::Unsealed || state == BatchState::Pc1Done
}

/// One more answer moves the batch it was given for by `next_state` and
/// leaves every other batch where it was.
pub proof fn lemma_replay_push(events: Seq<Event>, event: Event, key: BatchKey)
    ensures
        replay(events.push(event), key) == if event.key == key {
            next_state(replay(events, key), event.result)
        } else {
            replay(events, key)
        },
{
    assert(events.push(event).drop_last() == events);
}

/// The state of one batch, as the sequencer keeps it.
struct Entry {
    key: BatchKey,
    state: BatchState,
}

/// Whether no entry is kept for the batch `key`.
spec fn absent(entries: Seq<Entry>, key: BatchKey) -> bool {
    forall|i: int| 0 <= i < entries.len() ==> (#[trigger] entries[i]).key != key
}

/// Whether `entries` keeps what `log` says: no batch is kept twice, each
/// batch that is kept is in the state that replaying `log` gives it, and a
/// batch that is not kept is unsealed.
spec fn tracks(entries: Seq<Entry>, log: Seq<Event>) -> bool {
    &&& forall|i: int, j: int|
        0 <= i < j < entries.len() ==> (#[trigger] entries[i]).key != (#[trigger] entries[j]).key
    &&& forall|i: int|
        0 <= i < entries.len() ==> (#[trigger] entries[i]).state == replay(log, entries[i].key)
    &&& forall|key: BatchKey| #[trigger]
        absent(entries, key) ==> replay(log, key) == BatchState::Unsealed
}

/// Moving the entry of a batch by an answer given for it keeps the entries in
/// step with the log that has this answer added.
proof fn lemma_tracks_moved_entry(entries: Seq<Entry>, log: Seq<Event>, at: int, event: Event)
    requires
        tracks(entries, log),
        0 <= at < entries.len(),
        entries[at].key == event.key,
    ensures
        tracks(
            entries.update(
                at,
                Entry { key: event.key, state: next_state(entries[at].state, event.result) },
            ),
            log.push(event),
        ),
{
    let moved = entries.update(
        at,
        Entry { key: event.key, state: next_state(entries[at].state, event.result) },
    );
    assert forall|i: int| 0 <= i < moved.len() implies (#[trigger] moved[i]).state == replay(
        log.push(event),
        moved[i].key,
    ) by {
        lemma_replay_push(log, event, moved[i].key);
        assert(moved[i].key == entries[i].key);
    }
    assert forall|key: BatchKey| #[trigger] absent(moved, key) implies replay(
        log.push(event),
        key,
    ) == BatchState::Unsealed by {
        lemma_replay_push(log, event, key);
        assert(moved[at].key != key);
        assert forall|i: int| 0 <= i < entries.len() implies (#[trigger] entries[i]).key != key by {
            assert(moved[i].key == entries[i].key);
        }
        assert(absent(entries, key));
    }
    assert forall|i: int, j: int| 0 <= i < j < moved.len() implies (#[trigger] moved[i]).key != (
    #[trigger] moved[j]).key by {
        assert(moved[i].key == entries[i].key);
        assert(moved[j].key == entries[j].key);
    }
}

/// Adding an entry for a batch that was not kept, moved from unsealed by an
/// answer given for it, keeps the entries in step with the log that has this
/// answer added.
proof fn lemma_tracks_new_entry(entries: Seq<Entry>, log: Seq<Event>, event: Event)
    requires
        tracks(entries, log),
        absent(entries, event.key),
    ensures
        tracks(
            entries.push(
                Entry { key: event.key, state: next_state(BatchState::Unsealed, event.result) },
            ),
            log.push(event),
        ),
{
    let grown = entries.push(
        Entry { key: event.key, state: next_state(BatchState::Unsealed, event.result) },
    );
    assert forall|i: int| 0 <= i < grown.len() implies (#[trigger] grown[i]).state == replay(
        log.push(event),
        grown[i].key,
    ) by {
        lemma_replay_push(log, event, grown[i].key);
        if i < entries.len() {
            assert(grown[i] == entries[i]);
        }
    }
    assert forall|key: BatchKey| #[trigger] absent(grown, key) implies replay(
        log.push(event),
        key,
    ) == BatchState::Unsealed by {
        lemma_replay_push(log, event, key);
        assert(grown[entries.len() as int].key != key);
        assert forall|i: int| 0 <= i < entries.len() implies (#[trigger] entries[i]).key != key by {
            assert(grown[i] == entries[i]);
        }
        assert(absent(entries, key));
    }
    assert forall|i: int, j: int| 0 <= i < j < grown.len() implies (#[trigger] grown[i]).key != (
    #[trigger] grown[j]).key by {
        assert(grown[i] == entries[i]);
        if j < entries.len() {
            assert(grown[j] == entries[j]);
        }
    }
}

/// Keeps the state of every batch it has been told about.
///
/// The sequencer is told each answer of the engine with `record` and asked
/// with `check_order` before each call. What it knows of a batch is exactly
/// what replaying the recorded answers gives.
pub struct Sequencer {
    entries: Vec<Entry>,
    log: Ghost<Seq<Event>>,
}

impl Sequencer {
    /// The answers recorded so far, oldest first.
    pub closed spec fn history(&self) -> Seq<Event> {
        self.log@
    }

    /// The state of the batch `key`.
    pub open spec fn state_of(&self, key: BatchKey) -> BatchState {
        replay(self.history(), key)
    }

    /// The entries are in step with the recorded answers.
    pub closed spec fn wf(&self) -> bool {
        tracks(self.entries@, self.log@)
    }

    /// A sequencer that has been told nothing: every batch is unsealed.
    pub fn new() -> (s: Sequencer)
        ensures
            s.wf(),
            s.history() == Seq::<Event>::empty(),
    {
        Sequencer { entries: Vec::new(), log: Ghost(Seq::empty()) }
    }

    /// Where the batch `key` is kept, if it is kept.
    fn position(&self, key: &BatchKey) -> (r: Option<usize>)
        ensures
            match r {
                Some(i) => i < self.entries.len() && self.entries[i as int].key == *key,
                None => absent(self.entries@, *key),
            },
    {
        let mut i: usize = 0;
        while i < self.entries.len()
            invariant
                i <= self.entries.len(),
                forall|a: int| 0 <= a < i ==> (#[trigger] self.entries[a]).key != *key,
            decreases self.entries.len() - i,
        {
            if self.entries[i].key == *key {
                return Some(i);
            }
            i += 1;
        }
        None
    }

    /// Tells how far the batch `key` has come.
    pub fn state(&self, key: &BatchKey) -> (r: BatchState)
        requires
            self.wf(),
        ensures
            r == self.state_of(*key),
    {
        match self.position(key) {
            Some(i) => self.entries[i].state,
            None => BatchState::Unsealed,
        }
    }

    /// Decides whether `phase` may run for the batch `key`.
    pub fn check_order(&self, key: &BatchKey, phase: Phase) -> (r: Result<Admission, ConfigError>)
        requires
            self.wf(),
        ensures
            r == admission(self.state_of(*key), phase),
    {
        check_order(self.state(key), phase)
    }

    /// Decides what a caller who asks for `phase` is owed for the batch
    /// `key`.
    pub fn step(&self, key: &BatchKey, phase: Phase) -> (r: Step)
        requires
            self.wf(),
        ensures
            r == step_of(self.state_of(*key), phase),
    {
        step(self.state(key), phase)
    }

    /// Takes note of an answer of the engine for the batch `key`, whether
    /// the call was due or not.
    pub fn record(&mut self, key: BatchKey, result: PhaseResult)
        requires
            old(self).wf(),
        ensures
            final(self).wf(),
            final(self).history() == old(self).history().push((Event { key, result })),
    {
        let ghost event = Event { key, result };
        match self.position(&key) {
            Some(i) => {
                proof {
                    lemma_tracks_moved_entry(self.entries@, self.log@, i as int, event);
                }
                let moved: BatchState = advance(self.entries[i].state, result);
                self.entries.set(i, Entry { key, state: moved });
            },
            None => {
                proof {
                    lemma_tracks_new_entry(self.entries@, self.log@, event);
                }
                let moved: BatchState = advance(BatchState::Unsealed, result);
                self.entries.push(Entry { key, state: moved });
            },
        }
        self.log = Ghost(self.log@.push(event));
    }
}

/// A batch stays unsealed until replica commitment has succeeded for it, and
/// tree building is out of order for an unsealed batch: whatever else was
/// recorded, tree building is refused for a batch whose replica commitment
/// never succeeded.
pub proof fn lemma_pc2_needs_pc1(events: Seq<Event>, key: BatchKey)
    requires
        !has_success(events, key, Phase::Pc1),
    ensures
        replay(events, key) == BatchState::Unsealed,
        admission(replay(events, key), Phase::Pc2) == Err::<Admission, ConfigError>(
            ConfigError::PhaseOutOfOrder,
        ),
    decreases events.len(),
{
    if events.len() > 0 {
        let earlier = events.drop_last();
        assert forall|i: int| 0 <= i < earlier.len() implies !((#[trigger] earlier[i]).key == key
            && earlier[i].result.phase == Phase::Pc1 && earlier[i].result.succeeded()) by {
            assert(earlier[i] == events[i]);
        }
        lemma_pc2_needs_pc1(earlier, key);
        let last = events.last();
        assert(last == events[events.len() - 1]);
    }
}

/// Once replica commitment has failed for a batch, tree building is refused
/// for it until replica commitment has succeeded again, whatever the batch
/// had reached before the failure and whatever else was recorded since.
pub proof fn lemma_failed_pc1_bars_pc2(events: Seq<Event>, key: BatchKey, at: int)
    requires
        0 <= at < events.len(),
        is_failure_of(events[at], key, Phase::Pc1),
        no_success_since(events, at, key, Phase::Pc1),
    ensures
        replay(events, key) == BatchState::Unsealed,
        admission(replay(events, key), Phase::Pc2) == Err::<Admission, ConfigError>(
            ConfigError::PhaseOutOfOrder,
        ),
    decreases events.len(),
{
    if at < events.len() - 1 {
        let earlier = events.drop_last();
        assert(earlier[at] == events[at]);
        assert forall|j: int| at < j < earlier.len() implies !((#[trigger] earlier[j]).key == key
            && earlier[j].result.phase == Phase::Pc1 && earlier[j].result.succeeded()) by {
            assert(earlier[j] == events[j]);
        }
        lemma_failed_pc1_bars_pc2(earlier, key, at);
        assert(events.last() == events[events.len() - 1]);
    }
}

/// Cleanup and proof generation are refused for a batch whose tree building
/// never succeeded.
pub proof fn lemma_pc2_comes_first(events: Seq<Event>, key: BatchKey)
    requires
        !has_success(events, key, Phase::Pc2),
    ensures
        is_before_pc2(replay(events, key)),
        admission(replay(events, key), Phase::Cleanup) == Err::<Admission, ConfigError>(
            ConfigError::PhaseOutOfOrder,
        ),
        admission(replay(events, key), Phase::C1) == Err::<Admission, ConfigError>(
            ConfigError::PhaseOutOfOrder,
        ),
    decreases events.len(),
{
    if events.len() > 0 {
        let earlier = events.drop_last();
        assert forall|i: int| 0 <= i < earlier.len() implies !((#[trigger] earlier[i]).key == key
            && earlier[i].result.phase == Phase::Pc2 && earlier[i].result.succeeded()) by {
            assert(earlier[i] == events[i]);
        }
        lemma_pc2_comes_first(earlier, key);
        let last = events.last();
        assert(last == events[events.len() - 1]);
    }
}

/// While tree building has not succeeded again, a batch that had not passed
/// tree building at the place `at` has not passed it at the end either.
proof fn lemma_stays_before_pc2(events: Seq<Event>, key: BatchKey, at: int)
    requires
        0 <= at < events.len(),
        is_before_pc2(replay(events.take(at + 1), key)),
        no_success_since(events, at, key, Phase::Pc2),
    ensures
        is_before_pc2(replay(events, key)),
    decreases events.len(),
{
    if at < events.len() - 1 {
        let earlier = events.drop_last();
        assert(earlier.take(at + 1) == events.take(at + 1));
        assert forall|j: int| at < j < earlier.len() implies !((#[trigger] earlier[j]).key == key
            && earlier[j].result.phase == Phase::Pc2 && earlier[j].result.succeeded()) by {
            assert(earlier[j] == events[j]);
        }
        lemma_stays_before_pc2(earlier, key, at);
        assert(events.last() == events[events.len() - 1]);
    } else {
        assert(events.take(at + 1) == events);
    }
}

/// Once tree building has failed for a batch, cleanup and proof generation
/// are refused for it until tree building has succeeded again, whatever the
/// batch had reached before the failure and whatever else was recorded
/// since.
pub proof fn lemma_failed_pc2_bars_cleanup_and_c1(events: Seq<Event>, key: BatchKey, at: int)
    requires
        0 <= at < events.len(),
        is_failure_of(events[at], key, Phase::Pc2),
        no_success_since(events, at, key, Phase::Pc2),
    ensures
        is_before_pc2(replay(events, key)),
        admission(replay(events, key), Phase::Cleanup) == Err::<Admission, ConfigError>(
            ConfigError::PhaseOutOfOrder,
        ),
        admission(replay(events, key), Phase::C1) == Err::<Admission, ConfigError>(
            ConfigError::PhaseOutOfOrder,
        ),
{
    let upto = events.take(at + 1);
    assert(upto.last() == events[at]);
    lemma_stays_before_pc2(events, key, at);
}

/// Once proof generation has failed for a batch, it is not simply run again:
/// it is refused until tree building has succeeded again, whatever else was
/// recorded since.
pub proof fn lemma_failed_c1_bars_c1(events: Seq<Event>, key: BatchKey, at: int)
    requires
        0 <= at < events.len(),
        is_failure_of(events[at], key, Phase::C1),
        no_success_since(events, at, key, Phase::Pc2),
    ensures
        is_before_pc2(replay(events, key)),
        admission(replay(events, key), Phase::C1) == Err::<Admission, ConfigError>(
            ConfigError::PhaseOutOfOrder,
        ),
{
    let upto = events.take(at + 1);
    assert(upto.last() == events[at]);
    lemma_stays_before_pc2(events, key, at);
}

/// The answer `code` of the engine to a cleanup call for the batch `key`.
pub open spec fn cleanup_event(key: BatchKey, code: u32) -> Event {
    Event { key, result: PhaseResult { phase: Phase::Cleanup, code } }
}

/// Whether cleanup has succeeded for a batch in `state`.
pub open spec fn is_clean(state: BatchState) -> bool {
    state == BatchState::CleanedUp || state == BatchState::ProofReady
}

/// Cleanup twice in a row: once cleanup has run and succeeded for a batch,
/// the batch is clean, a second cleanup is answered with the status of
/// success without entering the engine, and whatever is recorded for it
/// leaves the batch as it was.
pub proof fn lemma_cleanup_twice(events: Seq<Event>, key: BatchKey, second: u32)
    requires
        admission(replay(events, key), Phase::Cleanup) == Ok::<Admission, ConfigError>(
            Admission::Invoke,
        ),
    ensures
        replay(events.push(cleanup_event(key, SUCCESS)), key) == BatchState::CleanedUp,
        step_of(replay(events.push(cleanup_event(key, SUCCESS)), key), Phase::Cleanup)
            == Step::Answer(PhaseResult { phase: Phase::Cleanup, code: SUCCESS }),
        replay(
            events.push(cleanup_event(key, SUCCESS)).push(cleanup_event(key, second)),
            key,
        ) == replay(events.push(cleanup_event(key, SUCCESS)), key),
{
    let once = events.push(cleanup_event(key, SUCCESS));
    lemma_replay_push(events, cleanup_event(key, SUCCESS), key);
    lemma_replay_push(once, cleanup_event(key, second), key);
}

/// Cleanup of a clean batch changes nothing, however often it is asked for:
/// it is answered with the status of success without entering the engine,
/// and no cleanup result moves the batch.
pub proof fn lemma_cleanup_of_clean_batch(events: Seq<Event>, key: BatchKey, code: u32)
    requires
        is_clean(replay(events, key)),
    ensures
        step_of(replay(events, key), Phase::Cleanup) == Step::Answer(
            PhaseResult { phase: Phase::Cleanup, code: SUCCESS },
        ),
        replay(events.push(cleanup_event(key, code)), key) == replay(events, key),
{
    lemma_replay_push(events, cleanup_event(key, code), key);
}

} // verus!
