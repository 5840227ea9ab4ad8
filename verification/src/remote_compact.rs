//! The remote compaction task: the conversation history is replaced by a
//! compacted version that the model service returns, keeping the ghost
//! snapshots that undo relies on.
//!
//! The task alternates work outside this crate (sending events, awaiting
//! the service, updating the session) with decisions. The decisions are the
//! state machine [`RemoteCompaction`]: fed the result of each piece of work
//! as an event, it answers with the next piece of work as an action. The
//! history items are carried through as values of a type parameter.

use vstd::prelude::*;

verus! {

/// How the request for a compacted history ended.
pub enum CompactionOutcome<T, E> {
    /// The service returned the compacted history.
    Compacted(Vec<T>),
    /// The request failed with an error.
    Failed(E),
    /// The response stream stayed idle for longer than its timeout.
    TimedOut,
    /// The turn was cancelled while the request was pending.
    Cancelled,
}

/// Why a compaction did not take place.
pub enum CompactionFailure<E> {
    /// The turn was aborted.
    Aborted,
    /// The response stream stayed idle for longer than its timeout.
    IdleTimeout,
    /// The request failed with this error.
    Failed(E),
}

/// The error message sent when a remote compaction fails.
pub const COMPACTION_ERROR_MESSAGE: &'static str = "Error running remote compact task";

/// What the task is waiting for.
pub enum CompactPhase {
    /// The task has not begun.
    Start,
    /// The turn-started event is being sent.
    AnnouncingTurn,
    /// The history is being read.
    LoadingHistory,
    /// The service is compacting the history.
    Compacting,
    /// The session history is being replaced.
    ReplacingHistory,
    /// The token usage is being recomputed.
    RecomputingUsage,
    /// The compacted history is being recorded in the rollout.
    Persisting,
    /// The context-compacted event is being sent.
    Notifying,
    /// The error event is being sent.
    ReportingError,
    /// The task is over.
    Finished,
}

/// What happened since the last action.
pub enum CompactEvent<T, E> {
    /// The task is started.
    Begin,
    /// The last action was carried out.
    Done,
    /// The history was read: its items, and for each whether it is a ghost
    /// snapshot.
    HistoryLoaded(Vec<T>, Vec<bool>),
    /// The compaction request ended.
    CompactionFinished(CompactionOutcome<T, E>),
}

/// The next piece of work.
pub enum CompactAction<T, E> {
    /// Send the turn-started event.
    SendTurnStarted,
    /// Read the conversation history.
    LoadHistory,
    /// Ask the service for a compacted history.
    RequestCompaction,
    /// Replace the session history with the task's replacement history.
    ReplaceHistory,
    /// Recompute the token usage of the session.
    RecomputeTokenUsage,
    /// Record the compaction, with this replacement history, in the rollout.
    PersistCompacted(Vec<T>),
    /// Send the context-compacted event.
    SendContextCompacted,
    /// Send an error event with [`COMPACTION_ERROR_MESSAGE`] for this failure.
    SendError(CompactionFailure<E>),
    /// Stop: the task is over.
    Finish,
}

/// The state of a remote compaction task.
pub struct RemoteCompaction<T> {
    /// What the task is waiting for.
    pub phase: CompactPhase,
    /// Whether the task announces its turn before it starts.
    pub announce_turn: bool,
    /// The ghost snapshots of the history, kept across the compaction.
    pub ghost_snapshots: Vec<T>,
    /// The history that replaces the session history: the compacted history
    /// followed by the ghost snapshots.
    pub replacement: Vec<T>,
}

/// The items whose flag is set, in order.
pub open spec fn flagged<T>(items: Seq<T>, flags: Seq<bool>) -> Seq<T>
    decreases items.len(),
{
    if items.len() == 0 {
        Seq::empty()
    } else {
        let rest = flagged(items.drop_last(), flags.take(items.len() - 1));
        if flags[items.len() - 1] {
            rest.push(items.last())
        } else {
            rest
        }
    }
}

/// How many flags are set.
pub open spec fn count_set(flags: Seq<bool>) -> nat
    decreases flags.len(),
{
    if flags.len() == 0 {
        0
    } else {
        count_set(flags.drop_last()) + if flags.last() {
            1nat
        } else {
            0nat
        }
    }
}

proof fn lemma_count_set_step(flags: Seq<bool>, i: int)
    requires
        0 <= i < flags.len(),
    ensures
        count_set(flags.take(i + 1)) == count_set(flags.take(i)) + if flags[i] {
            1nat
        } else {
            0nat
        },
{
    assert(flags.take(i + 1).drop_last() =~= flags.take(i));
}

proof fn lemma_count_set_monotone(flags: Seq<bool>, i: int, j: int)
    requires
        0 <= i <= j <= flags.len(),
    ensures
        count_set(flags.take(i)) <= count_set(flags.take(j)),
    decreases j - i,
{
    if i < j {
        lemma_count_set_monotone(flags, i, j - 1);
        lemma_count_set_step(flags, j - 1);
    }
}

/// Selecting the flagged items keeps every one of them, in order, and
/// nothing else: there are as many as there are flags set, and the item at
/// a set flag comes after exactly the flagged items before it.
pub proof fn law_flagged_keeps_every_flagged_item<T>(items: Seq<T>, flags: Seq<bool>)
    requires
        items.len() == flags.len(),
    ensures
        flagged(items, flags).len() == count_set(flags),
        forall|i: int|
            0 <= i < items.len() && flags[i] ==> flagged(items, flags)[count_set(flags.take(i)) as int]
                == #[trigger] items[i],
    decreases items.len(),
{
    if items.len() > 0 {
        let n = items.len() - 1;
        let fs = flags.take(n);
        law_flagged_keeps_every_flagged_item(items.drop_last(), fs);
        assert(fs =~= flags.drop_last());
        assert(flags.take(n as int + 1) =~= flags);
        assert forall|i: int| 0 <= i < items.len() && flags[i] implies flagged(items, flags)[count_set(
            flags.take(i),
        ) as int] == #[trigger] items[i] by {
            if i < n {
                assert(fs.take(i) =~= flags.take(i));
                assert(fs[i] == flags[i]);
                assert(items.drop_last()[i] == items[i]);
                lemma_count_set_step(fs, i);
                lemma_count_set_monotone(fs, i + 1, n);
                assert(fs.take(n) =~= fs);
            } else {
                assert(flags.take(i) =~= fs);
            }
        }
    }
}

/// The failure that an unsuccessful outcome stands for.
pub open spec fn failure_of<T, E>(outcome: CompactionOutcome<T, E>) -> CompactionFailure<E> {
    match outcome {
        CompactionOutcome::Cancelled => CompactionFailure::Aborted,
        CompactionOutcome::TimedOut => CompactionFailure::IdleTimeout,
        CompactionOutcome::Failed(e) => CompactionFailure::Failed(e),
        CompactionOutcome::Compacted(_) => CompactionFailure::Aborted,
    }
}

impl<T> RemoteCompaction<T> {
    /// A task that has not begun. The task run for a compaction turn of its
    /// own announces the turn; the one run inline in another turn does not.
    pub fn new(announce_turn: bool) -> (res: Self)
        ensures
            res.phase == CompactPhase::Start,
            res.announce_turn == announce_turn,
            res.ghost_snapshots@.len() == 0,
            res.replacement@.len() == 0,
    {
        RemoteCompaction {
            phase: CompactPhase::Start,
            announce_turn,
            ghost_snapshots: Vec::new(),
            replacement: Vec::new(),
        }
    }

    /// The event is the one the task waits for.
    pub open spec fn accepts<E>(&self, event: CompactEvent<T, E>) -> bool {
        match (self.phase, event) {
            (CompactPhase::Start, CompactEvent::Begin) => true,
            (CompactPhase::AnnouncingTurn, CompactEvent::Done) => true,
            (CompactPhase::LoadingHistory, CompactEvent::HistoryLoaded(items, flags)) => items@.len()
                == flags@.len(),
            (CompactPhase::Compacting, CompactEvent::CompactionFinished(_)) => true,
            (CompactPhase::ReplacingHistory, CompactEvent::Done) => true,
            (CompactPhase::RecomputingUsage, CompactEvent::Done) => true,
            (CompactPhase::Persisting, CompactEvent::Done) => true,
            (CompactPhase::Notifying, CompactEvent::Done) => true,
            (CompactPhase::ReportingError, CompactEvent::Done) => true,
            _ => false,
        }
    }

    /// Whether the task waits for this event.
    pub fn is_expected<E>(&self, event: &CompactEvent<T, E>) -> (res: bool)
        ensures
            res == self.accepts(*event),
    {
        match (&self.phase, event) {
            (CompactPhase::Start, CompactEvent::Begin) => true,
            (CompactPhase::AnnouncingTurn, CompactEvent::Done) => true,
            (CompactPhase::LoadingHistory, CompactEvent::HistoryLoaded(items, flags)) => items.len()
                == flags.len(),
            (CompactPhase::Compacting, CompactEvent::CompactionFinished(_)) => true,
            (CompactPhase::ReplacingHistory, CompactEvent::Done) => true,
            (CompactPhase::RecomputingUsage, CompactEvent::Done) => true,
            (CompactPhase::Persisting, CompactEvent::Done) => true,
            (CompactPhase::Notifying, CompactEvent::Done) => true,
            (CompactPhase::ReportingError, CompactEvent::Done) => true,
            _ => false,
        }
    }

    /// The task keeps its kind, and its ghost snapshots and replacement
    /// history are those of `other`.
    pub open spec fn same_data(&self, other: &Self) -> bool {
        &&& self.announce_turn == other.announce_turn
        &&& self.ghost_snapshots@ == other.ghost_snapshots@
        &&& self.replacement@ == other.replacement@
    }

    /// From this state, the accepted `event` leads to state `next` and to
    /// `action`.
    pub open spec fn steps_to<E>(
        &self,
        event: CompactEvent<T, E>,
        next: Self,
        action: CompactAction<T, E>,
    ) -> bool {
        match event {
            CompactEvent::Begin => if self.announce_turn {
                next.phase == CompactPhase::AnnouncingTurn && action is SendTurnStarted
                    && next.same_data(self)
            } else {
                next.phase == CompactPhase::LoadingHistory && action is LoadHistory
                    && next.same_data(self)
            },
            CompactEvent::HistoryLoaded(items, flags) => {
                &&& next.phase == CompactPhase::Compacting
                &&& action is RequestCompaction
                &&& next.announce_turn == self.announce_turn
                &&& next.ghost_snapshots@ == flagged(items@, flags@)
                &&& next.replacement@ == self.replacement@
            },
            CompactEvent::CompactionFinished(outcome) => match outcome {
                CompactionOutcome::Compacted(history) => {
                    &&& next.phase == CompactPhase::ReplacingHistory
                    &&& action is ReplaceHistory
                    &&& next.announce_turn == self.announce_turn
                    &&& next.ghost_snapshots@.len() == 0
                    &&& next.replacement@ == history@ + self.ghost_snapshots@
                },
                _ => {
                    &&& next.phase == CompactPhase::ReportingError
                    &&& action == CompactAction::<T, E>::SendError(failure_of(outcome))
                    &&& next.same_data(self)
                },
            },
            CompactEvent::Done => match self.phase {
                CompactPhase::AnnouncingTurn => next.phase == CompactPhase::LoadingHistory
                    && action is LoadHistory && next.same_data(self),
                CompactPhase::ReplacingHistory => next.phase == CompactPhase::RecomputingUsage
                    && action is RecomputeTokenUsage && next.same_data(self),
                CompactPhase::RecomputingUsage => {
                    &&& next.phase == CompactPhase::Persisting
                    &&& action matches CompactAction::PersistCompacted(h) && h@
                        == self.replacement@
                    &&& next.announce_turn == self.announce_turn
                    &&& next.ghost_snapshots@ == self.ghost_snapshots@
                    &&& next.replacement@.len() == 0
                },
                CompactPhase::Persisting => next.phase == CompactPhase::Notifying
                    && action is SendContextCompacted && next.same_data(self),
                _ => next.phase == CompactPhase::Finished && action is Finish && next.same_data(
                    self,
                ),
            },
        }
    }

    /// Takes the result of the last action and returns the next action.
    pub fn step<E>(&mut self, event: CompactEvent<T, E>) -> (action: CompactAction<T, E>)
        requires
            old(self).accepts(event),
        ensures
            old(self).steps_to(event, *final(self), action),
    {
        match event {
            CompactEvent::Begin => {
                if self.announce_turn {
                    self.phase = CompactPhase::AnnouncingTurn;
                    CompactAction::SendTurnStarted
                } else {
                    self.phase = CompactPhase::LoadingHistory;
                    CompactAction::LoadHistory
                }
            },
            CompactEvent::HistoryLoaded(items, flags) => {
                self.ghost_snapshots = select_flagged(items, &flags);
                self.phase = CompactPhase::Compacting;
                CompactAction::RequestCompaction
            },
            CompactEvent::CompactionFinished(outcome) => match outcome {
                CompactionOutcome::Compacted(history) => {
                    let mut new_history = history;
                    let mut ghost_snapshots = Vec::new();
                    std::mem::swap(&mut ghost_snapshots, &mut self.ghost_snapshots);
                    new_history.append(&mut ghost_snapshots);
                    self.replacement = new_history;
                    self.phase = CompactPhase::ReplacingHistory;
                    CompactAction::ReplaceHistory
                },
                CompactionOutcome::Failed(e) => {
                    self.phase = CompactPhase::ReportingError;
                    CompactAction::SendError(CompactionFailure::Failed(e))
                },
                CompactionOutcome::TimedOut => {
                    self.phase = CompactPhase::ReportingError;
                    CompactAction::SendError(CompactionFailure::IdleTimeout)
                },
                CompactionOutcome::Cancelled => {
                    self.phase = CompactPhase::ReportingError;
                    CompactAction::SendError(CompactionFailure::Aborted)
                },
            },
            CompactEvent::Done => match self.phase {
                CompactPhase::AnnouncingTurn => {
                    self.phase = CompactPhase::LoadingHistory;
                    CompactAction::LoadHistory
                },
                CompactPhase::ReplacingHistory => {
                    self.phase = CompactPhase::RecomputingUsage;
                    CompactAction::RecomputeTokenUsage
                },
                CompactPhase::RecomputingUsage => {
                    let mut replacement = Vec::new();
                    std::mem::swap(&mut replacement, &mut self.replacement);
                    self.phase = CompactPhase::Persisting;
                    CompactAction::PersistCompacted(replacement)
                },
                CompactPhase::Persisting => {
                    self.phase = CompactPhase::Notifying;
                    CompactAction::SendContextCompacted
                },
                _ => {
                    self.phase = CompactPhase::Finished;
                    CompactAction::Finish
                },
            },
        }
    }
}

/// The items whose flag is set, in order.
pub fn select_flagged<T>(items: Vec<T>, flags: &Vec<bool>) -> (res: Vec<T>)
    requires
        items@.len() == flags@.len(),
    ensures
        res@ == flagged(items@, flags@),
{
    let ghost all = items@;
    let mut rest = items;
    let mut kept_reversed: Vec<T> = Vec::new();
    let mut i = rest.len();
    assert(flags@.take(i as int) =~= flags@);
    assert(rest@ =~= all.take(i as int));
    assert(kept_reversed@.reverse() =~= Seq::<T>::empty());
    assert(flagged(all, flags@) =~= flagged(rest@, flags@.take(i as int)) + kept_reversed@.reverse());
    while i > 0
        invariant
            i == rest@.len(),
            i <= flags@.len() == all.len(),
            rest@ == all.take(i as int),
            flagged(all, flags@) == flagged(rest@, flags@.take(i as int)) + kept_reversed@.reverse(),
        decreases i,
    {
        proof {
            assert(rest@.drop_last() =~= all.take(i - 1));
            assert(flags@.take(i as int).take(i - 1) =~= flags@.take(i - 1));
            assert(flags@.take(i as int)[i - 1] == flags@[i - 1]);
        }
        let item = rest.pop().unwrap();
        i = i - 1;
        let ghost before = kept_reversed@;
        if flags[i] {
            kept_reversed.push(item);
            assert(kept_reversed@.reverse() =~= seq![item] + before.reverse());
        }
    }
    let mut kept: Vec<T> = Vec::new();
    let ghost target = flagged(all, flags@);
    assert(flagged(rest@, flags@.take(0)) =~= Seq::<T>::empty());
    assert(target =~= kept_reversed@.reverse());
    while kept_reversed.len() > 0
        invariant
            target == kept@ + kept_reversed@.reverse(),
        decreases kept_reversed@.len(),
    {
        let ghost before = kept_reversed@;
        let item = kept_reversed.pop().unwrap();
        assert(before.reverse() =~= seq![item] + kept_reversed@.reverse());
        kept.push(item);
        assert(target =~= kept@ + kept_reversed@.reverse());
    }
    assert(kept_reversed@.reverse() =~= Seq::<T>::empty());
    assert(kept@ =~= target);
    kept
}

/// How many steps a task in this phase has left at most.
pub open spec fn steps_left(phase: CompactPhase) -> nat {
    match phase {
        CompactPhase::Start => 8,
        CompactPhase::AnnouncingTurn => 7,
        CompactPhase::LoadingHistory => 6,
        CompactPhase::Compacting => 5,
        CompactPhase::ReplacingHistory => 4,
        CompactPhase::RecomputingUsage => 3,
        CompactPhase::Persisting => 2,
        CompactPhase::Notifying => 1,
        CompactPhase::ReportingError => 1,
        CompactPhase::Finished => 0,
    }
}

/// Every accepted step brings the task closer to its end, and the task asks
/// to stop exactly when it is over: a task takes at most eight steps.
pub proof fn law_every_step_progresses<T, E>(
    state: RemoteCompaction<T>,
    event: CompactEvent<T, E>,
    next: RemoteCompaction<T>,
    action: CompactAction<T, E>,
)
    requires
        state.accepts(event),
        state.steps_to(event, next, action),
    ensures
        steps_left(next.phase) < steps_left(state.phase),
        next.phase == CompactPhase::Finished <==> action is Finish,
{
}

/// A successful compaction: the turn is announced when the task runs a turn
/// of its own, then the history is read and sent for compaction, the session
/// history is replaced by the compacted history followed by the ghost
/// snapshots of the old one, the token usage is recomputed, that same history
/// is recorded in the rollout, the context-compacted event is sent, and the
/// task ends.
pub proof fn law_successful_compaction<T, E>(
    s0: RemoteCompaction<T>,
    s1: RemoteCompaction<T>,
    a1: CompactAction<T, E>,
    s2: RemoteCompaction<T>,
    a2: CompactAction<T, E>,
    items: Vec<T>,
    flags: Vec<bool>,
    s3: RemoteCompaction<T>,
    a3: CompactAction<T, E>,
    compacted: Vec<T>,
    s4: RemoteCompaction<T>,
    a4: CompactAction<T, E>,
    s5: RemoteCompaction<T>,
    a5: CompactAction<T, E>,
    s6: RemoteCompaction<T>,
    a6: CompactAction<T, E>,
    s7: RemoteCompaction<T>,
    a7: CompactAction<T, E>,
    s8: RemoteCompaction<T>,
    a8: CompactAction<T, E>,
)
    requires
        s0.phase == CompactPhase::Start,
        s0.steps_to(CompactEvent::Begin, s1, a1),
        s0.announce_turn ==> s1.steps_to(CompactEvent::Done, s2, a2),
        !s0.announce_turn ==> s2 == s1,
        items@.len() == flags@.len(),
        s2.steps_to(CompactEvent::HistoryLoaded(items, flags), s3, a3),
        s3.steps_to(
            CompactEvent::CompactionFinished(CompactionOutcome::Compacted(compacted)),
            s4,
            a4,
        ),
        s4.steps_to(CompactEvent::Done, s5, a5),
        s5.steps_to(CompactEvent::Done, s6, a6),
        s6.steps_to(CompactEvent::Done, s7, a7),
        s7.steps_to(CompactEvent::Done, s8, a8),
    ensures
        s0.announce_turn ==> a1 is SendTurnStarted && a2 is LoadHistory,
        !s0.announce_turn ==> a1 is LoadHistory,
        s2.phase == CompactPhase::LoadingHistory,
        a3 is RequestCompaction,
        a4 is ReplaceHistory,
        s4.replacement@ == compacted@ + flagged(items@, flags@),
        a5 is RecomputeTokenUsage,
        a6 matches CompactAction::PersistCompacted(h) && h@ == compacted@ + flagged(items@, flags@),
        a7 is SendContextCompacted,
        a8 is Finish,
        s8.phase == CompactPhase::Finished,
{
}

/// A compaction that fails (the service errs, times out, or the turn is
/// cancelled) leaves the history alone: the task sends one error event for
/// the failure and ends.
pub proof fn law_failed_compaction<T, E>(
    s: RemoteCompaction<T>,
    outcome: CompactionOutcome<T, E>,
    s1: RemoteCompaction<T>,
    a1: CompactAction<T, E>,
    s2: RemoteCompaction<T>,
    a2: CompactAction<T, E>,
)
    requires
        s.phase == CompactPhase::Compacting,
        !(outcome is Compacted),
        s.steps_to(CompactEvent::CompactionFinished(outcome), s1, a1),
        s1.steps_to(CompactEvent::Done, s2, a2),
    ensures
        a1 == CompactAction::<T, E>::SendError(failure_of(outcome)),
        outcome is Cancelled ==> a1 == CompactAction::<T, E>::SendError(CompactionFailure::Aborted),
        outcome is TimedOut ==> a1 == CompactAction::<T, E>::SendError(
            CompactionFailure::IdleTimeout,
        ),
        a2 is Finish,
        s2.phase == CompactPhase::Finished,
{
}

} // verus!
