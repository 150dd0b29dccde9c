//! The driver of the id-synchronisation worker, as a state machine.
//!
//! The worker alternates between waiting on the outside world (the account
//! store, the remote, the relationship store, the clock) and deciding what
//! to do next. The decisions live here: [`IdSynchronizer::step`] takes what
//! the outside world answered and returns the next thing to ask of it. The
//! caller performs that action and comes back with its result.

use crate::account::{Credential, User};
use crate::id_sync::{
    after_fetch, after_verification, batch_of_fetch, outcome_of_fetch, request_of, seed_cycle,
    seeded, Batch, FetchResult, Fetched, PageRequest, SyncTask, Verified,
};
use crate::scheduler::{
    after_poll, after_settle, earliest, next_step, Outcome, Poll, ScheduledItem, Scheduler,
    POLL_QUANTUM_SECS,
};
use vstd::prelude::*;

verus! {

/// The pause, in seconds, before the account list is asked for again after
/// it could not be loaded or came back empty.
pub const RELOAD_PAUSE_SECS: u64 = 10;

/// The pause, in seconds, after a page could not be stored.
pub const STORE_FAILURE_PAUSE_SECS: u64 = 5;

/// What the worker is waiting for.
#[derive(Debug, Clone, PartialEq, Eq)]
pub enum SyncPhase {
    /// The account list has been asked for.
    AwaitingAccounts,
    /// Pausing before the account list is asked for again.
    PausedBeforeReload,
    /// Pausing in the middle of a cycle.
    PausedInCycle,
    /// The credential of the enclosed task is being checked.
    AwaitingVerdict(SyncTask),
    /// A page has been asked for on behalf of the enclosed task.
    AwaitingPage(SyncTask),
    /// A page is being stored; this outcome is settled once it is.
    AwaitingPersist(Outcome<SyncTask>),
}

/// What the outside world answered.
#[derive(Debug, Clone, PartialEq, Eq)]
pub enum SyncEvent {
    /// A pause has ended.
    Woke,
    /// The account list, or `None` if the store failed.
    AccountsLoaded(Option<Vec<User>>),
    /// Whether the credential was found valid.
    CredentialChecked(bool),
    /// The remote's answer to a page request.
    PageFetched(FetchResult),
    /// Whether the page was stored.
    Persisted(bool),
}

/// What the worker asks of the outside world next.
#[derive(Debug, Clone, PartialEq, Eq)]
pub enum SyncAction {
    /// Load the account list.
    LoadAccounts,
    /// Pause for this many seconds.
    Sleep(u64),
    /// Check this credential with the remote.
    VerifyCredential(Credential),
    /// Fetch a page with this credential.
    FetchPage(Credential, PageRequest),
    /// Upsert this page of ids.
    Persist(Batch),
}

/// The state of the worker as the contracts see it: the tasks awaiting
/// their turn, and what the worker is waiting for.
pub struct SyncState {
    pub queue: Seq<ScheduledItem<SyncTask>>,
    pub phase: SyncPhase,
}

/// Takes up the cycle at time `now`: with no task left the cycle is over and
/// the account list is loaded again without delay; with the earliest task
/// not ready the worker pauses for the poll quantum; otherwise the earliest
/// task is taken out and its credential checked.
pub open spec fn resume(queue: Seq<ScheduledItem<SyncTask>>, now: i64) -> (SyncState, SyncAction) {
    match next_step(queue, now) {
        Poll::Finished => (
            SyncState { queue: after_poll(queue, now), phase: SyncPhase::AwaitingAccounts },
            SyncAction::LoadAccounts,
        ),
        Poll::Wait => (
            SyncState { queue: after_poll(queue, now), phase: SyncPhase::PausedInCycle },
            SyncAction::Sleep(POLL_QUANTUM_SECS),
        ),
        Poll::Run(item) => (
            SyncState {
                queue: after_poll(queue, now),
                phase: SyncPhase::AwaitingVerdict(item.payload),
            },
            SyncAction::VerifyCredential(item.payload.credential),
        ),
    }
}

/// The transition of the worker: the state and the action that follow when
/// `event` arrives at time `now`, or `None` if the worker was not waiting
/// for such an event.
pub open spec fn sync_step(state: SyncState, now: i64, event: SyncEvent) -> Option<
    (SyncState, SyncAction),
> {
    match (state.phase, event) {
        (SyncPhase::AwaitingAccounts, SyncEvent::AccountsLoaded(Some(accounts))) => if 0
            < accounts@.len() {
            Some(resume(seeded(accounts@, now), now))
        } else {
            Some(
                (
                    SyncState { queue: state.queue, phase: SyncPhase::PausedBeforeReload },
                    SyncAction::Sleep(RELOAD_PAUSE_SECS),
                ),
            )
        },
        (SyncPhase::AwaitingAccounts, SyncEvent::AccountsLoaded(None)) => Some(
            (
                SyncState { queue: state.queue, phase: SyncPhase::PausedBeforeReload },
                SyncAction::Sleep(RELOAD_PAUSE_SECS),
            ),
        ),
        (SyncPhase::PausedBeforeReload, SyncEvent::Woke) => Some(
            (
                SyncState { queue: state.queue, phase: SyncPhase::AwaitingAccounts },
                SyncAction::LoadAccounts,
            ),
        ),
        (SyncPhase::PausedInCycle, SyncEvent::Woke) => Some(resume(state.queue, now)),
        (SyncPhase::AwaitingVerdict(task), SyncEvent::CredentialChecked(valid)) => if valid {
            Some(
                (
                    SyncState { queue: state.queue, phase: SyncPhase::AwaitingPage(task) },
                    SyncAction::FetchPage(task.credential, request_of(task)),
                ),
            )
        } else {
            Some(resume(state.queue, now))
        },
        (SyncPhase::AwaitingPage(task), SyncEvent::PageFetched(result)) => match batch_of_fetch(
            task,
            result,
        ) {
            Some(batch) => Some(
                (
                    SyncState {
                        queue: state.queue,
                        phase: SyncPhase::AwaitingPersist(outcome_of_fetch(task, result)),
                    },
                    SyncAction::Persist(batch),
                ),
            ),
            None => Some(
                resume(after_settle(state.queue, now, outcome_of_fetch(task, result)), now),
            ),
        },
        (SyncPhase::AwaitingPersist(outcome), SyncEvent::Persisted(stored)) => if stored {
            Some(resume(after_settle(state.queue, now, outcome), now))
        } else {
            Some(
                (
                    SyncState {
                        queue: after_settle(state.queue, now, outcome),
                        phase: SyncPhase::PausedInCycle,
                    },
                    SyncAction::Sleep(STORE_FAILURE_PAUSE_SECS),
                ),
            )
        },
        _ => None,
    }
}

/// A task is attempted only when it is due: whenever taking up the cycle
/// leads to a credential check, the task it is made for was held with a
/// ready time that has come, and is the one taken out.
pub proof fn law_attempts_are_due(queue: Seq<ScheduledItem<SyncTask>>, now: i64)
    ensures
        resume(queue, now).1 matches SyncAction::VerifyCredential(credential) ==> {
            &&& queue.len() > 0
            &&& queue[earliest(queue)].ready_at <= now
            &&& queue[earliest(queue)].payload.credential == credential
            &&& resume(queue, now).0.phase == SyncPhase::AwaitingVerdict(
                queue[earliest(queue)].payload,
            )
            &&& resume(queue, now).0.queue == queue.remove(earliest(queue))
        },
        !(resume(queue, now).1 is FetchPage),
        !(resume(queue, now).1 is Persist),
{
}

/// No page is fetched on a credential that was not just found valid, and
/// none is stored that was not just fetched: a fetch is only ever the answer
/// to a successful check of the task's own credential, for the page at the
/// task's cursor, and a store is only ever the answer to a page.
pub proof fn law_fetch_follows_verification(state: SyncState, now: i64, event: SyncEvent)
    ensures
        sync_step(state, now, event) matches Some(
            (next, SyncAction::FetchPage(credential, request)),
        ) ==> {
            &&& state.phase matches SyncPhase::AwaitingVerdict(task)
            &&& event == SyncEvent::CredentialChecked(true)
            &&& credential == task.credential
            &&& request == request_of(task)
            &&& next.phase == SyncPhase::AwaitingPage(task)
        },
        sync_step(state, now, event) matches Some((next, SyncAction::Persist(batch))) ==> {
            &&& state.phase matches SyncPhase::AwaitingPage(task)
            &&& event matches SyncEvent::PageFetched(FetchResult::Page { ids, next_cursor })
            &&& batch == Batch { account: task.account, kind: task.kind, ids }
        },
{
    match (state.phase, event) {
        (SyncPhase::AwaitingAccounts, SyncEvent::AccountsLoaded(Some(accounts))) => {
            law_attempts_are_due(seeded(accounts@, now), now);
        },
        (SyncPhase::PausedInCycle, SyncEvent::Woke) => {
            law_attempts_are_due(state.queue, now);
        },
        (SyncPhase::AwaitingVerdict(task), SyncEvent::CredentialChecked(valid)) => {
            law_attempts_are_due(state.queue, now);
        },
        (SyncPhase::AwaitingPage(task), SyncEvent::PageFetched(result)) => {
            law_attempts_are_due(
                after_settle(state.queue, now, outcome_of_fetch(task, result)),
                now,
            );
        },
        (SyncPhase::AwaitingPersist(outcome), SyncEvent::Persisted(stored)) => {
            law_attempts_are_due(after_settle(state.queue, now, outcome), now);
        },
        _ => {},
    }
}

/// Whether no task is held between cycles: while the account list is
/// awaited, or the worker pauses before asking for it again, the scheduler
/// is empty.
pub open spec fn idle_between_cycles(state: SyncState) -> bool {
    (state.phase is AwaitingAccounts || state.phase is PausedBeforeReload) ==> state.queue.len()
        == 0
}

/// A cycle ends only when its last task is gone, so a new cycle never
/// discards a task: a worker that holds no task between cycles still holds
/// none between cycles after any step.
pub proof fn law_cycles_run_to_the_end(state: SyncState, now: i64, event: SyncEvent)
    requires
        idle_between_cycles(state),
    ensures
        sync_step(state, now, event) matches Some((next, action)) ==> idle_between_cycles(next),
{
}

/// The id-synchronisation worker: the tasks of the running cycle, and what
/// the worker is waiting for.
pub struct IdSynchronizer {
    queue: Scheduler<SyncTask>,
    phase: SyncPhase,
}

impl View for IdSynchronizer {
    type V = SyncState;

    closed spec fn view(&self) -> SyncState {
        SyncState { queue: self.queue@, phase: self.phase }
    }
}

impl IdSynchronizer {
    /// A worker about to start its first cycle, and the first thing it asks
    /// for: the account list.
    pub fn new() -> (start: (IdSynchronizer, SyncAction))
        ensures
            start.0@ == (SyncState {
                queue: Seq::<ScheduledItem<SyncTask>>::empty(),
                phase: SyncPhase::AwaitingAccounts,
            }),
            start.1 == SyncAction::LoadAccounts,
    {
        (
            IdSynchronizer { queue: Scheduler::new(), phase: SyncPhase::AwaitingAccounts },
            SyncAction::LoadAccounts,
        )
    }

    /// What the worker is waiting for.
    pub fn phase(&self) -> (phase: &SyncPhase)
        ensures
            *phase == self@.phase,
    {
        &self.phase
    }

    /// The number of tasks awaiting their turn.
    pub fn pending(&self) -> (n: usize)
        ensures
            n == self@.queue.len(),
    {
        self.queue.len()
    }

    /// Takes up the cycle at time `now`.
    fn resume(queue: Scheduler<SyncTask>, now: i64) -> (next: (IdSynchronizer, SyncAction))
        ensures
            (next.0@, next.1) == resume(queue@, now),
    {
        let mut queue = queue;
        match queue.poll(now) {
            Poll::Finished => (
                IdSynchronizer { queue, phase: SyncPhase::AwaitingAccounts },
                SyncAction::LoadAccounts,
            ),
            Poll::Wait => (
                IdSynchronizer { queue, phase: SyncPhase::PausedInCycle },
                SyncAction::Sleep(POLL_QUANTUM_SECS),
            ),
            Poll::Run(item) => {
                let credential = item.payload.credential.duplicate();
                (
                    IdSynchronizer { queue, phase: SyncPhase::AwaitingVerdict(item.payload) },
                    SyncAction::VerifyCredential(credential),
                )
            },
        }
    }

    /// Moves the worker on: `event` is what the outside world answered to
    /// the last action, `now` the time at which it did.
    ///
    /// Returns the worker in its next state and the action to perform next.
    /// An event the worker was not waiting for changes nothing and yields no
    /// action.
    ///
    /// A cycle starts when a non-empty account list arrives: a fresh set of
    /// tasks replaces whatever was held. A list that is empty or could not
    /// be loaded is asked for again after a pause. Within a cycle every
    /// attempt checks the task's credential first, stores a fetched page
    /// before the task is settled, and pauses after a page could not be
    /// stored; the task is settled all the same. When the last task is gone
    /// the next cycle starts without delay.
    pub fn step(self, now: i64, event: SyncEvent) -> (next: (IdSynchronizer, Option<SyncAction>))
        ensures
            match sync_step(self@, now, event) {
                Some((state, action)) => next.0@ == state && next.1 == Some(action),
                None => next.0@ == self@ && next.1 is None,
            },
    {
        let IdSynchronizer { queue, phase } = self;
        match phase {
            SyncPhase::AwaitingAccounts => match event {
                SyncEvent::AccountsLoaded(Some(accounts)) => {
                    if accounts.len() > 0 {
                        let (worker, action) = Self::resume(seed_cycle(&accounts, now), now);
                        (worker, Some(action))
                    } else {
                        (
                            IdSynchronizer { queue, phase: SyncPhase::PausedBeforeReload },
                            Some(SyncAction::Sleep(RELOAD_PAUSE_SECS)),
                        )
                    }
                },
                SyncEvent::AccountsLoaded(None) => (
                    IdSynchronizer { queue, phase: SyncPhase::PausedBeforeReload },
                    Some(SyncAction::Sleep(RELOAD_PAUSE_SECS)),
                ),
                _ => (IdSynchronizer { queue, phase: SyncPhase::AwaitingAccounts }, None),
            },
            SyncPhase::PausedBeforeReload => match event {
                SyncEvent::Woke => (
                    IdSynchronizer { queue, phase: SyncPhase::AwaitingAccounts },
                    Some(SyncAction::LoadAccounts),
                ),
                _ => (IdSynchronizer { queue, phase: SyncPhase::PausedBeforeReload }, None),
            },
            SyncPhase::PausedInCycle => match event {
                SyncEvent::Woke => {
                    let (worker, action) = Self::resume(queue, now);
                    (worker, Some(action))
                },
                _ => (IdSynchronizer { queue, phase: SyncPhase::PausedInCycle }, None),
            },
            SyncPhase::AwaitingVerdict(task) => match event {
                SyncEvent::CredentialChecked(valid) => match after_verification(task, valid) {
                    Verified::Fetch(task, request) => {
                        let credential = task.credential.duplicate();
                        (
                            IdSynchronizer { queue, phase: SyncPhase::AwaitingPage(task) },
                            Some(SyncAction::FetchPage(credential, request)),
                        )
                    },
                    Verified::Settle(outcome) => {
                        let mut queue = queue;
                        queue.settle(now, outcome);
                        let (worker, action) = Self::resume(queue, now);
                        (worker, Some(action))
                    },
                },
                _ => (IdSynchronizer { queue, phase: SyncPhase::AwaitingVerdict(task) }, None),
            },
            SyncPhase::AwaitingPage(task) => match event {
                SyncEvent::PageFetched(result) => {
                    let Fetched { persist, outcome } = after_fetch(task, result);
                    match persist {
                        Some(batch) => (
                            IdSynchronizer { queue, phase: SyncPhase::AwaitingPersist(outcome) },
                            Some(SyncAction::Persist(batch)),
                        ),
                        None => {
                            let mut queue = queue;
                            queue.settle(now, outcome);
                            let (worker, action) = Self::resume(queue, now);
                            (worker, Some(action))
                        },
                    }
                },
                _ => (IdSynchronizer { queue, phase: SyncPhase::AwaitingPage(task) }, None),
            },
            SyncPhase::AwaitingPersist(outcome) => match event {
                SyncEvent::Persisted(stored) => {
                    let mut queue = queue;
                    queue.settle(now, outcome);
                    if stored {
                        let (worker, action) = Self::resume(queue, now);
                        (worker, Some(action))
                    } else {
                        (
                            IdSynchronizer { queue, phase: SyncPhase::PausedInCycle },
                            Some(SyncAction::Sleep(STORE_FAILURE_PAUSE_SECS)),
                        )
                    }
                },
                _ => (IdSynchronizer { queue, phase: SyncPhase::AwaitingPersist(outcome) }, None),
            },
        }
    }
}

} // verus!
