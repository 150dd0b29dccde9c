//! The driver of the follow-back worker, as a state machine.
//!
//! One round of the worker prepares a follow task for every account, from
//! the stored relationships and one lookup, then works the tasks off through
//! the scheduler, then rests before the next round. Like the
//! id-synchronisation worker it only decides: [`FollowBackWorker::step`]
//! takes what the outside world answered and returns what to ask of it next.

use crate::account::{credential_of, Credential, Relationship, User};
use crate::follow_back::{
    after_follow, ascending, candidates, follow_queue, is_sample, next_peer, outcome_of_follow,
    peer_ids, queue_of, sample_batch, task_view, to_peer_ids, unreciprocated, FollowResult,
    FollowTask, FollowTaskView, PeerStatus, FOLLOW_COOLDOWN_SECS, LOOKUP_LIMIT,
};
use crate::scheduler::{
    after_poll, after_settle, earliest, lemma_earliest_exists, lemma_poll_relabel,
    lemma_settle_relabel, next_step, relabel, Poll, ScheduledItem, Scheduler, POLL_QUANTUM_SECS,
};
use crate::sync_worker::RELOAD_PAUSE_SECS;
use vstd::prelude::*;

verus! {

/// The rest, in seconds, between two rounds.
pub const ROUND_PAUSE_SECS: u64 = 300;

/// What the worker is waiting for.
#[derive(Debug, Clone, PartialEq, Eq)]
pub enum FollowPhase {
    /// The account list has been asked for.
    AwaitingAccounts,
    /// Pausing before the account list is asked for again.
    PausedBeforeReload,
    /// The stored relationships of the account at `next` have been asked
    /// for.
    AwaitingRelationships { accounts: Vec<User>, next: usize },
    /// A lookup has been asked for on behalf of the account at `next`.
    AwaitingLookup { accounts: Vec<User>, next: usize },
    /// Pausing while the tasks are worked off.
    PausedInCycle,
    /// A follow action has been asked for on behalf of the enclosed task.
    AwaitingFollow(FollowTask),
}

/// What the outside world answered.
#[derive(Debug, Clone, PartialEq, Eq)]
pub enum FollowEvent {
    /// A pause has ended.
    Woke,
    /// The account list, or `None` if the store failed.
    AccountsLoaded(Option<Vec<User>>),
    /// The stored followers and friends of an account, in that order, or
    /// `None` if the store failed.
    RelationshipsLoaded(Option<(Vec<Relationship>, Vec<Relationship>)>),
    /// What the lookup reported, or `None` if it failed.
    LookedUp(Option<Vec<PeerStatus>>),
    /// The remote's answer to a follow action.
    FollowAnswered(FollowResult),
}

/// What the worker asks of the outside world next.
#[derive(Debug, Clone, PartialEq, Eq)]
pub enum FollowAction {
    /// Load the account list.
    LoadAccounts,
    /// Pause for this many seconds.
    Sleep(u64),
    /// Load the stored followers and friends of this account.
    LoadRelationships(i64),
    /// Look up the relationship to these peers with this credential.
    Lookup(Credential, Vec<u64>),
    /// Follow this peer with this credential.
    Follow(Credential, u64),
}

/// What the worker is waiting for, as the contracts see it.
pub enum FollowPhaseView {
    AwaitingAccounts,
    PausedBeforeReload,
    AwaitingRelationships { accounts: Seq<User>, next: int },
    AwaitingLookup { accounts: Seq<User>, next: int },
    PausedInCycle,
    AwaitingFollow(FollowTaskView),
}

impl View for FollowPhase {
    type V = FollowPhaseView;

    open spec fn view(&self) -> FollowPhaseView {
        match *self {
            FollowPhase::AwaitingAccounts => FollowPhaseView::AwaitingAccounts,
            FollowPhase::PausedBeforeReload => FollowPhaseView::PausedBeforeReload,
            FollowPhase::AwaitingRelationships { accounts, next } => {
                FollowPhaseView::AwaitingRelationships { accounts: accounts@, next: next as int }
            },
            FollowPhase::AwaitingLookup { accounts, next } => FollowPhaseView::AwaitingLookup {
                accounts: accounts@,
                next: next as int,
            },
            FollowPhase::PausedInCycle => FollowPhaseView::PausedInCycle,
            FollowPhase::AwaitingFollow(task) => FollowPhaseView::AwaitingFollow(task@),
        }
    }
}

/// The state of the worker as the contracts see it: the tasks awaiting
/// their turn, and what the worker is waiting for.
pub struct FollowState {
    pub queue: Seq<ScheduledItem<FollowTaskView>>,
    pub phase: FollowPhaseView,
}

/// Works the tasks off at time `now`. A task that comes up with its queue
/// empty is dropped and the next one looked at. With no task left the round
/// is over and the worker rests; with the earliest task not ready it pauses
/// for the poll quantum; otherwise the earliest task is taken out and its
/// next peer followed.
pub open spec fn resume(queue: Seq<ScheduledItem<FollowTaskView>>, now: i64) -> (
    FollowState,
    FollowAction,
)
    decreases queue.len(),
{
    match next_step(queue, now) {
        Poll::Finished => (
            FollowState { queue, phase: FollowPhaseView::PausedBeforeReload },
            FollowAction::Sleep(ROUND_PAUSE_SECS),
        ),
        Poll::Wait => (
            FollowState { queue, phase: FollowPhaseView::PausedInCycle },
            FollowAction::Sleep(POLL_QUANTUM_SECS),
        ),
        Poll::Run(item) => match next_peer(item.payload) {
            Some(peer) => (
                FollowState {
                    queue: after_poll(queue, now),
                    phase: FollowPhaseView::AwaitingFollow(item.payload),
                },
                FollowAction::Follow(item.payload.credential, peer),
            ),
            None => {
                proof {
                    lemma_earliest_exists(queue);
                }
                resume(after_poll(queue, now), now)
            },
        },
    }
}

/// Goes on preparing tasks, at the account at `next`: its stored
/// relationships are asked for, or, when every account has been seen to,
/// the tasks are worked off.
pub open spec fn prepare(
    accounts: Seq<User>,
    next: int,
    queue: Seq<ScheduledItem<FollowTaskView>>,
    now: i64,
) -> (FollowState, FollowAction) {
    if 0 <= next < accounts.len() {
        (
            FollowState { queue, phase: FollowPhaseView::AwaitingRelationships { accounts, next } },
            FollowAction::LoadRelationships(accounts[next].id),
        )
    } else {
        resume(queue, now)
    }
}

/// Whether `batch` may be looked up for an account with these stored
/// followers and friends: it is a sample, within the lookup limit, of the
/// followers that are not friends.
pub open spec fn is_lookup_batch(
    batch: Seq<u64>,
    followers: Seq<Relationship>,
    friends: Seq<Relationship>,
) -> bool {
    exists|ids: Seq<i64>|
        {
            &&& ascending(ids)
            &&& ids.to_set() == unreciprocated(followers, friends)
            &&& #[trigger] is_sample(batch, peer_ids(ids))
        }
}

/// Whether the state is one the worker can be in: while an account is being
/// prepared, `next` names one of the accounts.
pub open spec fn well_formed(state: FollowState) -> bool {
    match state.phase {
        FollowPhaseView::AwaitingRelationships { accounts, next } => 0 <= next < accounts.len(),
        FollowPhaseView::AwaitingLookup { accounts, next } => 0 <= next < accounts.len(),
        _ => true,
    }
}

/// The transition of the worker: whether `post` and `action` may follow
/// when `event` arrives at time `now` in state `pre`. An event the worker
/// was not waiting for leaves the state as it is and yields no action.
///
/// Everything is determined but the batch of a lookup, which is drawn at
/// random.
pub open spec fn follow_transition(
    pre: FollowState,
    now: i64,
    event: FollowEvent,
    post: FollowState,
    action: Option<FollowAction>,
) -> bool {
    match (pre.phase, event) {
        (FollowPhaseView::AwaitingAccounts, FollowEvent::AccountsLoaded(Some(accounts))) => {
            let next = prepare(accounts@, 0, Seq::empty(), now);
            post == next.0 && action == Some(next.1)
        },
        (FollowPhaseView::AwaitingAccounts, FollowEvent::AccountsLoaded(None)) => {
            &&& post == FollowState { queue: pre.queue, phase: FollowPhaseView::PausedBeforeReload }
            &&& action == Some(FollowAction::Sleep(RELOAD_PAUSE_SECS))
        },
        (FollowPhaseView::PausedBeforeReload, FollowEvent::Woke) => {
            &&& post == FollowState { queue: pre.queue, phase: FollowPhaseView::AwaitingAccounts }
            &&& action == Some(FollowAction::LoadAccounts)
        },
        (
            FollowPhaseView::AwaitingRelationships { accounts, next },
            FollowEvent::RelationshipsLoaded(Some(lists)),
        ) => {
            &&& post == FollowState {
                queue: pre.queue,
                phase: FollowPhaseView::AwaitingLookup { accounts, next },
            }
            &&& action matches Some(FollowAction::Lookup(credential, batch))
            &&& credential == credential_of(accounts[next])
            &&& is_lookup_batch(batch@, lists.0@, lists.1@)
        },
        (
            FollowPhaseView::AwaitingRelationships { accounts, next },
            FollowEvent::RelationshipsLoaded(None),
        ) => {
            let next = prepare(accounts, next + 1, pre.queue, now);
            post == next.0 && action == Some(next.1)
        },
        (
            FollowPhaseView::AwaitingLookup { accounts, next },
            FollowEvent::LookedUp(Some(statuses)),
        ) => {
            let task = FollowTaskView {
                credential: credential_of(accounts[next]),
                queue: queue_of(statuses@),
            };
            let next = prepare(
                accounts,
                next + 1,
                pre.queue.push(ScheduledItem { ready_at: now, payload: task }),
                now,
            );
            post == next.0 && action == Some(next.1)
        },
        (FollowPhaseView::AwaitingLookup { accounts, next }, FollowEvent::LookedUp(None)) => {
            let next = prepare(accounts, next + 1, pre.queue, now);
            post == next.0 && action == Some(next.1)
        },
        (FollowPhaseView::PausedInCycle, FollowEvent::Woke) => {
            let next = resume(pre.queue, now);
            post == next.0 && action == Some(next.1)
        },
        (FollowPhaseView::AwaitingFollow(task), FollowEvent::FollowAnswered(result)) => {
            let next = resume(
                after_settle(pre.queue, now, outcome_of_follow(task, now, result)),
                now,
            );
            post == next.0 && action == Some(next.1)
        },
        _ => post == pre && action is None,
    }
}

/// Whether no task is held between rounds: while the account list is
/// awaited, or the worker rests before asking for it again, the scheduler is
/// empty.
pub open spec fn idle_between_rounds(state: FollowState) -> bool {
    (state.phase is AwaitingAccounts || state.phase is PausedBeforeReload) ==> state.queue.len()
        == 0
}

/// A follow action is attempted only for a task that is due: whenever
/// working the tasks off leads to a follow action, some task was held with
/// a ready time that has come, the action is made with that task's
/// credential on that task's next peer, and that task is the one awaited.
/// Working the tasks off leads to nothing but a follow action or a pause.
pub proof fn law_follows_are_due(queue: Seq<ScheduledItem<FollowTaskView>>, now: i64)
    ensures
        resume(queue, now).1 matches FollowAction::Follow(credential, peer) ==> exists|i: int|
            {
                &&& 0 <= i < queue.len()
                &&& (#[trigger] queue[i]).ready_at <= now
                &&& queue[i].payload.credential == credential
                &&& next_peer(queue[i].payload) == Some(peer)
                &&& resume(queue, now).0.phase == FollowPhaseView::AwaitingFollow(queue[i].payload)
            },
        resume(queue, now).1 is Follow || resume(queue, now).1 is Sleep,
        well_formed(resume(queue, now).0),
        idle_between_rounds(resume(queue, now).0),
    decreases queue.len(),
{
    if let Poll::Run(item) = next_step(queue, now) {
        lemma_earliest_exists(queue);
        let at = earliest(queue);
        if next_peer(item.payload) is None {
            let rest = after_poll(queue, now);
            law_follows_are_due(rest, now);
            if let FollowAction::Follow(credential, peer) = resume(rest, now).1 {
                let i = choose|i: int|
                    {
                        &&& 0 <= i < rest.len()
                        &&& (#[trigger] rest[i]).ready_at <= now
                        &&& rest[i].payload.credential == credential
                        &&& next_peer(rest[i].payload) == Some(peer)
                        &&& resume(rest, now).0.phase == FollowPhaseView::AwaitingFollow(
                            rest[i].payload,
                        )
                    };
                let j = if i < at {
                    i
                } else {
                    i + 1
                };
                assert(queue[j] == rest[i]);
            }
        } else {
            assert(queue[at].ready_at <= now);
        }
    }
}

/// A lookup never asks for more peers than the limit allows. Whatever the
/// state and the event, if the worker answers with a lookup, then it was
/// waiting for an account's stored relationships, they have just arrived,
/// and the batch is a sample of that account's candidates within the limit.
pub proof fn law_lookups_are_within_limit(
    pre: FollowState,
    now: i64,
    event: FollowEvent,
    post: FollowState,
    credential: Credential,
    batch: Vec<u64>,
)
    requires
        follow_transition(pre, now, event, post, Some(FollowAction::Lookup(credential, batch))),
    ensures
        batch@.len() <= LOOKUP_LIMIT,
        pre.phase matches FollowPhaseView::AwaitingRelationships { accounts, next } && event
            matches FollowEvent::RelationshipsLoaded(Some(lists)) && credential == credential_of(
            accounts[next],
        ) && is_lookup_batch(batch@, lists.0@, lists.1@),
{
    match (pre.phase, event) {
        (FollowPhaseView::AwaitingAccounts, FollowEvent::AccountsLoaded(Some(accounts))) => {
            law_follows_are_due(Seq::empty(), now);
        },
        (
            FollowPhaseView::AwaitingRelationships { accounts, next },
            FollowEvent::RelationshipsLoaded(None),
        ) => {
            law_follows_are_due(pre.queue, now);
        },
        (
            FollowPhaseView::AwaitingLookup { accounts, next },
            FollowEvent::LookedUp(Some(statuses)),
        ) => {
            let task = FollowTaskView {
                credential: credential_of(accounts[next]),
                queue: queue_of(statuses@),
            };
            law_follows_are_due(
                pre.queue.push(ScheduledItem { ready_at: now, payload: task }),
                now,
            );
        },
        (FollowPhaseView::AwaitingLookup { accounts, next }, FollowEvent::LookedUp(None)) => {
            law_follows_are_due(pre.queue, now);
        },
        (FollowPhaseView::PausedInCycle, FollowEvent::Woke) => {
            law_follows_are_due(pre.queue, now);
        },
        (FollowPhaseView::AwaitingFollow(task), FollowEvent::FollowAnswered(result)) => {
            law_follows_are_due(
                after_settle(pre.queue, now, outcome_of_follow(task, now, result)),
                now,
            );
        },
        _ => {},
    }
}

/// A round ends only when its last task is gone, so a new round never
/// discards a task: a worker that holds no task between rounds still holds
/// none between rounds after any step.
pub proof fn law_rounds_run_to_the_end(
    pre: FollowState,
    now: i64,
    event: FollowEvent,
    post: FollowState,
    action: Option<FollowAction>,
)
    requires
        idle_between_rounds(pre),
        follow_transition(pre, now, event, post, action),
    ensures
        idle_between_rounds(post),
{
    match (pre.phase, event) {
        (FollowPhaseView::AwaitingAccounts, FollowEvent::AccountsLoaded(Some(accounts))) => {
            law_follows_are_due(Seq::empty(), now);
        },
        (
            FollowPhaseView::AwaitingRelationships { accounts, next },
            FollowEvent::RelationshipsLoaded(None),
        ) => {
            law_follows_are_due(pre.queue, now);
        },
        (
            FollowPhaseView::AwaitingLookup { accounts, next },
            FollowEvent::LookedUp(Some(statuses)),
        ) => {
            let task = FollowTaskView {
                credential: credential_of(accounts[next]),
                queue: queue_of(statuses@),
            };
            law_follows_are_due(
                pre.queue.push(ScheduledItem { ready_at: now, payload: task }),
                now,
            );
        },
        (FollowPhaseView::AwaitingLookup { accounts, next }, FollowEvent::LookedUp(None)) => {
            law_follows_are_due(pre.queue, now);
        },
        (FollowPhaseView::PausedInCycle, FollowEvent::Woke) => {
            law_follows_are_due(pre.queue, now);
        },
        (FollowPhaseView::AwaitingFollow(task), FollowEvent::FollowAnswered(result)) => {
            law_follows_are_due(
                after_settle(pre.queue, now, outcome_of_follow(task, now, result)),
                now,
            );
        },
        _ => {},
    }
}

/// The follow-back worker: the tasks of the running round, and what the
/// worker is waiting for.
pub struct FollowBackWorker {
    queue: Scheduler<FollowTask>,
    phase: FollowPhase,
}

impl View for FollowBackWorker {
    type V = FollowState;

    closed spec fn view(&self) -> FollowState {
        FollowState { queue: relabel(self.queue@, task_view()), phase: self.phase@ }
    }
}

impl FollowBackWorker {
    #[verifier::type_invariant]
    spec fn inv(self) -> bool {
        well_formed(self@)
    }

    /// A worker about to start its first round, and the first thing it asks
    /// for: the account list.
    pub fn new() -> (start: (FollowBackWorker, FollowAction))
        ensures
            start.0@ == (FollowState {
                queue: Seq::<ScheduledItem<FollowTaskView>>::empty(),
                phase: FollowPhaseView::AwaitingAccounts,
            }),
            start.1 == FollowAction::LoadAccounts,
            well_formed(start.0@),
    {
        let worker = FollowBackWorker {
            queue: Scheduler::new(),
            phase: FollowPhase::AwaitingAccounts,
        };
        assert(worker@.queue =~= Seq::<ScheduledItem<FollowTaskView>>::empty());
        (worker, FollowAction::LoadAccounts)
    }

    /// What the worker is waiting for.
    pub fn phase(&self) -> (phase: &FollowPhase)
        ensures
            phase@ == self@.phase,
    {
        &self.phase
    }

    /// The number of tasks awaiting their turn.
    pub fn pending(&self) -> (n: usize)
        ensures
            n == self@.queue.len(),
    {
        self.queue.len()
    }

    /// Works the tasks off at time `now`.
    fn resume(tasks: Scheduler<FollowTask>, now: i64) -> (next: (FollowBackWorker, FollowAction))
        ensures
            (next.0@, next.1) == resume(relabel(tasks@, task_view()), now),
    {
        let mut queue = tasks;
        loop
            invariant
                resume(relabel(queue@, task_view()), now) == resume(
                    relabel(tasks@, task_view()),
                    now,
                ),
            decreases queue@.len(),
        {
            let ghost before = queue@;
            proof {
                lemma_poll_relabel(before, task_view(), now);
                if before.len() > 0 {
                    lemma_earliest_exists(before);
                }
            }
            match queue.poll(now) {
                Poll::Finished => {
                    return (
                        FollowBackWorker { queue, phase: FollowPhase::PausedBeforeReload },
                        FollowAction::Sleep(ROUND_PAUSE_SECS),
                    );
                },
                Poll::Wait => {
                    return (
                        FollowBackWorker { queue, phase: FollowPhase::PausedInCycle },
                        FollowAction::Sleep(POLL_QUANTUM_SECS),
                    );
                },
                Poll::Run(item) => {
                    match item.payload.next_peer() {
                        Some(peer) => {
                            let credential = item.payload.credential.duplicate();
                            return (
                                FollowBackWorker {
                                    queue,
                                    phase: FollowPhase::AwaitingFollow(item.payload),
                                },
                                FollowAction::Follow(credential, peer),
                            );
                        },
                        None => {},
                    }
                },
            }
        }
    }

    /// Goes on preparing tasks, at the account at `next`.
    fn prepare(accounts: Vec<User>, next: usize, queue: Scheduler<FollowTask>, now: i64) -> (result:
        (FollowBackWorker, FollowAction))
        requires
            next <= accounts.len(),
        ensures
            (result.0@, result.1) == prepare(
                accounts@,
                next as int,
                relabel(queue@, task_view()),
                now,
            ),
    {
        if next < accounts.len() {
            let id = accounts[next].id;
            (
                FollowBackWorker {
                    queue,
                    phase: FollowPhase::AwaitingRelationships { accounts, next },
                },
                FollowAction::LoadRelationships(id),
            )
        } else {
            Self::resume(queue, now)
        }
    }

    /// Moves the worker on: `event` is what the outside world answered to
    /// the last action, `now` the time at which it did. The time must leave
    /// room for the cooldown to be added to it.
    ///
    /// Returns the worker in its next state and the action to perform next.
    /// An event the worker was not waiting for changes nothing and yields no
    /// action.
    ///
    /// A round starts when the account list arrives. For each account in
    /// turn the stored relationships are loaded, a batch of candidates is
    /// drawn from them and looked up, and the peers the lookup confirms
    /// become the account's task, ready at once; an account whose
    /// relationships or lookup fail gets no task this round. The tasks are
    /// then worked off, one follow action at a time, and when none is left
    /// the worker rests before the next round.
    pub fn step(self, now: i64, event: FollowEvent) -> (next: (
        FollowBackWorker,
        Option<FollowAction>,
    ))
        requires
            now + FOLLOW_COOLDOWN_SECS <= i64::MAX,
        ensures
            follow_transition(self@, now, event, next.0@, next.1),
            well_formed(next.0@),
    {
        proof {
            use_type_invariant(&self);
            assert(well_formed(self@));
        }
        let FollowBackWorker { queue, phase } = self;
        let next = match phase {
            FollowPhase::AwaitingAccounts => match event {
                FollowEvent::AccountsLoaded(Some(accounts)) => {
                    let fresh: Scheduler<FollowTask> = Scheduler::new();
                    assert(relabel(fresh@, task_view()) =~= Seq::<
                        ScheduledItem<FollowTaskView>,
                    >::empty());
                    let (worker, action) = Self::prepare(accounts, 0, fresh, now);
                    (worker, Some(action))
                },
                FollowEvent::AccountsLoaded(None) => (
                    FollowBackWorker { queue, phase: FollowPhase::PausedBeforeReload },
                    Some(FollowAction::Sleep(RELOAD_PAUSE_SECS)),
                ),
                _ => (FollowBackWorker { queue, phase: FollowPhase::AwaitingAccounts }, None),
            },
            FollowPhase::PausedBeforeReload => match event {
                FollowEvent::Woke => (
                    FollowBackWorker { queue, phase: FollowPhase::AwaitingAccounts },
                    Some(FollowAction::LoadAccounts),
                ),
                _ => (FollowBackWorker { queue, phase: FollowPhase::PausedBeforeReload }, None),
            },
            FollowPhase::AwaitingRelationships { accounts, next } => match event {
                FollowEvent::RelationshipsLoaded(Some(lists)) => {
                    let ids = candidates(&lists.0, &lists.1);
                    let batch = sample_batch(to_peer_ids(&ids));
                    let credential = accounts[next].credential();
                    assert(is_sample(batch@, peer_ids(ids@)));
                    (
                        FollowBackWorker {
                            queue,
                            phase: FollowPhase::AwaitingLookup { accounts, next },
                        },
                        Some(FollowAction::Lookup(credential, batch)),
                    )
                },
                FollowEvent::RelationshipsLoaded(None) => {
                    assert(next < accounts.len());
                    let (worker, action) = Self::prepare(accounts, next + 1, queue, now);
                    (worker, Some(action))
                },
                _ => (
                    FollowBackWorker {
                        queue,
                        phase: FollowPhase::AwaitingRelationships { accounts, next },
                    },
                    None,
                ),
            },
            FollowPhase::AwaitingLookup { accounts, next } => match event {
                FollowEvent::LookedUp(Some(statuses)) => {
                    let task = FollowTask {
                        credential: accounts[next].credential(),
                        queue: follow_queue(&statuses),
                    };
                    let mut queue = queue;
                    let ghost before = queue@;
                    queue.submit(ScheduledItem { ready_at: now, payload: task });
                    assert(relabel(queue@, task_view()) =~= relabel(before, task_view()).push(
                        ScheduledItem { ready_at: now, payload: task@ },
                    ));
                    assert(next < accounts.len());
                    let (worker, action) = Self::prepare(accounts, next + 1, queue, now);
                    (worker, Some(action))
                },
                FollowEvent::LookedUp(None) => {
                    assert(next < accounts.len());
                    let (worker, action) = Self::prepare(accounts, next + 1, queue, now);
                    (worker, Some(action))
                },
                _ => (
                    FollowBackWorker {
                        queue,
                        phase: FollowPhase::AwaitingLookup { accounts, next },
                    },
                    None,
                ),
            },
            FollowPhase::PausedInCycle => match event {
                FollowEvent::Woke => {
                    let (worker, action) = Self::resume(queue, now);
                    (worker, Some(action))
                },
                _ => (FollowBackWorker { queue, phase: FollowPhase::PausedInCycle }, None),
            },
            FollowPhase::AwaitingFollow(task) => match event {
                FollowEvent::FollowAnswered(result) => {
                    let ghost before = queue@;
                    let outcome = after_follow(task, now, result);
                    let mut queue = queue;
                    proof {
                        lemma_settle_relabel(before, task_view(), now, outcome);
                    }
                    queue.settle(now, outcome);
                    let (worker, action) = Self::resume(queue, now);
                    (worker, Some(action))
                },
                _ => (FollowBackWorker { queue, phase: FollowPhase::AwaitingFollow(task) }, None),
            },
        };
        proof {
            use_type_invariant(&next.0);
        }
        next
    }
}

} // verus!
