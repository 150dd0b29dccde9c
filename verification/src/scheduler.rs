//! The ready-time scheduler: a set of tasks, each gated by the earliest time
//! at which it may run, worked through by one cooperative loop.
//!
//! The scheduler itself never waits and never performs a task. It answers one
//! question, [`Scheduler::poll`]: given the time, what does the loop do next?
//! The caller sleeps or performs the task as told and reports what came of
//! it with [`Scheduler::settle`].

use vstd::prelude::*;

verus! {

/// The length, in seconds, of the pause the loop takes when the earliest task
/// is not ready yet, before it asks again.
pub const POLL_QUANTUM_SECS: u64 = 1;

/// A task together with the earliest time, in seconds since the epoch, at
/// which it may run. Tasks are ordered by that time alone, whatever they
/// carry.
#[derive(Debug, Clone, PartialEq, Eq)]
pub struct ScheduledItem<T> {
    pub ready_at: i64,
    pub payload: T,
}

/// What becomes of a task after one attempt.
#[derive(Debug, Clone, PartialEq, Eq)]
pub enum Outcome<T> {
    /// Keep the task, and do not run it again before the given time.
    RequeueAt(i64, T),
    /// Keep the task; it may run again at once.
    RequeueImmediately(T),
    /// The task is finished or given up; forget it.
    Drop,
}

/// What the loop does next.
#[derive(Debug, Clone, PartialEq, Eq)]
pub enum Poll<T> {
    /// No task is left: the cycle is over.
    Finished,
    /// The earliest task is not ready: pause for the poll quantum and ask
    /// again. Nothing was taken out.
    Wait,
    /// The enclosed task is ready and has been taken out: attempt it, then
    /// settle its outcome.
    Run(ScheduledItem<T>),
}

/// Whether `i` is the position of the task that runs next: the one with the
/// smallest ready time, and among several with that time the one that has
/// waited longest.
pub open spec fn is_earliest<T>(items: Seq<ScheduledItem<T>>, i: int) -> bool {
    &&& 0 <= i < items.len()
    &&& forall|j: int| 0 <= j < items.len() ==> items[i].ready_at <= (#[trigger] items[j]).ready_at
    &&& forall|j: int| 0 <= j < i ==> items[i].ready_at < (#[trigger] items[j]).ready_at
}

/// The position of the task that runs next. Meaningful for a non-empty
/// sequence, where exactly one position qualifies.
pub open spec fn earliest<T>(items: Seq<ScheduledItem<T>>) -> int {
    choose|i: int| is_earliest(items, i)
}

/// What [`Scheduler::poll`] answers for the given tasks at the given time.
pub open spec fn next_step<T>(items: Seq<ScheduledItem<T>>, now: i64) -> Poll<T> {
    if items.len() == 0 {
        Poll::Finished
    } else if now < items[earliest(items)].ready_at {
        Poll::Wait
    } else {
        Poll::Run(items[earliest(items)])
    }
}

/// The tasks still held after [`Scheduler::poll`] has answered.
pub open spec fn after_poll<T>(items: Seq<ScheduledItem<T>>, now: i64) -> Seq<ScheduledItem<T>> {
    if items.len() > 0 && items[earliest(items)].ready_at <= now {
        items.remove(earliest(items))
    } else {
        items
    }
}

/// The tasks held after an outcome reported at time `now` has been applied.
pub open spec fn after_settle<T>(
    items: Seq<ScheduledItem<T>>,
    now: i64,
    outcome: Outcome<T>,
) -> Seq<ScheduledItem<T>> {
    match outcome {
        Outcome::RequeueAt(at, payload) => items.push(ScheduledItem { ready_at: at, payload }),
        Outcome::RequeueImmediately(payload) => items.push(
            ScheduledItem { ready_at: now, payload },
        ),
        Outcome::Drop => items,
    }
}

/// At most one position is the earliest.
pub proof fn lemma_earliest_unique<T>(items: Seq<ScheduledItem<T>>, i: int, j: int)
    requires
        is_earliest(items, i),
        is_earliest(items, j),
    ensures
        i == j,
{
    if i < j {
        assert(items[j].ready_at < items[i].ready_at);
    } else if j < i {
        assert(items[i].ready_at < items[j].ready_at);
    }
}

/// A position known to be the earliest is the one [`earliest`] names.
pub proof fn lemma_earliest_is<T>(items: Seq<ScheduledItem<T>>, i: int)
    requires
        is_earliest(items, i),
    ensures
        earliest(items) == i,
{
    lemma_earliest_unique(items, i, earliest(items));
}

/// A non-empty sequence has an earliest position.
pub proof fn lemma_earliest_exists<T>(items: Seq<ScheduledItem<T>>)
    requires
        items.len() > 0,
    ensures
        is_earliest(items, earliest(items)),
    decreases items.len(),
{
    if items.len() == 1 {
        assert(is_earliest(items, 0));
    } else {
        let front = items.drop_last();
        lemma_earliest_exists(front);
        let i = earliest(front);
        let last = items.len() - 1;
        if items[last].ready_at < front[i].ready_at {
            assert forall|j: int| 0 <= j < items.len() implies items[last].ready_at <= (
            #[trigger] items[j]).ready_at by {
                if j < last {
                    assert(front[i].ready_at <= front[j].ready_at);
                }
            }
            assert forall|j: int| 0 <= j < last implies items[last].ready_at < (
            #[trigger] items[j]).ready_at by {
                assert(front[i].ready_at <= front[j].ready_at);
            }
            assert(is_earliest(items, last));
        } else {
            assert forall|j: int| 0 <= j < items.len() implies items[i].ready_at <= (
            #[trigger] items[j]).ready_at by {
                if j < last {
                    assert(front[i].ready_at <= front[j].ready_at);
                }
            }
            assert forall|j: int| 0 <= j < i implies items[i].ready_at < (
            #[trigger] items[j]).ready_at by {
                assert(front[i].ready_at < front[j].ready_at);
            }
            assert(is_earliest(items, i));
        }
    }
}

/// The same tasks with each payload seen through `f`; the ready times stay.
pub open spec fn relabel<T, U>(items: Seq<ScheduledItem<T>>, f: spec_fn(T) -> U) -> Seq<
    ScheduledItem<U>,
> {
    items.map_values(
        |item: ScheduledItem<T>|
            ScheduledItem { ready_at: item.ready_at, payload: f(item.payload) },
    )
}

/// An answer of the scheduler with its payload seen through `f`.
pub open spec fn relabel_poll<T, U>(poll: Poll<T>, f: spec_fn(T) -> U) -> Poll<U> {
    match poll {
        Poll::Finished => Poll::Finished,
        Poll::Wait => Poll::Wait,
        Poll::Run(item) => Poll::Run(
            ScheduledItem { ready_at: item.ready_at, payload: f(item.payload) },
        ),
    }
}

/// An outcome with its payload seen through `f`.
pub open spec fn relabel_outcome<T, U>(outcome: Outcome<T>, f: spec_fn(T) -> U) -> Outcome<U> {
    match outcome {
        Outcome::RequeueAt(at, payload) => Outcome::RequeueAt(at, f(payload)),
        Outcome::RequeueImmediately(payload) => Outcome::RequeueImmediately(f(payload)),
        Outcome::Drop => Outcome::Drop,
    }
}

/// Which task runs next depends on the ready times alone: seeing the
/// payloads through `f` changes neither the scheduler's answer nor what it
/// keeps.
pub proof fn lemma_poll_relabel<T, U>(items: Seq<ScheduledItem<T>>, f: spec_fn(T) -> U, now: i64)
    ensures
        next_step(relabel(items, f), now) == relabel_poll(next_step(items, now), f),
        after_poll(relabel(items, f), now) == relabel(after_poll(items, now), f),
{
    let seen = relabel(items, f);
    if items.len() > 0 {
        lemma_earliest_exists(items);
        let i = earliest(items);
        assert forall|j: int| 0 <= j < seen.len() implies seen[i].ready_at <= (
        #[trigger] seen[j]).ready_at by {
            assert(items[i].ready_at <= items[j].ready_at);
        }
        assert forall|j: int| 0 <= j < i implies seen[i].ready_at < (
        #[trigger] seen[j]).ready_at by {
            assert(items[i].ready_at < items[j].ready_at);
        }
        lemma_earliest_is(seen, i);
        assert(seen.remove(i) =~= relabel(items.remove(i), f));
    }
}

/// Settling an outcome and seeing the payloads through `f` can be done in
/// either order.
pub proof fn lemma_settle_relabel<T, U>(
    items: Seq<ScheduledItem<T>>,
    f: spec_fn(T) -> U,
    now: i64,
    outcome: Outcome<T>,
)
    ensures
        after_settle(relabel(items, f), now, relabel_outcome(outcome, f)) == relabel(
            after_settle(items, now, outcome),
            f,
        ),
{
    assert(after_settle(relabel(items, f), now, relabel_outcome(outcome, f)) =~= relabel(
        after_settle(items, now, outcome),
        f,
    ));
}

/// One thing that happens to a scheduler: it is polled at a time, or an
/// outcome is settled at a time.
pub enum Operation<T> {
    Poll(i64),
    Settle(i64, Outcome<T>),
}

/// The tasks held after a run of operations, applied in order.
pub open spec fn replay<T>(items: Seq<ScheduledItem<T>>, operations: Seq<Operation<T>>) -> Seq<
    ScheduledItem<T>,
>
    decreases operations.len(),
{
    if operations.len() == 0 {
        items
    } else {
        let before = replay(items, operations.drop_last());
        match operations.last() {
            Operation::Poll(now) => after_poll(before, now),
            Operation::Settle(now, outcome) => after_settle(before, now, outcome),
        }
    }
}

/// A task is never handed over before its ready time: whatever a poll hands
/// over was due at the time of the poll.
pub proof fn law_never_early<T>(items: Seq<ScheduledItem<T>>, now: i64)
    ensures
        next_step(items, now) matches Poll::Run(item) ==> item.ready_at <= now,
{
}

/// A poll takes out at most the one task it hands over, and every other
/// task stays, in order.
pub proof fn law_poll_takes_what_it_runs<T>(items: Seq<ScheduledItem<T>>, now: i64)
    ensures
        match next_step(items, now) {
            Poll::Run(item) => items.len() > 0 && is_earliest(items, earliest(items)) && item
                == items[earliest(items)] && after_poll(items, now) == items.remove(
                earliest(items),
            ),
            _ => after_poll(items, now) == items,
        },
{
    if items.len() > 0 {
        lemma_earliest_exists(items);
    }
}

/// A task is held until its ready time. However a scheduler is polled and
/// settled, as long as every poll comes before the ready time of a task,
/// the task is still held afterwards: the scheduler holds at least as many
/// copies of it as before.
pub proof fn law_held_until_ready<T>(
    items: Seq<ScheduledItem<T>>,
    operations: Seq<Operation<T>>,
    task: ScheduledItem<T>,
)
    requires
        forall|k: int|
            0 <= k < operations.len() ==> ((#[trigger] operations[k]) matches Operation::Poll(now)
                ==> now < task.ready_at),
    ensures
        replay(items, operations).to_multiset().count(task) >= items.to_multiset().count(task),
    decreases operations.len(),
{
    broadcast use vstd::multiset::group_multiset_axioms;

    if operations.len() > 0 {
        let earlier = operations.drop_last();
        assert forall|k: int| 0 <= k < earlier.len() implies (
        (#[trigger] earlier[k]) matches Operation::Poll(now) ==> now < task.ready_at) by {
            assert(earlier[k] == operations[k]);
        }
        law_held_until_ready(items, earlier, task);
        let before = replay(items, earlier);
        match operations.last() {
            Operation::Poll(now) => {
                assert(now < task.ready_at);
                if before.len() > 0 && before[earliest(before)].ready_at <= now {
                    lemma_earliest_exists(before);
                    vstd::seq_lib::to_multiset_remove(before, earliest(before));
                }
            },
            Operation::Settle(now, outcome) => {
                match outcome {
                    Outcome::RequeueAt(at, payload) => {
                        vstd::seq_lib::to_multiset_build(
                            before,
                            ScheduledItem { ready_at: at, payload },
                        );
                    },
                    Outcome::RequeueImmediately(payload) => {
                        vstd::seq_lib::to_multiset_build(
                            before,
                            ScheduledItem { ready_at: now, payload },
                        );
                    },
                    Outcome::Drop => {},
                }
            },
        }
    }
}

/// The set of tasks awaiting their turn, in the order they were submitted.
pub struct Scheduler<T> {
    items: Vec<ScheduledItem<T>>,
}

impl<T> View for Scheduler<T> {
    type V = Seq<ScheduledItem<T>>;

    closed spec fn view(&self) -> Seq<ScheduledItem<T>> {
        self.items@
    }
}

impl<T> Scheduler<T> {
    /// A scheduler that holds no task.
    pub fn new() -> (s: Self)
        ensures
            s@ == Seq::<ScheduledItem<T>>::empty(),
    {
        Scheduler { items: Vec::new() }
    }

    /// The number of tasks held.
    pub fn len(&self) -> (n: usize)
        ensures
            n == self@.len(),
    {
        self.items.len()
    }

    /// Whether no task is held.
    pub fn is_empty(&self) -> (b: bool)
        ensures
            b == (self@.len() == 0),
    {
        self.items.len() == 0
    }

    /// Adds a task. Always succeeds.
    pub fn submit(&mut self, item: ScheduledItem<T>)
        ensures
            final(self)@ == old(self)@.push(item),
    {
        self.items.push(item);
    }

    /// The position of the task that runs next.
    fn earliest_position(&self) -> (at: usize)
        requires
            self@.len() > 0,
        ensures
            is_earliest(self@, at as int),
    {
        let mut best: usize = 0;
        let mut i: usize = 1;
        while i < self.items.len()
            invariant
                1 <= i <= self.items.len(),
                is_earliest(self.items@.subrange(0, i as int), best as int),
            decreases self.items.len() - i,
        {
            let ghost before = self.items@.subrange(0, i as int);
            let ghost after = self.items@.subrange(0, i + 1);
            if self.items[i].ready_at < self.items[best].ready_at {
                assert forall|j: int| 0 <= j < i implies after[i as int].ready_at < (
                #[trigger] after[j]).ready_at by {
                    assert(before[best as int].ready_at <= before[j].ready_at);
                }
                best = i;
            } else {
                assert forall|j: int| 0 <= j < after.len() implies after[best as int].ready_at <= (
                #[trigger] after[j]).ready_at by {
                    if j < i {
                        assert(before[best as int].ready_at <= before[j].ready_at);
                    }
                }
                assert forall|j: int| 0 <= j < best implies after[best as int].ready_at < (
                #[trigger] after[j]).ready_at by {
                    assert(before[best as int].ready_at < before[j].ready_at);
                }
            }
            i += 1;
        }
        assert(self.items@.subrange(0, i as int) == self.items@);
        best
    }

    /// Says what the loop does next at time `now`.
    ///
    /// With no task left the cycle is finished. Otherwise the task with the
    /// smallest ready time is looked at (among equals, the one submitted
    /// first): if its time has not come nothing changes and the loop is told
    /// to wait; if it has, the task is taken out and handed over to be run.
    /// So no task is ever handed over before its ready time.
    pub fn poll(&mut self, now: i64) -> (next: Poll<T>)
        ensures
            next == next_step(old(self)@, now),
            final(self)@ == after_poll(old(self)@, now),
            next matches Poll::Run(item) ==> item.ready_at <= now,
    {
        if self.items.len() == 0 {
            return Poll::Finished;
        }
        let at = self.earliest_position();
        proof {
            lemma_earliest_is(self@, at as int);
        }
        if now < self.items[at].ready_at {
            Poll::Wait
        } else {
            Poll::Run(self.items.remove(at))
        }
    }

    /// Applies the outcome of the attempt that just ended, at time `now`:
    /// the task goes back with the ready time the outcome names (`now` for
    /// an immediate requeue), or is forgotten.
    pub fn settle(&mut self, now: i64, outcome: Outcome<T>)
        ensures
            final(self)@ == after_settle(old(self)@, now, outcome),
    {
        match outcome {
            Outcome::RequeueAt(at, payload) => {
                self.items.push(ScheduledItem { ready_at: at, payload });
            },
            Outcome::RequeueImmediately(payload) => {
                self.items.push(ScheduledItem { ready_at: now, payload });
            },
            Outcome::Drop => {},
        }
    }
}

} // verus!
