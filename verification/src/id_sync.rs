//! The id-synchronisation policy: page through the follower ids and the
//! friend ids of every account until the remote reports the listing
//! exhausted, pacing each listing by the remote's own rate-limit feedback.

use crate::account::{credential_of, Credential, User};
use crate::bits::{signed, to_signed, to_unsigned, unsigned};
use crate::scheduler::{
    after_settle, law_held_until_ready, replay, Operation, Outcome, ScheduledItem, Scheduler,
};
use vstd::prelude::*;

verus! {

/// The number of ids asked for in one page.
pub const PAGE_SIZE: i32 = 5000;

/// The cursor that asks for the first page of a listing.
pub const START_CURSOR: i64 = -1;

/// The cursor the remote returns with the last page of a listing.
pub const END_CURSOR: i64 = 0;

/// Which of an account's two listings a task pages through.
#[derive(Debug, Clone, Copy, PartialEq, Eq, Structural)]
pub enum ResourceKind {
    Followers,
    Friends,
}

/// The paging state of one listing of one account.
#[derive(Debug, Clone, PartialEq, Eq)]
pub struct SyncTask {
    pub account: i64,
    pub credential: Credential,
    pub kind: ResourceKind,
    pub cursor: i64,
}

/// What is asked of the remote for one page.
#[derive(Debug, Clone, PartialEq, Eq)]
pub struct PageRequest {
    pub account: u64,
    pub kind: ResourceKind,
    pub cursor: i64,
    pub page_size: i32,
}

/// What the remote answered to a page request.
#[derive(Debug, Clone, PartialEq, Eq)]
pub enum FetchResult {
    /// A page of ids, in the form in which they are stored, and the cursor
    /// of the page after it.
    Page { ids: Vec<i64>, next_cursor: i64 },
    /// The rate limit is reached; the enclosed time, in seconds since the
    /// epoch, is when the next window opens.
    RateLimited(i64),
    /// Any other failure.
    Failed,
}

/// A page of ids to be upserted for one listing of one account.
#[derive(Debug, Clone, PartialEq, Eq)]
pub struct Batch {
    pub account: i64,
    pub kind: ResourceKind,
    pub ids: Vec<i64>,
}

/// What follows the check of a task's credential.
#[derive(Debug, Clone, PartialEq, Eq)]
pub enum Verified {
    /// The credential holds: fetch this page for the task.
    Fetch(SyncTask, PageRequest),
    /// The credential was refused: settle the task with this outcome.
    Settle(Outcome<SyncTask>),
}

/// What follows the answer to a page request: the ids to store, if any, and
/// what becomes of the task.
#[derive(Debug, Clone, PartialEq, Eq)]
pub struct Fetched {
    pub persist: Option<Batch>,
    pub outcome: Outcome<SyncTask>,
}

/// The task that starts a listing of the given kind for an account: its
/// cursor asks for the first page.
pub open spec fn initial_task(account: User, kind: ResourceKind) -> SyncTask {
    SyncTask {
        account: account.id,
        credential: credential_of(account),
        kind,
        cursor: START_CURSOR,
    }
}

/// The tasks a cycle starts with: for every account, in order, its
/// followers listing and then its friends listing, all ready at `now`.
pub open spec fn seeded(accounts: Seq<User>, now: i64) -> Seq<ScheduledItem<SyncTask>> {
    Seq::new(
        2 * accounts.len(),
        |k: int|
            ScheduledItem {
                ready_at: now,
                payload: initial_task(
                    accounts[k / 2],
                    if k % 2 == 0 {
                        ResourceKind::Followers
                    } else {
                        ResourceKind::Friends
                    },
                ),
            },
    )
}

/// The request a task makes next.
pub open spec fn request_of(task: SyncTask) -> PageRequest {
    PageRequest {
        account: unsigned(task.account),
        kind: task.kind,
        cursor: task.cursor,
        page_size: PAGE_SIZE,
    }
}

/// The ids of a page as they are stored: each one kept bit for bit in a
/// signed field.
pub open spec fn stored_ids(ids: Seq<u64>) -> Seq<i64> {
    Seq::new(ids.len(), |i: int| signed(ids[i]))
}

/// The ids to store once the remote has answered a task's page request:
/// those of the page, for the task's account and listing, and none unless a
/// page came.
pub open spec fn batch_of_fetch(task: SyncTask, result: FetchResult) -> Option<Batch> {
    match result {
        FetchResult::Page { ids, next_cursor } => Some(
            Batch { account: task.account, kind: task.kind, ids },
        ),
        _ => None,
    }
}

/// What becomes of a task once the remote has answered its page request.
pub open spec fn outcome_of_fetch(task: SyncTask, result: FetchResult) -> Outcome<SyncTask> {
    match result {
        FetchResult::Page { ids, next_cursor } => if next_cursor != END_CURSOR {
            Outcome::RequeueImmediately(SyncTask { cursor: next_cursor, ..task })
        } else {
            Outcome::Drop
        },
        FetchResult::RateLimited(reset) => Outcome::RequeueAt(reset, task),
        FetchResult::Failed => Outcome::Drop,
    }
}

impl SyncTask {
    /// The task that starts a listing of the given kind for an account.
    pub fn begin(account: &User, kind: ResourceKind) -> (task: SyncTask)
        ensures
            task == initial_task(*account, kind),
    {
        SyncTask {
            account: account.id,
            credential: account.credential(),
            kind,
            cursor: START_CURSOR,
        }
    }

    /// The request for the page at the task's cursor, of the fixed page
    /// size.
    pub fn request(&self) -> (req: PageRequest)
        ensures
            req == request_of(*self),
    {
        PageRequest {
            account: to_unsigned(self.account),
            kind: self.kind,
            cursor: self.cursor,
            page_size: PAGE_SIZE,
        }
    }
}

/// Builds the scheduler for one full cycle: two tasks for every account,
/// one for each kind of listing, all ready at `now` and all at the start of
/// their listing.
pub fn seed_cycle(accounts: &Vec<User>, now: i64) -> (queue: Scheduler<SyncTask>)
    ensures
        queue@ == seeded(accounts@, now),
{
    let mut queue: Scheduler<SyncTask> = Scheduler::new();
    let mut i: usize = 0;
    while i < accounts.len()
        invariant
            i <= accounts.len(),
            queue@ == seeded(accounts@.subrange(0, i as int), now),
        decreases accounts.len() - i,
    {
        let ghost before = queue@;
        let followers = SyncTask::begin(&accounts[i], ResourceKind::Followers);
        queue.submit(ScheduledItem { ready_at: now, payload: followers });
        let friends = SyncTask::begin(&accounts[i], ResourceKind::Friends);
        queue.submit(ScheduledItem { ready_at: now, payload: friends });
        i += 1;
        assert(queue@ =~= seeded(accounts@.subrange(0, i as int), now));
    }
    assert(accounts@.subrange(0, i as int) == accounts@);
    queue
}

impl FetchResult {
    /// The answer that carries a page of ids as the remote lists them.
    pub fn page(ids: &Vec<u64>, next_cursor: i64) -> (result: FetchResult)
        ensures
            result matches FetchResult::Page { ids: stored, next_cursor: next } && stored@
                == stored_ids(ids@) && next == next_cursor,
    {
        FetchResult::Page { ids: to_stored_ids(ids), next_cursor }
    }
}

/// Converts a page of ids to the form in which they are stored.
pub fn to_stored_ids(ids: &Vec<u64>) -> (stored: Vec<i64>)
    ensures
        stored@ == stored_ids(ids@),
{
    let mut stored: Vec<i64> = Vec::new();
    let mut i: usize = 0;
    while i < ids.len()
        invariant
            i <= ids.len(),
            stored@ == stored_ids(ids@.subrange(0, i as int)),
        decreases ids.len() - i,
    {
        stored.push(to_signed(ids[i]));
        i += 1;
    }
    assert(ids@.subrange(0, i as int) == ids@);
    stored
}

/// Decides what follows the check of a task's credential, which is made
/// anew before every page: a task whose credential was refused is dropped,
/// any other goes on to fetch the page at its cursor.
pub fn after_verification(task: SyncTask, valid: bool) -> (next: Verified)
    ensures
        valid ==> next == Verified::Fetch(task, request_of(task)),
        !valid ==> next == Verified::Settle(Outcome::<SyncTask>::Drop),
{
    if valid {
        let request = task.request();
        Verified::Fetch(task, request)
    } else {
        Verified::Settle(Outcome::Drop)
    }
}

/// Decides what follows the remote's answer to a page request.
///
/// A page is stored at once, whatever its cursor; the task then goes on
/// from the next cursor without delay, or is dropped when the page was the
/// last. A rate-limited task is kept exactly as it was and retried when the
/// window opens: no page is skipped and nothing is stored. Any other
/// failure drops the task, with nothing stored.
pub fn after_fetch(task: SyncTask, result: FetchResult) -> (next: Fetched)
    ensures
        next.persist == batch_of_fetch(task, result),
        next.outcome == outcome_of_fetch(task, result),
{
    match result {
        FetchResult::Page { ids, next_cursor } => {
            let batch = Batch { account: task.account, kind: task.kind, ids };
            let outcome = if next_cursor != END_CURSOR {
                Outcome::RequeueImmediately(SyncTask { cursor: next_cursor, ..task })
            } else {
                Outcome::Drop
            };
            Fetched { persist: Some(batch), outcome }
        },
        FetchResult::RateLimited(reset) => Fetched {
            persist: None,
            outcome: Outcome::RequeueAt(reset, task),
        },
        FetchResult::Failed => Fetched { persist: None, outcome: Outcome::Drop },
    }
}

/// The task as it stands after the remote's answers to its successive
/// requests have been applied in order, or `None` once it has been dropped.
pub open spec fn after_answers(task: SyncTask, answers: Seq<FetchResult>) -> Option<SyncTask>
    decreases answers.len(),
{
    if answers.len() == 0 {
        Some(task)
    } else {
        match after_answers(task, answers.drop_last()) {
            Some(current) => match outcome_of_fetch(current, answers.last()) {
                Outcome::RequeueAt(_, next) => Some(next),
                Outcome::RequeueImmediately(next) => Some(next),
                Outcome::Drop => None,
            },
            None => None,
        }
    }
}

/// The cursor the remote handed out last among the answers, or `start` if
/// no page came yet.
pub open spec fn cursor_after(start: i64, answers: Seq<FetchResult>) -> i64
    decreases answers.len(),
{
    if answers.len() == 0 {
        start
    } else {
        match answers.last() {
            FetchResult::Page { ids, next_cursor } => next_cursor,
            _ => cursor_after(start, answers.drop_last()),
        }
    }
}

/// Whether the answers are those of a finite listing paged to its end,
/// possibly held up by the rate limit on the way: each is a page or a
/// rate-limit notice, the last is a page with the end cursor, and no page
/// before it has the end cursor.
pub open spec fn pages_to_the_end(answers: Seq<FetchResult>) -> bool {
    &&& answers.len() > 0
    &&& forall|k: int| 0 <= k < answers.len() ==> !((#[trigger] answers[k]) is Failed)
    &&& forall|k: int|
        0 <= k < answers.len() ==> ((#[trigger] answers[k]) matches FetchResult::Page {
            ids,
            next_cursor,
        } ==> (next_cursor == END_CURSOR <==> k == answers.len() - 1))
    &&& answers.last() is Page
}

/// Paging ends. A task that is answered with the pages of a finite listing
/// follows the remote's cursors one by one, repeating a request only when
/// the rate limit held it up, and is removed by the very page that carries
/// the end cursor: after `n` answers short of the last it stands at the
/// cursor handed out last, and the last answer drops it, so that settling
/// puts nothing back into the scheduler.
pub proof fn law_paging_ends(
    task: SyncTask,
    answers: Seq<FetchResult>,
    queue: Seq<ScheduledItem<SyncTask>>,
    now: i64,
)
    requires
        pages_to_the_end(answers),
    ensures
        forall|n: int|
            0 <= n < answers.len() ==> #[trigger] after_answers(task, answers.take(n)) == Some(
                SyncTask { cursor: cursor_after(task.cursor, answers.take(n)), ..task },
            ),
        after_answers(task, answers) is None,
        after_answers(task, answers.drop_last()) matches Some(last) && outcome_of_fetch(
            last,
            answers.last(),
        ) == Outcome::<SyncTask>::Drop && after_settle(
            queue,
            now,
            outcome_of_fetch(last, answers.last()),
        ) == queue,
{
    assert forall|n: int| 0 <= n < answers.len() implies #[trigger] after_answers(
        task,
        answers.take(n),
    ) == Some(SyncTask { cursor: cursor_after(task.cursor, answers.take(n)), ..task }) by {
        lemma_paging_follows_cursors(task, answers, n);
    }
    let n = answers.len() - 1;
    assert(answers.drop_last() == answers.take(n));
}

/// The inductive step behind [`law_paging_ends`].
proof fn lemma_paging_follows_cursors(task: SyncTask, answers: Seq<FetchResult>, n: int)
    requires
        pages_to_the_end(answers),
        0 <= n < answers.len(),
    ensures
        after_answers(task, answers.take(n)) == Some(
            SyncTask { cursor: cursor_after(task.cursor, answers.take(n)), ..task },
        ),
    decreases n,
{
    if n > 0 {
        lemma_paging_follows_cursors(task, answers, n - 1);
        assert(answers.take(n).drop_last() == answers.take(n - 1));
        assert(answers.take(n).last() == answers[n - 1]);
    }
}

/// A rate-limited task is retried unchanged, and not before the window
/// opens. The notice stores nothing and advances nothing: the task goes
/// back exactly as it was, ready at the reset time, and however the
/// scheduler is polled and settled before that time, the task is still held.
pub proof fn law_rate_limited_page_is_retried_unchanged(
    queue: Seq<ScheduledItem<SyncTask>>,
    task: SyncTask,
    reset: i64,
    now: i64,
    operations: Seq<Operation<SyncTask>>,
)
    requires
        forall|k: int|
            0 <= k < operations.len() ==> ((#[trigger] operations[k]) matches Operation::Poll(at)
                ==> at < reset),
    ensures
        batch_of_fetch(task, FetchResult::RateLimited(reset)) is None,
        outcome_of_fetch(task, FetchResult::RateLimited(reset)) == Outcome::RequeueAt(reset, task),
        after_settle(queue, now, outcome_of_fetch(task, FetchResult::RateLimited(reset)))
            == queue.push(ScheduledItem { ready_at: reset, payload: task }),
        replay(
            after_settle(queue, now, outcome_of_fetch(task, FetchResult::RateLimited(reset))),
            operations,
        ).to_multiset().count(ScheduledItem { ready_at: reset, payload: task }) >= 1,
{
    broadcast use vstd::multiset::group_multiset_axioms;

    let requeued = ScheduledItem { ready_at: reset, payload: task };
    let settled = queue.push(requeued);
    vstd::seq_lib::to_multiset_build(queue, requeued);
    law_held_until_ready(settled, operations, requeued);
}

} // verus!
