//! The reciprocation policy: find the peers that follow an account and are
//! not followed back, and follow them at a fixed cadence.

use crate::account::{Credential, Relationship};
use crate::bits::{to_unsigned, unsigned};
use crate::scheduler::{
    after_settle, law_held_until_ready, relabel_outcome, replay, Operation, Outcome,
    ScheduledItem,
};
use rand::seq::SliceRandom;
use rand::thread_rng;
use std::collections::BTreeSet;
use vstd::std_specs::cmp::OrdSpec;
use vstd::std_specs::iter::IteratorSpec;
use vstd::prelude::*;

verus! {

/// The most peers whose relationship may be looked up in one call.
pub const LOOKUP_LIMIT: usize = 100;

/// The pause, in seconds, between two follow actions of one account. This is
/// the throttle that keeps an account from acting in bursts.
pub const FOLLOW_COOLDOWN_SECS: i64 = 60;

/// One way in which a peer is connected to an account, as the remote
/// reports it.
#[derive(Debug, Clone, Copy, PartialEq, Eq, Structural)]
pub enum Connection {
    /// The peer has no relation to the account.
    Unrelated,
    /// The account has asked to follow the peer.
    FollowingRequested,
    /// The peer has asked to follow the account.
    FollowingReceived,
    /// The peer follows the account.
    FollowedBy,
    /// The account follows the peer.
    Following,
    /// The account has blocked the peer.
    Blocking,
    /// The account has muted the peer.
    Muting,
}

/// What a lookup reports of one peer: its id and every way in which it is
/// connected to the account.
#[derive(Debug, Clone, PartialEq, Eq)]
pub struct PeerStatus {
    pub id: u64,
    pub connections: Vec<Connection>,
}

/// What the remote answered to a follow action.
#[derive(Debug, Clone, PartialEq, Eq)]
pub enum FollowResult {
    /// The peer is now followed.
    Followed,
    /// The rate limit is reached; the enclosed time, in seconds since the
    /// epoch, is when the next window opens.
    RateLimited(i64),
    /// Any other failure.
    Failed,
}

/// The peers one account has yet to follow back. The last one is acted on
/// first.
#[derive(Debug, Clone, PartialEq, Eq)]
pub struct FollowTask {
    pub credential: Credential,
    pub queue: Vec<u64>,
}

/// A follow task as the contracts see it.
pub struct FollowTaskView {
    pub credential: Credential,
    pub queue: Seq<u64>,
}

impl View for FollowTask {
    type V = FollowTaskView;

    open spec fn view(&self) -> FollowTaskView {
        FollowTaskView { credential: self.credential, queue: self.queue@ }
    }
}

/// Whether the connections say that the peer follows the account, or has
/// asked to.
pub open spec fn follows_account(connections: Seq<Connection>) -> bool {
    exists|k: int|
        0 <= k < connections.len() && (#[trigger] connections[k] == Connection::FollowedBy
            || connections[k] == Connection::FollowingReceived)
}

/// Whether the connections say that the account follows the peer, or has
/// asked to.
pub open spec fn followed_by_account(connections: Seq<Connection>) -> bool {
    exists|k: int|
        0 <= k < connections.len() && (#[trigger] connections[k] == Connection::Following
            || connections[k] == Connection::FollowingRequested)
}

/// Whether a peer is to be followed back: it follows the account and the
/// account does not follow it.
pub open spec fn awaits_follow_back(status: PeerStatus) -> bool {
    follows_account(status.connections@) && !followed_by_account(status.connections@)
}

/// The follow-back queue that a lookup yields: the ids of the peers to be
/// followed back, in the order in which the lookup reports them.
pub open spec fn queue_of(statuses: Seq<PeerStatus>) -> Seq<u64> {
    statuses.filter(|s: PeerStatus| awaits_follow_back(s)).map_values(|s: PeerStatus| s.id)
}

/// The view of a follow task, as a function.
pub open spec fn task_view() -> spec_fn(FollowTask) -> FollowTaskView {
    |task: FollowTask| task@
}

/// The peer a task acts on next: the last of its queue.
pub open spec fn next_peer(task: FollowTaskView) -> Option<u64> {
    if task.queue.len() > 0 {
        Some(task.queue.last())
    } else {
        None
    }
}

/// What becomes of a task after the remote has answered the follow action on
/// its next peer, at time `now`.
///
/// After a success the peer leaves the queue and the task rests for the
/// cooldown. When the rate limit is reached the task is kept as it is, peer
/// included, until the window opens. After any other failure the peer is
/// given up and the rest of the queue goes on without delay. A task whose
/// queue is empty has nothing to act on and is dropped.
pub open spec fn outcome_of_follow(task: FollowTaskView, now: i64, result: FollowResult) -> Outcome<
    FollowTaskView,
> {
    let rest = FollowTaskView { credential: task.credential, queue: task.queue.drop_last() };
    if task.queue.len() == 0 {
        Outcome::Drop
    } else {
        match result {
            FollowResult::Followed => Outcome::RequeueAt(
                (now + FOLLOW_COOLDOWN_SECS) as i64,
                rest,
            ),
            FollowResult::RateLimited(reset) => Outcome::RequeueAt(reset, task),
            FollowResult::Failed => Outcome::RequeueImmediately(rest),
        }
    }
}

/// The peers named as targets by a list of stored relationships.
pub open spec fn targets(relationships: Seq<Relationship>) -> Set<i64> {
    Set::new(
        |id: i64|
            exists|k: int|
                0 <= k < relationships.len() && (#[trigger] relationships[k]).target_id == id,
    )
}

/// Whether a sequence of ids is in strictly increasing order.
pub open spec fn ascending(ids: Seq<i64>) -> bool {
    forall|i: int, j: int| 0 <= i < j < ids.len() ==> ids[i] < ids[j]
}

/// The peers that follow an account and that the account does not follow,
/// going by the stored relationships: every target of `followers` that is
/// not a target of `friends`.
pub open spec fn unreciprocated(followers: Seq<Relationship>, friends: Seq<Relationship>) -> Set<
    i64,
> {
    targets(followers).difference(targets(friends))
}

/// Stored ids as the remote names peers: each one read bit for bit as an
/// unsigned number.
pub open spec fn peer_ids(ids: Seq<i64>) -> Seq<u64> {
    Seq::new(ids.len(), |i: int| unsigned(ids[i]))
}

/// A list of peers cut to the lookup limit: the list itself if it fits, and
/// otherwise its first peers, as many as the limit allows.
pub open spec fn cut(peers: Seq<u64>) -> Seq<u64> {
    if peers.len() <= LOOKUP_LIMIT {
        peers
    } else {
        peers.subrange(0, LOOKUP_LIMIT as int)
    }
}

/// Whether `batch` may be drawn from `pool` for one lookup: it holds as many
/// peers as the pool, up to the lookup limit, and each of them is taken from
/// the pool, none more often than the pool holds it. A pool that fits the
/// limit is taken whole.
pub open spec fn is_sample(batch: Seq<u64>, pool: Seq<u64>) -> bool {
    &&& batch.len() == cut(pool).len()
    &&& batch.to_multiset().subset_of(pool.to_multiset())
    &&& pool.len() <= LOOKUP_LIMIT ==> batch.to_multiset() == pool.to_multiset()
}

/// The set of targets of a list of relationships.
fn collect_targets(relationships: &Vec<Relationship>) -> (set: BTreeSet<i64>)
    ensures
        set@ == targets(relationships@),
{
    let mut set: BTreeSet<i64> = BTreeSet::new();
    let mut i: usize = 0;
    while i < relationships.len()
        invariant
            i <= relationships.len(),
            set@ == targets(relationships@.subrange(0, i as int)),
        decreases relationships.len() - i,
    {
        let ghost before = relationships@.subrange(0, i as int);
        set.insert(relationships[i].target_id);
        i += 1;
        proof {
            let after = relationships@.subrange(0, i as int);
            assert forall|id: i64| set@.contains(id) <==> targets(after).contains(id) by {
                if targets(after).contains(id) {
                    let k = choose|k: int|
                        0 <= k < after.len() && (#[trigger] after[k]).target_id == id;
                    if k < i - 1 {
                        assert(before[k].target_id == id);
                    }
                }
                if targets(before).contains(id) {
                    let k = choose|k: int|
                        0 <= k < before.len() && (#[trigger] before[k]).target_id == id;
                    assert(after[k].target_id == id);
                }
                if id == relationships[i - 1].target_id {
                    assert(after[i - 1].target_id == id);
                }
            }
            assert(set@ =~= targets(after));
        }
    }
    assert(relationships@.subrange(0, i as int) == relationships@);
    set
}

/// The ids of a set, smallest first.
fn in_order(set: &BTreeSet<i64>) -> (ids: Vec<i64>)
    ensures
        ids@.to_set() == set@,
        ascending(ids@),
{
    broadcast use vstd::laws_cmp::group_laws_cmp;

    let mut ids: Vec<i64> = Vec::new();
    let ghost listed: Seq<&i64> = set.iter().remaining();
    for id in it: set.iter()
        invariant
            it.seq() == listed,
            ids@.len() == it.index(),
            forall|k: int| 0 <= k < ids@.len() ==> ids@[k] == *listed[k],
    {
        ids.push(*id);
    }
    proof {
        assert(ids@ =~= listed.unref());
        assert(vstd::laws_cmp::obeys_cmp::<&i64>());
        assert forall|i: int, j: int| 0 <= i < j < ids@.len() implies ids@[i] < ids@[j] by {
            assert(OrdSpec::cmp_spec(&listed[i], &listed[j]) is Less);
        }
    }
    ids
}

/// Computes the candidates for following back from the stored
/// relationships of one account: the followers that are not friends, each
/// once, smallest id first.
///
/// An id that occurs among the friends is never a candidate, whether or not
/// it occurs among the followers.
pub fn candidates(followers: &Vec<Relationship>, friends: &Vec<Relationship>) -> (ids: Vec<i64>)
    ensures
        ids@.to_set() == unreciprocated(followers@, friends@),
        ascending(ids@),
        forall|k: int| 0 <= k < friends@.len() ==> !ids@.contains(#[trigger] friends@[k].target_id),
{
    let mut set = collect_targets(followers);
    let mut i: usize = 0;
    while i < friends.len()
        invariant
            i <= friends.len(),
            set@ == targets(followers@).difference(targets(friends@.subrange(0, i as int))),
        decreases friends.len() - i,
    {
        let ghost before = friends@.subrange(0, i as int);
        set.remove(&friends[i].target_id);
        i += 1;
        proof {
            let after = friends@.subrange(0, i as int);
            assert forall|id: i64| targets(after).contains(id) <==> (targets(before).contains(id)
                || id == friends[i - 1].target_id) by {
                if targets(after).contains(id) {
                    let k = choose|k: int|
                        0 <= k < after.len() && (#[trigger] after[k]).target_id == id;
                    if k < i - 1 {
                        assert(before[k].target_id == id);
                    }
                }
                if targets(before).contains(id) {
                    let k = choose|k: int|
                        0 <= k < before.len() && (#[trigger] before[k]).target_id == id;
                    assert(after[k].target_id == id);
                }
                if id == friends[i - 1].target_id {
                    assert(after[i - 1].target_id == id);
                }
            }
            assert(set@ =~= targets(followers@).difference(targets(after)));
        }
    }
    assert(friends@.subrange(0, i as int) == friends@);
    let ids = in_order(&set);
    assert forall|k: int| 0 <= k < friends@.len() implies !ids@.contains(
        #[trigger] friends@[k].target_id,
    ) by {
        assert(targets(friends@).contains(friends@[k].target_id));
        assert(!ids@.to_set().contains(friends@[k].target_id));
    }
    ids
}

/// Converts stored ids to the form in which the remote names peers.
pub fn to_peer_ids(ids: &Vec<i64>) -> (peers: Vec<u64>)
    ensures
        peers@ == peer_ids(ids@),
{
    let mut peers: Vec<u64> = Vec::new();
    let mut i: usize = 0;
    while i < ids.len()
        invariant
            i <= ids.len(),
            peers@ == peer_ids(ids@.subrange(0, i as int)),
        decreases ids.len() - i,
    {
        peers.push(to_unsigned(ids[i]));
        i += 1;
    }
    assert(ids@.subrange(0, i as int) == ids@);
    peers
}

/// `SliceRandom::shuffle` with the generator `thread_rng` hands out: the
/// peers are rearranged in place by swaps. Which arrangement comes out is
/// left open; that it holds the same peers, each as often as before, is all
/// that is claimed.
#[verifier::external_body]
fn shuffle(peers: &mut Vec<u64>)
    ensures
        final(peers)@.to_multiset() == old(peers)@.to_multiset(),
{
    peers.shuffle(&mut thread_rng());
}

/// Cuts a list of peers to the lookup limit, keeping the first.
pub fn cut_to_limit(peers: Vec<u64>) -> (batch: Vec<u64>)
    ensures
        batch@ == cut(peers@),
        batch@.len() <= LOOKUP_LIMIT,
{
    let mut batch = peers;
    batch.truncate(LOOKUP_LIMIT);
    batch
}

/// Draws the batch for one lookup from a pool of candidates: the pool is
/// shuffled and cut to the lookup limit, so that a large pool is probed
/// fairly and never by its first ids only.
pub fn sample_batch(pool: Vec<u64>) -> (batch: Vec<u64>)
    ensures
        is_sample(batch@, pool@),
        batch@.len() <= LOOKUP_LIMIT,
{
    let mut shuffled = pool;
    shuffle(&mut shuffled);
    let ghost arranged = shuffled@;
    let batch = cut_to_limit(shuffled);
    proof {
        broadcast use vstd::multiset::group_multiset_axioms;

        arranged.to_multiset_ensures();
        pool@.to_multiset_ensures();
        assert(arranged.len() == pool@.len());
        if arranged.len() > LOOKUP_LIMIT {
            let rest = arranged.subrange(LOOKUP_LIMIT as int, arranged.len() as int);
            assert(arranged =~= batch@ + rest);
            vstd::seq_lib::lemma_multiset_commutative(batch@, rest);
            assert(batch@.to_multiset().subset_of(pool@.to_multiset()));
        } else {
            assert(batch@.to_multiset().subset_of(pool@.to_multiset()));
        }
    }
    batch
}

/// Reads the two facts that matter out of a peer's connections: whether the
/// peer follows the account, and whether the account follows the peer.
/// Requests count like the relation they ask for.
pub fn classify(connections: &Vec<Connection>) -> (both: (bool, bool))
    ensures
        both.0 == follows_account(connections@),
        both.1 == followed_by_account(connections@),
{
    let mut follows = false;
    let mut followed = false;
    let mut i: usize = 0;
    while i < connections.len()
        invariant
            i <= connections.len(),
            follows == follows_account(connections@.subrange(0, i as int)),
            followed == followed_by_account(connections@.subrange(0, i as int)),
        decreases connections.len() - i,
    {
        let ghost before = connections@.subrange(0, i as int);
        let ghost after = connections@.subrange(0, i + 1);
        proof {
            if follows_account(before) {
                let k = choose|k: int|
                    0 <= k < before.len() && (#[trigger] before[k] == Connection::FollowedBy
                        || before[k] == Connection::FollowingReceived);
                assert(after[k] == before[k]);
            }
            if followed_by_account(before) {
                let k = choose|k: int|
                    0 <= k < before.len() && (#[trigger] before[k] == Connection::Following
                        || before[k] == Connection::FollowingRequested);
                assert(after[k] == before[k]);
            }
            if follows_account(after) {
                let k = choose|k: int|
                    0 <= k < after.len() && (#[trigger] after[k] == Connection::FollowedBy
                        || after[k] == Connection::FollowingReceived);
                if k < i {
                    assert(before[k] == after[k]);
                }
            }
            if followed_by_account(after) {
                let k = choose|k: int|
                    0 <= k < after.len() && (#[trigger] after[k] == Connection::Following
                        || after[k] == Connection::FollowingRequested);
                if k < i {
                    assert(before[k] == after[k]);
                }
            }
            assert(after[i as int] == connections@[i as int]);
        }
        match connections[i] {
            Connection::FollowingReceived | Connection::FollowedBy => {
                follows = true;
            },
            Connection::Following | Connection::FollowingRequested => {
                followed = true;
            },
            _ => {},
        }
        i += 1;
    }
    assert(connections@.subrange(0, i as int) == connections@);
    (follows, followed)
}

/// Builds the follow-back queue from what a lookup reported. The stored
/// relationships may be stale, so only the lookup decides: a peer enters the
/// queue if and only if it follows the account and is not yet followed.
pub fn follow_queue(statuses: &Vec<PeerStatus>) -> (queue: Vec<u64>)
    ensures
        queue@ == queue_of(statuses@),
{
    let mut queue: Vec<u64> = Vec::new();
    let mut i: usize = 0;
    while i < statuses.len()
        invariant
            i <= statuses.len(),
            queue@ == queue_of(statuses@.subrange(0, i as int)),
        decreases statuses.len() - i,
    {
        let ghost before = statuses@.subrange(0, i as int);
        let (follows, followed) = classify(&statuses[i].connections);
        proof {
            let wanted = |s: PeerStatus| awaits_follow_back(s);
            let id = |s: PeerStatus| s.id;
            assert(statuses@.subrange(0, i + 1) =~= before.push(statuses@[i as int]));
            before.lemma_filter_push(statuses@[i as int], wanted);
            before.filter(wanted).lemma_push_map_commute(id, statuses@[i as int]);
        }
        if follows && !followed {
            queue.push(statuses[i].id);
        }
        i += 1;
    }
    assert(statuses@.subrange(0, i as int) == statuses@);
    queue
}

impl FollowTask {
    /// The peer the task acts on next, if any is left.
    pub fn next_peer(&self) -> (peer: Option<u64>)
        ensures
            peer == next_peer(self@),
    {
        if self.queue.len() > 0 {
            Some(self.queue[self.queue.len() - 1])
        } else {
            None
        }
    }
}

/// Decides what becomes of a task once the remote has answered the follow
/// action on its next peer.
///
/// The time must leave room for the cooldown to be added to it.
pub fn after_follow(task: FollowTask, now: i64, result: FollowResult) -> (outcome: Outcome<
    FollowTask,
>)
    requires
        now + FOLLOW_COOLDOWN_SECS <= i64::MAX,
    ensures
        relabel_outcome(outcome, task_view()) == outcome_of_follow(task@, now, result),
        task.queue@.len() > 0 ==> (result matches FollowResult::RateLimited(reset) ==> outcome
            == Outcome::RequeueAt(reset, task)),
{
    if task.queue.len() == 0 {
        return Outcome::Drop;
    }
    match result {
        FollowResult::Followed => {
            let FollowTask { credential, queue } = task;
            let mut queue = queue;
            queue.pop();
            Outcome::RequeueAt(now + FOLLOW_COOLDOWN_SECS, FollowTask { credential, queue })
        },
        FollowResult::RateLimited(reset) => Outcome::RequeueAt(reset, task),
        FollowResult::Failed => {
            let FollowTask { credential, queue } = task;
            let mut queue = queue;
            queue.pop();
            Outcome::RequeueImmediately(FollowTask { credential, queue })
        },
    }
}

/// A sample never exceeds the lookup limit, whatever the pool.
pub proof fn law_sample_within_limit(batch: Seq<u64>, pool: Seq<u64>)
    requires
        is_sample(batch, pool),
    ensures
        batch.len() <= LOOKUP_LIMIT,
        batch.len() <= pool.len(),
{
}

/// After a successful follow action the account rests for the cooldown. The
/// task goes back without the peer just followed, ready when the cooldown
/// has passed, and however the scheduler is polled and settled before that
/// time, the task is still held: its next action is not attempted earlier.
pub proof fn law_cooldown_after_follow(
    queue: Seq<ScheduledItem<FollowTaskView>>,
    task: FollowTaskView,
    now: i64,
    operations: Seq<Operation<FollowTaskView>>,
)
    requires
        task.queue.len() > 0,
        now + FOLLOW_COOLDOWN_SECS <= i64::MAX,
        forall|k: int|
            0 <= k < operations.len() ==> ((#[trigger] operations[k]) matches Operation::Poll(at)
                ==> at < now + FOLLOW_COOLDOWN_SECS),
    ensures
        ({
            let rest = FollowTaskView {
                credential: task.credential,
                queue: task.queue.drop_last(),
            };
            let requeued = ScheduledItem {
                ready_at: (now + FOLLOW_COOLDOWN_SECS) as i64,
                payload: rest,
            };
            let settled = after_settle(
                queue,
                now,
                outcome_of_follow(task, now, FollowResult::Followed),
            );
            &&& requeued.ready_at == now + FOLLOW_COOLDOWN_SECS
            &&& settled == queue.push(requeued)
            &&& replay(settled, operations).to_multiset().count(requeued) >= 1
        }),
{
    broadcast use vstd::multiset::group_multiset_axioms;

    let rest = FollowTaskView { credential: task.credential, queue: task.queue.drop_last() };
    let requeued = ScheduledItem { ready_at: (now + FOLLOW_COOLDOWN_SECS) as i64, payload: rest };
    vstd::seq_lib::to_multiset_build(queue, requeued);
    law_held_until_ready(queue.push(requeued), operations, requeued);
}

/// A rate-limited follow task is retried unchanged, and not before the
/// window opens. The task goes back with its whole queue, the peer it was
/// acting on included, ready at the reset time, and however the scheduler is
/// polled and settled before that time, the task is still held.
pub proof fn law_rate_limited_follow_is_retried_unchanged(
    queue: Seq<ScheduledItem<FollowTaskView>>,
    task: FollowTaskView,
    reset: i64,
    now: i64,
    operations: Seq<Operation<FollowTaskView>>,
)
    requires
        task.queue.len() > 0,
        forall|k: int|
            0 <= k < operations.len() ==> ((#[trigger] operations[k]) matches Operation::Poll(at)
                ==> at < reset),
    ensures
        outcome_of_follow(task, now, FollowResult::RateLimited(reset)) == Outcome::RequeueAt(
            reset,
            task,
        ),
        after_settle(queue, now, outcome_of_follow(task, now, FollowResult::RateLimited(reset)))
            == queue.push(ScheduledItem { ready_at: reset, payload: task }),
        replay(
            after_settle(
                queue,
                now,
                outcome_of_follow(task, now, FollowResult::RateLimited(reset)),
            ),
            operations,
        ).to_multiset().count(ScheduledItem { ready_at: reset, payload: task }) >= 1,
{
    broadcast use vstd::multiset::group_multiset_axioms;

    let requeued = ScheduledItem { ready_at: reset, payload: task };
    vstd::seq_lib::to_multiset_build(queue, requeued);
    law_held_until_ready(queue.push(requeued), operations, requeued);
}

} // verus!
