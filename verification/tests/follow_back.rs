use fantastic_giggle::account::{Credential, Relationship};
use fantastic_giggle::follow_back::{
    after_follow, candidates, classify, cut_to_limit, follow_queue, sample_batch, to_peer_ids,
    Connection, FollowResult, FollowTask, PeerStatus, FOLLOW_COOLDOWN_SECS, LOOKUP_LIMIT,
};
use fantastic_giggle::scheduler::Outcome;

fn rows(source: i64, targets: &[i64]) -> Vec<Relationship> {
    targets
        .iter()
        .map(|&target_id| Relationship { source_id: source, target_id, updated_at: 0 })
        .collect()
}

fn credential() -> Credential {
    Credential { access_key: "key".to_string(), access_secret: "secret".to_string() }
}

fn task(queue: Vec<u64>) -> FollowTask {
    FollowTask { credential: credential(), queue }
}

#[test]
fn candidates_are_the_followers_that_are_not_friends() {
    assert_eq!(candidates(&rows(1, &[1, 2, 3]), &rows(1, &[2])), vec![1, 3]);
}

#[test]
fn friends_that_are_no_followers_are_left_out_too() {
    assert_eq!(candidates(&rows(1, &[1, 2, 3]), &rows(1, &[2, 9, 10])), vec![1, 3]);
    assert_eq!(candidates(&rows(1, &[]), &rows(1, &[2, 9])), Vec::<i64>::new());
    assert_eq!(candidates(&rows(1, &[4, 5]), &rows(1, &[4, 5, 6])), Vec::<i64>::new());
}

#[test]
fn candidates_come_once_each_and_smallest_first() {
    assert_eq!(
        candidates(&rows(1, &[30, -5, 10, 30, 10, 7]), &rows(1, &[7, 7])),
        vec![-5, 10, 30]
    );
    assert_eq!(candidates(&rows(1, &[3, 2, 1]), &rows(1, &[])), vec![1, 2, 3]);
}

#[test]
fn peer_ids_keep_the_bits_of_the_stored_ids() {
    assert_eq!(to_peer_ids(&vec![]), Vec::<u64>::new());
    assert_eq!(to_peer_ids(&vec![1, 3]), vec![1, 3]);
    assert_eq!(to_peer_ids(&vec![-1, i64::MIN]), vec![u64::MAX, i64::MAX as u64 + 1]);
}

#[test]
fn cutting_keeps_the_first_hundred() {
    assert_eq!(cut_to_limit(vec![]), Vec::<u64>::new());
    assert_eq!(cut_to_limit(vec![9, 8, 7]), vec![9, 8, 7]);
    assert_eq!(cut_to_limit((0..100).collect()), (0..100).collect::<Vec<u64>>());
    assert_eq!(cut_to_limit((0..101).collect()), (0..100).collect::<Vec<u64>>());
    assert_eq!(cut_to_limit((500..900).rev().collect()), (800..900).rev().collect::<Vec<u64>>());
}

#[test]
fn a_small_pool_is_sampled_whole() {
    let mut batch = sample_batch(vec![5, 1, 9]);
    batch.sort();
    assert_eq!(batch, vec![1, 5, 9]);
    assert_eq!(sample_batch(vec![]), Vec::<u64>::new());
    let mut batch = sample_batch((0..100).collect());
    batch.sort();
    assert_eq!(batch, (0..100).collect::<Vec<u64>>());
}

#[test]
fn a_large_pool_is_cut_to_the_lookup_limit() {
    assert_eq!(LOOKUP_LIMIT, 100);
    for size in [101u64, 250, 5000] {
        let mut batch = sample_batch((0..size).collect());
        assert_eq!(batch.len(), 100);
        assert!(batch.iter().all(|&id| id < size));
        batch.sort();
        batch.dedup();
        assert_eq!(batch.len(), 100);
    }
}

#[test]
fn a_sample_holds_a_peer_no_more_often_than_the_pool() {
    let mut pool = vec![7u64; 3];
    pool.extend(std::iter::repeat(8u64).take(200));
    let batch = sample_batch(pool);
    assert_eq!(batch.len(), 100);
    assert!(batch.iter().filter(|&&id| id == 7).count() <= 3);
    assert!(batch.iter().all(|&id| id == 7 || id == 8));
}

#[test]
fn the_sample_is_not_always_the_first_ids() {
    let first: Vec<u64> = (0..100).collect();
    let batch = sample_batch((0..1000).collect());
    assert_ne!(batch, first);
}

#[test]
fn connections_are_read_for_both_directions() {
    assert_eq!(classify(&vec![]), (false, false));
    assert_eq!(classify(&vec![Connection::Unrelated]), (false, false));
    assert_eq!(classify(&vec![Connection::FollowedBy]), (true, false));
    assert_eq!(classify(&vec![Connection::FollowingReceived]), (true, false));
    assert_eq!(classify(&vec![Connection::Following]), (false, true));
    assert_eq!(classify(&vec![Connection::FollowingRequested]), (false, true));
    assert_eq!(classify(&vec![Connection::Blocking, Connection::Muting]), (false, false));
    assert_eq!(
        classify(&vec![Connection::Muting, Connection::Following, Connection::FollowedBy]),
        (true, true)
    );
}

#[test]
fn only_confirmed_unreciprocated_followers_enter_the_queue() {
    let statuses = vec![
        PeerStatus { id: 1, connections: vec![Connection::FollowedBy] },
        PeerStatus { id: 2, connections: vec![Connection::FollowedBy, Connection::Following] },
        PeerStatus { id: 3, connections: vec![Connection::Unrelated] },
        PeerStatus { id: 4, connections: vec![Connection::FollowingReceived] },
        PeerStatus {
            id: 5,
            connections: vec![Connection::FollowedBy, Connection::FollowingRequested],
        },
        PeerStatus { id: 6, connections: vec![Connection::Following] },
        PeerStatus { id: 7, connections: vec![Connection::Blocking, Connection::FollowedBy] },
    ];
    assert_eq!(follow_queue(&statuses), vec![1, 4, 7]);
    assert_eq!(follow_queue(&vec![]), Vec::<u64>::new());
}

#[test]
fn the_stale_scenario_queues_only_the_confirmed_follower() {
    let ids = candidates(&rows(1, &[1, 2, 3]), &rows(1, &[2]));
    let mut batch = sample_batch(to_peer_ids(&ids));
    batch.sort();
    assert_eq!(batch, vec![1, 3]);
    let statuses = vec![
        PeerStatus { id: 1, connections: vec![Connection::FollowedBy] },
        PeerStatus { id: 3, connections: vec![Connection::Unrelated] },
    ];
    assert_eq!(follow_queue(&statuses), vec![1]);
}

#[test]
fn the_last_peer_of_the_queue_is_next() {
    assert_eq!(task(vec![4, 5, 6]).next_peer(), Some(6));
    assert_eq!(task(vec![4]).next_peer(), Some(4));
    assert_eq!(task(vec![]).next_peer(), None);
}

#[test]
fn a_followed_peer_leaves_the_queue_and_the_task_rests_sixty_seconds() {
    assert_eq!(FOLLOW_COOLDOWN_SECS, 60);
    let outcome = after_follow(task(vec![4, 5, 6]), 1_000, FollowResult::Followed);
    assert_eq!(outcome, Outcome::RequeueAt(1_060, task(vec![4, 5])));
    let outcome = after_follow(task(vec![4]), 1_000, FollowResult::Followed);
    assert_eq!(outcome, Outcome::RequeueAt(1_060, task(vec![])));
}

#[test]
fn a_rate_limited_follow_keeps_the_whole_queue_until_the_reset() {
    let outcome = after_follow(task(vec![4, 5, 6]), 1_000, FollowResult::RateLimited(1_900));
    assert_eq!(outcome, Outcome::RequeueAt(1_900, task(vec![4, 5, 6])));
}

#[test]
fn a_failed_follow_gives_up_the_peer_and_goes_on_at_once() {
    let outcome = after_follow(task(vec![4, 5, 6]), 1_000, FollowResult::Failed);
    assert_eq!(outcome, Outcome::RequeueImmediately(task(vec![4, 5])));
}

#[test]
fn a_task_with_an_empty_queue_is_dropped() {
    assert_eq!(after_follow(task(vec![]), 1_000, FollowResult::Followed), Outcome::Drop);
    assert_eq!(after_follow(task(vec![]), 1_000, FollowResult::Failed), Outcome::Drop);
    assert_eq!(
        after_follow(task(vec![]), 1_000, FollowResult::RateLimited(2_000)),
        Outcome::Drop
    );
}

#[test]
fn the_cooldown_is_added_up_to_the_last_representable_time() {
    let outcome = after_follow(task(vec![1]), i64::MAX - 60, FollowResult::Followed);
    assert_eq!(outcome, Outcome::RequeueAt(i64::MAX, task(vec![])));
}
