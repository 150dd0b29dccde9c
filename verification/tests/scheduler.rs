use fantastic_giggle::scheduler::{Outcome, Poll, ScheduledItem, Scheduler};

fn item(ready_at: i64, payload: u32) -> ScheduledItem<u32> {
    ScheduledItem { ready_at, payload }
}

#[test]
fn empty_scheduler_is_finished() {
    let mut s: Scheduler<u32> = Scheduler::new();
    assert!(s.is_empty());
    assert!(matches!(s.poll(0), Poll::Finished));
}

#[test]
fn earliest_ready_item_runs_first() {
    let mut s = Scheduler::new();
    s.submit(item(30, 1));
    s.submit(item(10, 2));
    s.submit(item(20, 3));
    match s.poll(100) {
        Poll::Run(it) => {
            assert_eq!(it.ready_at, 10);
            assert_eq!(it.payload, 2);
        }
        _ => panic!("expected a task to run"),
    }
    assert_eq!(s.len(), 2);
}

#[test]
fn nothing_runs_before_its_ready_time() {
    let mut s = Scheduler::new();
    s.submit(item(50, 7));
    assert!(matches!(s.poll(49), Poll::Wait));
    assert_eq!(s.len(), 1);
    match s.poll(50) {
        Poll::Run(it) => assert_eq!(it.payload, 7),
        _ => panic!("expected a task to run"),
    }
    assert!(s.is_empty());
}

#[test]
fn equal_ready_times_run_in_submission_order() {
    let mut s = Scheduler::new();
    s.submit(item(5, 1));
    s.submit(item(5, 2));
    s.submit(item(5, 3));
    for expected in [1u32, 2, 3] {
        match s.poll(5) {
            Poll::Run(it) => assert_eq!(it.payload, expected),
            _ => panic!("expected a task to run"),
        }
    }
    assert!(matches!(s.poll(5), Poll::Finished));
}

#[test]
fn settle_requeues_or_drops() {
    let mut s = Scheduler::new();
    s.settle(10, Outcome::RequeueAt(40, 1u32));
    s.settle(10, Outcome::RequeueImmediately(2u32));
    s.settle(10, Outcome::Drop);
    assert_eq!(s.len(), 2);
    match s.poll(10) {
        Poll::Run(it) => {
            assert_eq!(it.ready_at, 10);
            assert_eq!(it.payload, 2);
        }
        _ => panic!("expected the immediate task to run"),
    }
    assert!(matches!(s.poll(39), Poll::Wait));
    match s.poll(40) {
        Poll::Run(it) => {
            assert_eq!(it.ready_at, 40);
            assert_eq!(it.payload, 1);
        }
        _ => panic!("expected the delayed task to run"),
    }
}
