use fantastic_giggle::account::{Credential, User};
use fantastic_giggle::id_sync::{FetchResult, ResourceKind, PAGE_SIZE, START_CURSOR};
use fantastic_giggle::sync_worker::{IdSynchronizer, SyncAction, SyncEvent, SyncPhase};

fn account_b() -> User {
    User { id: 2, access_key: "key-b".to_string(), access_secret: "secret-b".to_string() }
}

fn credential_b() -> Credential {
    Credential { access_key: "key-b".to_string(), access_secret: "secret-b".to_string() }
}

fn act(worker: IdSynchronizer, now: i64, event: SyncEvent) -> (IdSynchronizer, SyncAction) {
    let (worker, action) = worker.step(now, event);
    (worker, action.expect("the worker was waiting for the event"))
}

#[test]
fn the_worker_starts_by_loading_the_accounts() {
    let (worker, action) = IdSynchronizer::new();
    assert_eq!(action, SyncAction::LoadAccounts);
    assert_eq!(worker.phase(), &SyncPhase::AwaitingAccounts);
    assert_eq!(worker.pending(), 0);
}

#[test]
fn an_empty_account_list_is_asked_for_again_after_ten_seconds() {
    let (worker, _) = IdSynchronizer::new();
    let (worker, action) = act(worker, 100, SyncEvent::AccountsLoaded(Some(vec![])));
    assert_eq!(action, SyncAction::Sleep(10));
    assert_eq!(worker.phase(), &SyncPhase::PausedBeforeReload);
    let (worker, action) = act(worker, 110, SyncEvent::Woke);
    assert_eq!(action, SyncAction::LoadAccounts);
    assert_eq!(worker.phase(), &SyncPhase::AwaitingAccounts);
}

#[test]
fn a_failing_account_store_is_asked_again_after_ten_seconds() {
    let (worker, _) = IdSynchronizer::new();
    let (worker, action) = act(worker, 100, SyncEvent::AccountsLoaded(None));
    assert_eq!(action, SyncAction::Sleep(10));
    let (_, action) = act(worker, 110, SyncEvent::Woke);
    assert_eq!(action, SyncAction::LoadAccounts);
}

#[test]
fn an_unexpected_event_changes_nothing() {
    let (worker, _) = IdSynchronizer::new();
    let (worker, action) = worker.step(100, SyncEvent::Woke);
    assert!(action.is_none());
    assert_eq!(worker.phase(), &SyncPhase::AwaitingAccounts);
    let (worker, action) = worker.step(100, SyncEvent::Persisted(true));
    assert!(action.is_none());
    assert_eq!(worker.phase(), &SyncPhase::AwaitingAccounts);
    assert_eq!(worker.pending(), 0);
}

#[test]
fn every_attempt_checks_the_credential_first() {
    let (worker, _) = IdSynchronizer::new();
    let (worker, action) = act(worker, 100, SyncEvent::AccountsLoaded(Some(vec![account_b()])));
    assert_eq!(action, SyncAction::VerifyCredential(credential_b()));
    assert_eq!(worker.pending(), 1);
    let (worker, action) = act(worker, 100, SyncEvent::CredentialChecked(true));
    match action {
        SyncAction::FetchPage(credential, request) => {
            assert_eq!(credential, credential_b());
            assert_eq!(request.account, 2);
            assert_eq!(request.kind, ResourceKind::Followers);
            assert_eq!(request.cursor, START_CURSOR);
            assert_eq!(request.page_size, PAGE_SIZE);
        }
        other => panic!("unexpected {:?}", other),
    }
    let (worker, action) = act(
        worker,
        101,
        SyncEvent::PageFetched(FetchResult::Page { ids: vec![7, 8], next_cursor: 50 }),
    );
    match action {
        SyncAction::Persist(batch) => {
            assert_eq!(batch.account, 2);
            assert_eq!(batch.kind, ResourceKind::Followers);
            assert_eq!(batch.ids, vec![7, 8]);
        }
        other => panic!("unexpected {:?}", other),
    }
    // The friends task was ready first, so it runs before the followers
    // task comes up again, and its credential is checked anew.
    let (worker, action) = act(worker, 102, SyncEvent::Persisted(true));
    assert_eq!(action, SyncAction::VerifyCredential(credential_b()));
    let (worker, action) = act(worker, 102, SyncEvent::CredentialChecked(true));
    match action {
        SyncAction::FetchPage(_, request) => {
            assert_eq!(request.kind, ResourceKind::Friends);
            assert_eq!(request.cursor, START_CURSOR);
        }
        other => panic!("unexpected {:?}", other),
    }
    let (worker, action) = act(
        worker,
        103,
        SyncEvent::PageFetched(FetchResult::Page { ids: vec![9], next_cursor: 0 }),
    );
    assert!(matches!(action, SyncAction::Persist(_)));
    let (worker, action) = act(worker, 103, SyncEvent::Persisted(true));
    assert_eq!(action, SyncAction::VerifyCredential(credential_b()));
    let (worker, action) = act(worker, 103, SyncEvent::CredentialChecked(true));
    match action {
        SyncAction::FetchPage(_, request) => {
            assert_eq!(request.kind, ResourceKind::Followers);
            assert_eq!(request.cursor, 50);
        }
        other => panic!("unexpected {:?}", other),
    }
    let (worker, action) = act(
        worker,
        104,
        SyncEvent::PageFetched(FetchResult::Page { ids: vec![], next_cursor: 0 }),
    );
    assert!(matches!(action, SyncAction::Persist(_)));
    // Both listings are exhausted: the next cycle starts without delay.
    let (worker, action) = act(worker, 104, SyncEvent::Persisted(true));
    assert_eq!(action, SyncAction::LoadAccounts);
    assert_eq!(worker.phase(), &SyncPhase::AwaitingAccounts);
    assert_eq!(worker.pending(), 0);
}

#[test]
fn a_revoked_credential_drops_only_that_task() {
    let (worker, _) = IdSynchronizer::new();
    let (worker, _) = act(worker, 100, SyncEvent::AccountsLoaded(Some(vec![account_b()])));
    assert_eq!(worker.pending(), 1);
    let (worker, action) = act(worker, 100, SyncEvent::CredentialChecked(false));
    // The followers task is gone; the friends task is attempted next.
    assert_eq!(action, SyncAction::VerifyCredential(credential_b()));
    assert_eq!(worker.pending(), 0);
    let (worker, action) = act(worker, 100, SyncEvent::CredentialChecked(false));
    assert_eq!(action, SyncAction::LoadAccounts);
    assert_eq!(worker.pending(), 0);
}

#[test]
fn a_rate_limited_first_page_is_retried_at_the_reset_and_not_before() {
    let now = 1_700_000_000;
    let (worker, _) = IdSynchronizer::new();
    let (worker, _) = act(worker, now, SyncEvent::AccountsLoaded(Some(vec![account_b()])));
    let (worker, action) = act(worker, now, SyncEvent::CredentialChecked(true));
    assert!(matches!(action, SyncAction::FetchPage(_, _)));
    let (worker, action) =
        act(worker, now, SyncEvent::PageFetched(FetchResult::RateLimited(now + 30)));
    // Nothing is stored; the worker turns to the other listing.
    assert_eq!(action, SyncAction::VerifyCredential(credential_b()));
    assert_eq!(worker.pending(), 1);
    let (worker, action) = act(worker, now, SyncEvent::CredentialChecked(true));
    match action {
        SyncAction::FetchPage(_, request) => assert_eq!(request.kind, ResourceKind::Friends),
        other => panic!("unexpected {:?}", other),
    }
    let (worker, action) =
        act(worker, now, SyncEvent::PageFetched(FetchResult::Failed));
    // Only the rate-limited task is left, and it is not ready.
    assert_eq!(action, SyncAction::Sleep(1));
    assert_eq!(worker.phase(), &SyncPhase::PausedInCycle);
    assert_eq!(worker.pending(), 1);
    let mut worker = worker;
    for later in [now + 1, now + 15, now + 29] {
        let (next, action) = act(worker, later, SyncEvent::Woke);
        assert_eq!(action, SyncAction::Sleep(1));
        assert_eq!(next.pending(), 1);
        worker = next;
    }
    let (worker, action) = act(worker, now + 30, SyncEvent::Woke);
    assert_eq!(action, SyncAction::VerifyCredential(credential_b()));
    let (_, action) = act(worker, now + 30, SyncEvent::CredentialChecked(true));
    match action {
        SyncAction::FetchPage(_, request) => {
            assert_eq!(request.kind, ResourceKind::Followers);
            assert_eq!(request.cursor, START_CURSOR);
            assert_eq!(request.account, 2);
        }
        other => panic!("unexpected {:?}", other),
    }
}

#[test]
fn a_page_that_could_not_be_stored_costs_a_pause_of_five_seconds() {
    let (worker, _) = IdSynchronizer::new();
    let (worker, _) = act(worker, 100, SyncEvent::AccountsLoaded(Some(vec![account_b()])));
    let (worker, _) = act(worker, 100, SyncEvent::CredentialChecked(true));
    let (worker, _) = act(
        worker,
        100,
        SyncEvent::PageFetched(FetchResult::Page { ids: vec![1], next_cursor: 33 }),
    );
    let (worker, action) = act(worker, 100, SyncEvent::Persisted(false));
    assert_eq!(action, SyncAction::Sleep(5));
    assert_eq!(worker.phase(), &SyncPhase::PausedInCycle);
    // The task was settled all the same: it goes on from the next cursor.
    assert_eq!(worker.pending(), 2);
    let (worker, action) = act(worker, 105, SyncEvent::Woke);
    assert_eq!(action, SyncAction::VerifyCredential(credential_b()));
    let (_, action) = act(worker, 105, SyncEvent::CredentialChecked(true));
    match action {
        SyncAction::FetchPage(_, request) => assert_eq!(request.kind, ResourceKind::Friends),
        other => panic!("unexpected {:?}", other),
    }
}

#[test]
fn a_requeued_page_is_ready_at_the_time_it_was_settled() {
    let (worker, _) = IdSynchronizer::new();
    let one = User { id: 1, access_key: "k".to_string(), access_secret: "s".to_string() };
    let (worker, _) = act(worker, 100, SyncEvent::AccountsLoaded(Some(vec![one])));
    let (worker, _) = act(worker, 100, SyncEvent::CredentialChecked(true));
    let (worker, _) = act(
        worker,
        200,
        SyncEvent::PageFetched(FetchResult::Page { ids: vec![1], next_cursor: 33 }),
    );
    // The followers task is settled at 250 and is ready again from then on;
    // the friends task, ready since 100, runs first.
    let (worker, _) = act(worker, 250, SyncEvent::Persisted(true));
    let (worker, action) = act(worker, 250, SyncEvent::CredentialChecked(false));
    assert_eq!(action, SyncAction::VerifyCredential(Credential {
        access_key: "k".to_string(),
        access_secret: "s".to_string(),
    }));
    let (worker, action) = act(worker, 250, SyncEvent::CredentialChecked(true));
    match action {
        SyncAction::FetchPage(_, request) => assert_eq!(request.cursor, 33),
        other => panic!("unexpected {:?}", other),
    }
    let (worker, action) =
        act(worker, 250, SyncEvent::PageFetched(FetchResult::RateLimited(300)));
    assert_eq!(action, SyncAction::Sleep(1));
    let (_, action) = act(worker, 299, SyncEvent::Woke);
    assert_eq!(action, SyncAction::Sleep(1));
}
