use personal_mail_client::accounts::AccountMap;
use personal_mail_client::providers::ProviderError;
use personal_mail_client::remote_delete::{
    accept_uids, clear_pending_many, compute_backoff, empty_metrics_response, export_history,
    is_rate_limit_error, mode_override, pending_count, permanent_failure_wording, plan_retries,
    provider_error_to_message, rate_limit_wording, rate_window, register_pending, report_batch,
    requeue_report, retry_uids, set_mode_override, should_retry_remote_error, success_updates,
    BatchMode, BatchRecord, BatchReport, FailureAction, MetricsState, ModeOverride, PendingRow,
    PendingUids, RateWindow, RemoteDeleteMetricsHistoryEntry, RemoteDeleteUpdate, WorkerState,
    BACKOFF_MAX_SECS, BATCH_DEBOUNCE_MS, MAX_BATCH_SIZE, METRICS_HISTORY_LIMIT, MIN_BATCH_SIZE,
    RECONCILE_FETCH_LIMIT, RECONCILE_INTERVAL_SECS, REMOTE_DELETE_ENQUEUED_EVENT,
    REMOTE_DELETE_EVENT, REMOTE_DELETE_METRICS_EVENT, SINGLE_DELETE_DELAY_MS,
};

fn strings(items: &[&str]) -> Vec<String> {
    items.iter().map(|s| s.to_string()).collect()
}

fn uid_range(from: u32, to: u32) -> Vec<String> {
    (from..=to).map(|u| u.to_string()).collect()
}

#[test]
fn constants_of_the_queue() {
    assert_eq!(MAX_BATCH_SIZE, 15);
    assert_eq!(MIN_BATCH_SIZE, 1);
    assert_eq!(BATCH_DEBOUNCE_MS, 150);
    assert_eq!(SINGLE_DELETE_DELAY_MS, 200);
    assert_eq!(RECONCILE_INTERVAL_SECS, 45);
    assert_eq!(RECONCILE_FETCH_LIMIT, 150);
    assert_eq!(METRICS_HISTORY_LIMIT, 360);
    assert_eq!(BACKOFF_MAX_SECS, 120);
    assert_eq!(REMOTE_DELETE_EVENT, "remote-delete-status");
    assert_eq!(REMOTE_DELETE_ENQUEUED_EVENT, "remote-delete-queued");
    assert_eq!(REMOTE_DELETE_METRICS_EVENT, "remote-delete-metrics");
    assert_eq!(ModeOverride::Auto.as_str(), "auto");
    assert_eq!(ModeOverride::ForceBatch.as_str(), "force-batch");
}

#[test]
fn backoff_doubles_up_to_the_sixth_failure() {
    assert_eq!(compute_backoff(0), 1);
    assert_eq!(compute_backoff(1), 2);
    assert_eq!(compute_backoff(2), 4);
    assert_eq!(compute_backoff(3), 8);
    assert_eq!(compute_backoff(4), 16);
    assert_eq!(compute_backoff(5), 32);
    assert_eq!(compute_backoff(6), 64);
    assert_eq!(compute_backoff(7), 64);
    assert_eq!(compute_backoff(u32::MAX), 64);
}

#[test]
fn backoff_never_shrinks_and_never_passes_the_maximum() {
    let mut previous = 0;
    for n in 0..40 {
        let secs = compute_backoff(n);
        assert!(secs >= previous);
        assert!(secs <= BACKOFF_MAX_SECS);
        previous = secs;
    }
}

#[test]
fn rate_limit_is_read_from_the_words_of_the_error() {
    for message in [
        "Rate limit exceeded",
        "TOO MANY simultaneous connections",
        "Service Temporarily down",
        "server unavailable",
        "server busy, try again later",
    ] {
        assert!(is_rate_limit_error(&ProviderError::Imap(message.to_string())), "{}", message);
        assert!(is_rate_limit_error(&ProviderError::Network(message.to_string())));
        assert!(is_rate_limit_error(&ProviderError::Other(message.to_string())));
        assert!(!is_rate_limit_error(&ProviderError::Authentication(message.to_string())));
    }
    assert!(!is_rate_limit_error(&ProviderError::Imap("NO mailbox does not exist".to_string())));
    assert!(!is_rate_limit_error(&ProviderError::Imap(String::new())));
    assert!(rate_limit_wording("moderate"));
    assert!(!rate_limit_wording("Rate"));
}

#[test]
fn permanent_errors_are_not_retried() {
    assert!(should_retry_remote_error(&None));
    assert!(should_retry_remote_error(&Some("IMAP error: connection reset".to_string())));
    for message in ["No such message", "UID not found", "Already Expunged", "Invalid UID 17"] {
        assert!(!should_retry_remote_error(&Some(message.to_string())), "{}", message);
    }
    assert!(permanent_failure_wording("not found"));
    assert!(!permanent_failure_wording("Not Found"));
}

#[test]
fn provider_error_messages_for_the_user() {
    assert_eq!(provider_error_to_message(ProviderError::Authentication("bad".to_string())), "bad");
    assert_eq!(
        provider_error_to_message(ProviderError::Network("down".to_string())),
        "Network error: down"
    );
    assert_eq!(provider_error_to_message(ProviderError::Imap("NO".to_string())), "IMAP error: NO");
    assert_eq!(provider_error_to_message(ProviderError::Other("odd".to_string())), "odd");
}

#[test]
fn worker_starts_with_the_largest_batch() {
    let worker = WorkerState::new();
    assert_eq!(worker.current_batch_size(), 15);
    assert_eq!(worker.consecutive_failures(), 0);
    assert!(worker.wants_more(14));
    assert!(!worker.wants_more(15));
}

#[test]
fn delete_batch_rate_limit_falls_back_to_single_deletes() {
    let mut worker = WorkerState::new();
    let error = ProviderError::Imap("server busy, try again later".to_string());
    let rate_limited = is_rate_limit_error(&error);
    assert!(rate_limited);
    let plan = worker.on_batch_failure(rate_limited, ModeOverride::Auto);
    assert_eq!(plan.action, FailureAction::SingleDeletes);
    assert_eq!(plan.single_spacing_ms, 200);
    assert_eq!(plan.cooldown_secs, Some(1));
    assert_eq!(worker.current_batch_size(), 11);
    assert_eq!(worker.consecutive_failures(), 1);

    let uids = uid_range(1001, 1015);
    let all_deleted: Vec<RemoteDeleteUpdate> =
        uids.iter().map(|uid| RemoteDeleteUpdate::from_outcome(uid, Ok(()), 1700)).collect();
    let report = report_batch(&all_deleted, true, true, 15);
    assert_eq!(report.mode.as_str(), "single");
    assert_eq!(report, BatchReport { mode: BatchMode::Single, batch_size: 1, processed: 15, failed: 0 });

    let all_failed: Vec<RemoteDeleteUpdate> = uids
        .iter()
        .map(|uid| {
            RemoteDeleteUpdate::from_outcome(uid, Err(ProviderError::Imap("busy".to_string())), 1700)
        })
        .collect();
    let report = report_batch(&all_failed, true, true, 15);
    assert_eq!(report.mode.as_str(), "single-failed");
    assert_eq!(report.processed, 0);
    assert_eq!(report.failed, 15);
    assert_eq!(all_failed[0].remote_error.as_deref(), Some("IMAP error: busy"));
    assert_eq!(all_failed[0].remote_deleted_at, None);
}

#[test]
fn force_batch_requeues_the_whole_batch() {
    let mut worker = WorkerState::new();
    let plan = worker.on_batch_failure(true, ModeOverride::ForceBatch);
    assert_eq!(plan.action, FailureAction::RequeueBatch);
    assert_eq!(plan.single_spacing_ms, 0);
    assert_eq!(plan.cooldown_secs, Some(1));
    assert_eq!(worker.current_batch_size(), 11);
    let report = requeue_report(worker.current_batch_size());
    assert_eq!(report.mode.as_str(), "batch-rate-limit");
    assert_eq!(report.processed, 0);
    assert_eq!(report.failed, 0);
    assert_eq!(report.batch_size, 11);
}

#[test]
fn failure_without_rate_limit_arms_no_cooldown() {
    let mut worker = WorkerState::new();
    let plan = worker.on_batch_failure(false, ModeOverride::ForceBatch);
    assert_eq!(plan.action, FailureAction::SingleDeletes);
    assert_eq!(plan.cooldown_secs, None);
    assert_eq!(plan.single_spacing_ms, 0);
}

#[test]
fn batch_size_moves_in_steps_of_four_within_its_bounds() {
    let mut worker = WorkerState::new();
    let mut sizes = Vec::new();
    for _ in 0..5 {
        worker.on_batch_failure(false, ModeOverride::Auto);
        sizes.push(worker.current_batch_size());
    }
    assert_eq!(sizes, vec![11, 7, 3, 1, 1]);
    assert_eq!(worker.consecutive_failures(), 5);
    let mut sizes = Vec::new();
    for _ in 0..5 {
        worker.on_batch_success();
        sizes.push(worker.current_batch_size());
    }
    assert_eq!(sizes, vec![5, 9, 13, 15, 15]);
    assert_eq!(worker.consecutive_failures(), 0);
}

#[test]
fn accepted_batch_reports_one_update_per_uid() {
    let uids = uid_range(1001, 1015);
    let updates = success_updates(&uids, 1_700_000_000);
    assert_eq!(updates.len(), 15);
    for (update, uid) in updates.iter().zip(uids.iter()) {
        assert_eq!(&update.uid, uid);
        assert_eq!(update.remote_deleted_at, Some(1_700_000_000));
        assert_eq!(update.remote_error, None);
    }
    let report = report_batch(&updates, false, false, 15);
    assert_eq!(report, BatchReport { mode: BatchMode::Batch, batch_size: 15, processed: 15, failed: 0 });
}

#[test]
fn accepted_batch_reports_every_uid_in_order() {
    let uids = strings(&["3", "1", "2"]);
    let updates = success_updates(&uids, 5);
    let kept: Vec<&str> = updates.iter().map(|u| u.uid.as_str()).collect();
    assert_eq!(kept, vec!["3", "1", "2"]);
    assert!(updates.iter().all(|u| u.remote_deleted_at == Some(5) && u.remote_error.is_none()));
    assert!(success_updates(&Vec::new(), 5).is_empty());
    let single = success_updates(&strings(&["9"]), 7);
    assert_eq!(single.len(), 1);
    let report = report_batch(&single, false, false, 1);
    assert_eq!(report, BatchReport { mode: BatchMode::Single, batch_size: 1, processed: 1, failed: 0 });
}

#[test]
fn cooldown_grows_with_the_failures_that_came_before() {
    let mut worker = WorkerState::new();
    let mut cooldowns = Vec::new();
    for _ in 0..9 {
        cooldowns.push(worker.on_batch_failure(true, ModeOverride::ForceBatch).cooldown_secs);
    }
    let expected: Vec<Option<u64>> =
        [1, 2, 4, 8, 16, 32, 64, 64, 64].iter().map(|secs| Some(*secs)).collect();
    assert_eq!(cooldowns, expected);
    worker.on_batch_success();
    assert_eq!(worker.on_batch_failure(true, ModeOverride::Auto).cooldown_secs, Some(1));
}

#[test]
fn update_constructors_keep_deleted_and_error_apart() {
    let deleted = RemoteDeleteUpdate::deleted("7".to_string(), 99);
    assert_eq!(deleted.remote_deleted_at, Some(99));
    assert_eq!(deleted.remote_error, None);
    let failed = RemoteDeleteUpdate::failed("7".to_string(), "gone".to_string());
    assert_eq!(failed.remote_deleted_at, None);
    assert_eq!(failed.remote_error.as_deref(), Some("gone"));
    let auth = RemoteDeleteUpdate::from_outcome(
        "8",
        Err(ProviderError::Authentication("denied".to_string())),
        1,
    );
    assert_eq!(auth.remote_error.as_deref(), Some("denied"));
}

#[test]
fn batch_modes_follow_the_outcome() {
    let ok = |uid: &str| RemoteDeleteUpdate::deleted(uid.to_string(), 1);
    let bad = |uid: &str| RemoteDeleteUpdate::failed(uid.to_string(), "x".to_string());
    let mode = |updates: Vec<RemoteDeleteUpdate>, single: bool, rate: bool, executed: usize| {
        let report = report_batch(&updates, single, rate, executed);
        (report.mode, report.batch_size)
    };
    assert_eq!(mode(vec![ok("1"), ok("2")], true, false, 2), (BatchMode::Single, 1));
    assert_eq!(mode(vec![ok("1"), bad("2")], true, false, 2), (BatchMode::SingleMixed, 1));
    assert_eq!(mode(vec![bad("1"), bad("2")], true, false, 2), (BatchMode::SingleFailed, 1));
    assert_eq!(mode(vec![ok("1"), ok("2")], false, false, 2), (BatchMode::Batch, 2));
    assert_eq!(mode(vec![ok("1")], false, false, 3), (BatchMode::Batch, 3));
    assert_eq!(mode(vec![ok("1"), bad("2")], false, false, 2), (BatchMode::BatchMixed, 2));
    assert_eq!(mode(vec![ok("1")], false, false, 1), (BatchMode::Single, 1));
    assert_eq!(mode(Vec::new(), false, true, 1), (BatchMode::BatchRateLimit, 1));
    assert_eq!(mode(vec![bad("1")], false, false, 1), (BatchMode::SingleFailed, 1));
    assert_eq!(mode(Vec::new(), false, false, 1), (BatchMode::Idle, 1));
    assert_eq!(mode(Vec::new(), false, false, 0), (BatchMode::Idle, 0));
    assert_eq!(BatchMode::BatchMixed.as_str(), "batch-mixed");
    assert_eq!(BatchMode::SingleMixed.as_str(), "single-mixed");
    assert_eq!(BatchMode::Idle.as_str(), "idle");
}

#[test]
fn blank_uids_are_not_accepted() {
    let uids = strings(&["1001", "  ", "", "1002", "\t"]);
    assert_eq!(accept_uids(&uids), vec!["1001", "1002"]);
    assert!(accept_uids(&Vec::new()).is_empty());
}

#[test]
fn pending_set_absorbs_duplicates() {
    let mut set = PendingUids::new();
    assert!(set.is_empty());
    let added = set.register(&strings(&["1", "2", "1", "3"]));
    assert_eq!(added, vec!["1", "2", "3"]);
    assert_eq!(set.len(), 3);
    let again = set.register(&strings(&["2", "4", "4"]));
    assert_eq!(again, vec!["4"]);
    assert_eq!(set.len(), 4);
    assert!(set.contains("4"));
    assert!(!set.insert("4"));
    assert!(set.insert("5"));
    set.clear_many(&strings(&["1", "2", "9"]));
    assert_eq!(set.len(), 3);
    assert!(!set.contains("1"));
    set.remove("3");
    set.remove("3");
    set.clear_many(&strings(&["4", "5"]));
    assert!(set.is_empty());
}

#[test]
fn pending_registry_is_kept_per_account() {
    let mut pending: AccountMap<PendingUids> = AccountMap::new();
    assert_eq!(pending_count(&pending, "a@x"), 0);
    assert_eq!(register_pending(&mut pending, "a@x", &strings(&["1", "2"])), vec!["1", "2"]);
    assert_eq!(register_pending(&mut pending, "a@x", &strings(&["2", "3"])), vec!["3"]);
    assert_eq!(register_pending(&mut pending, "b@x", &strings(&["2"])), vec!["2"]);
    assert_eq!(pending_count(&pending, "a@x"), 3);
    assert_eq!(pending_count(&pending, "b@x"), 1);
    clear_pending_many(&mut pending, "a@x", &strings(&["1", "2", "3"]));
    assert_eq!(pending_count(&pending, "a@x"), 0);
    assert!(!pending.contains_key("a@x"));
    assert!(pending.contains_key("b@x"));
    clear_pending_many(&mut pending, "c@x", &strings(&["1"]));
    assert_eq!(pending.len(), 1);
}

#[test]
fn reconciliation_retries_rows_without_permanent_error() {
    let rows = vec![
        PendingRow { uid: "1".to_string(), remote_error: None },
        PendingRow { uid: "2".to_string(), remote_error: Some("Network error: reset".to_string()) },
        PendingRow { uid: "3".to_string(), remote_error: Some("IMAP error: No such message".to_string()) },
        PendingRow { uid: "4".to_string(), remote_error: Some("invalid UID".to_string()) },
    ];
    let steps = plan_retries(&rows);
    let plan: Vec<(&str, bool)> =
        steps.iter().map(|s| (s.uid.as_str(), s.clear_error_first)).collect();
    assert_eq!(plan, vec![("1", false), ("2", true)]);
    assert_eq!(retry_uids(&steps, &vec![false, true]), vec!["1", "2"]);
    assert_eq!(retry_uids(&steps, &vec![false, false]), vec!["1"]);
    assert_eq!(retry_uids(&steps, &Vec::new()), vec!["1"]);
}

fn entry(timestamp: i64, processed: usize) -> RemoteDeleteMetricsHistoryEntry {
    RemoteDeleteMetricsHistoryEntry {
        timestamp,
        processed,
        mode: "batch".to_string(),
        pending: 0,
    }
}

#[test]
fn rate_window_sums_the_trailing_minute() {
    let history = vec![entry(900, 7), entry(939, 100), entry(940, 10), entry(970, 5), entry(1000, 15)];
    assert_eq!(rate_window(&history, 1000), RateWindow { processed: 30, elapsed_secs: 60 });
    assert_eq!(rate_window(&history, 1031), RateWindow { processed: 15, elapsed_secs: 31 });
    assert_eq!(rate_window(&history, 2000), RateWindow { processed: 0, elapsed_secs: 1 });
    assert_eq!(rate_window(&Vec::new(), 5), RateWindow { processed: 0, elapsed_secs: 1 });
    assert_eq!(rate_window(&vec![entry(1000, 15)], 1000), RateWindow { processed: 15, elapsed_secs: 1 });
    let interrupted = vec![entry(990, 1), entry(100, 2), entry(995, 4)];
    assert_eq!(rate_window(&interrupted, 1000), RateWindow { processed: 4, elapsed_secs: 5 });
}

fn record(timestamp: i64, processed: usize) -> BatchRecord {
    BatchRecord {
        timestamp,
        report: BatchReport { mode: BatchMode::Batch, batch_size: 15, processed, failed: 1 },
        pending: 3,
        total_pending: None,
        override_mode: ModeOverride::ForceBatch,
    }
}

#[test]
fn metrics_record_the_batch_and_its_snapshot() {
    let mut state = MetricsState::new();
    let first = state.record("user@example.com", record(1000, 15));
    assert_eq!(first.account_email, "user@example.com");
    assert_eq!(first.history.len(), 1);
    assert_eq!(first.latest.mode, "batch");
    assert_eq!(first.latest.batch_size, 15);
    assert_eq!(first.latest.processed, 15);
    assert_eq!(first.latest.failed, 1);
    assert_eq!(first.latest.pending, 3);
    assert_eq!(first.latest.total_pending, 3);
    assert_eq!(first.latest.override_mode, "force-batch");
    assert_eq!(first.latest.rate, RateWindow { processed: 15, elapsed_secs: 1 });

    let mut batch = record(1030, 5);
    batch.total_pending = Some(40);
    let second = state.record("user@example.com", batch);
    assert_eq!(second.history.len(), 2);
    assert_eq!(second.history[0].timestamp, 1000);
    assert_eq!(second.history[1].processed, 5);
    assert_eq!(second.latest.total_pending, 40);
    assert_eq!(second.latest.rate, RateWindow { processed: 20, elapsed_secs: 30 });

    let response = state.metrics_response("user@example.com", 5000);
    assert_eq!(response.latest.timestamp, 1030);
    assert_eq!(response.history.len(), 2);
    let live = response.with_pending(9, Some(12));
    assert_eq!(live.latest.pending, 9);
    assert_eq!(live.latest.total_pending, 12);
    let kept = state.metrics_response("user@example.com", 5000).with_pending(1, None);
    assert_eq!(kept.latest.total_pending, 40);
}

#[test]
fn metrics_history_keeps_the_newest_three_hundred_and_sixty() {
    let mut state = MetricsState::new();
    for i in 0..400 {
        state.record("user@example.com", record(i, 1));
    }
    let response = state.metrics_response("user@example.com", 400);
    assert_eq!(response.history.len(), 360);
    assert_eq!(response.history[0].timestamp, 40);
    assert_eq!(response.history[359].timestamp, 399);
    assert_eq!(export_history(&response.history).len(), 360);
}

#[test]
fn metrics_of_an_unknown_account_are_idle() {
    let state = MetricsState::new();
    let response = state.metrics_response("new@example.com", 77);
    assert_eq!(response.latest.mode, "idle");
    assert_eq!(response.latest.timestamp, 77);
    assert_eq!(response.latest.override_mode, "auto");
    assert_eq!(response.latest.batch_size, 0);
    assert!(response.history.is_empty());
    let empty = empty_metrics_response("new@example.com", 78);
    assert_eq!(empty.account_email, "new@example.com");
    assert_eq!(empty.latest.mode, "idle");
    assert_eq!(empty.latest.rate, RateWindow { processed: 0, elapsed_secs: 1 });
}

#[test]
fn mode_override_is_auto_unless_forced() {
    let mut overrides: AccountMap<ModeOverride> = AccountMap::new();
    assert_eq!(mode_override(&overrides, "a@x"), ModeOverride::Auto);
    set_mode_override(&mut overrides, "a@x", ModeOverride::ForceBatch);
    assert_eq!(mode_override(&overrides, "a@x"), ModeOverride::ForceBatch);
    assert_eq!(mode_override(&overrides, "b@x"), ModeOverride::Auto);
    set_mode_override(&mut overrides, "a@x", ModeOverride::Auto);
    assert_eq!(mode_override(&overrides, "a@x"), ModeOverride::Auto);
    assert_eq!(overrides.len(), 0);
}
