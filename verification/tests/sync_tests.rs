use personal_mail_client::models::{EmailSummary, MailAddress, SyncReport};
use personal_mail_client::providers::imap::{plan_batches, uid_ranges};
use personal_mail_client::providers::MessageEnvelope;
use personal_mail_client::storage::merge_sync_state;
use personal_mail_client::sync::{
    analyze_lowered, analyze_message, batch_records, build_records, parse_uid,
    periodic_interval_secs, summary_records, BatchOutcome, SyncKind, SyncTally,
    CONNECT_FETCH_LIMIT, DEFAULT_SYNC_CHUNK, FULL_SYNC_PROGRESS_EVENT, PERIODIC_FETCH_LIMIT,
};
use personal_mail_client::json::JsonValue;

fn summary(uid: &str, subject: &str, display: Option<&str>) -> EmailSummary {
    EmailSummary {
        uid: uid.to_string(),
        subject: subject.to_string(),
        sender: MailAddress {
            display_name: display.map(|d| d.to_string()),
            email: "ann@example.com".to_string(),
        },
        date: Some("Mon, 1 Jan 2024 10:00:00 +0000".to_string()),
    }
}

fn outcome(index: usize, total: usize, records: usize, stored: bool) -> BatchOutcome {
    BatchOutcome { index, total, records, fetched: records, stored }
}

#[test]
fn quick_analysis_summarizes_the_snippet_or_the_subject() {
    let (summary, _, _) = analyze_message("  Subject line ", Some("  the snippet  "));
    assert_eq!(summary.as_deref(), Some("the snippet"));
    let (summary, _, _) = analyze_message("  Subject line ", Some("   "));
    assert_eq!(summary.as_deref(), Some("Subject line"));
    let (summary, _, _) = analyze_message("  Subject line ", None);
    assert_eq!(summary.as_deref(), Some("Subject line"));
    let (summary, sentiment, categories) = analyze_message("  ", None);
    assert_eq!(summary, None);
    assert_eq!(sentiment, None);
    assert!(categories.is_empty());
    let long = "ä".repeat(250);
    let (summary, _, _) = analyze_message("s", Some(&long));
    assert_eq!(summary, Some(format!("{}…", "ä".repeat(200))));
    let exact = "x".repeat(200);
    let (summary, _, _) = analyze_message("s", Some(&exact));
    assert_eq!(summary, Some(exact));
}

#[test]
fn quick_analysis_scores_the_sentiment() {
    let sentiment = |subject: &str, snippet: Option<&str>| analyze_message(subject, snippet).1;
    assert_eq!(sentiment("Thanks, great success", None).as_deref(), Some("positive"));
    assert_eq!(sentiment("THANK YOU, we appreciate it", None).as_deref(), Some("positive"));
    assert_eq!(sentiment("thanks", None).as_deref(), Some("neutral"));
    assert_eq!(sentiment("Payment failed", Some("an error and a problem")).as_deref(), Some("negative"));
    assert_eq!(sentiment("Urgent issue", None).as_deref(), Some("negative"));
    assert_eq!(sentiment("issue", None).as_deref(), Some("neutral"));
    assert_eq!(sentiment("great success but failed with error", None).as_deref(), Some("neutral"));
    assert_eq!(sentiment("hello", None).as_deref(), Some("neutral"));
    assert_eq!(sentiment("", Some("")), None);
}

#[test]
fn quick_analysis_finds_the_categories_in_alphabetical_order() {
    let categories = |subject: &str| analyze_message(subject, None).2;
    assert_eq!(categories("Your INVOICE and receipt"), vec!["billing"]);
    assert_eq!(categories("Security warning"), vec!["alert"]);
    assert_eq!(categories("Weekly Newsletter"), vec!["newsletter"]);
    assert_eq!(categories("Meeting schedule"), vec!["calendar"]);
    assert_eq!(
        categories("calendar update: payment alert"),
        vec!["alert", "billing", "calendar", "newsletter"]
    );
    assert!(categories("hello").is_empty());
    let (_, sentiment, found) = analyze_lowered("S", None, "invoice thanks great");
    assert_eq!(sentiment.as_deref(), Some("positive"));
    assert_eq!(found, vec!["billing"]);
    let (_, _, found) = analyze_lowered("S", None, "INVOICE");
    assert!(found.is_empty());
}

#[test]
fn records_are_built_from_a_summary() {
    let flags = vec!["seen".to_string(), "flagged".to_string()];
    let (message, analysis) = build_records(
        "user@example.com",
        &summary("42", "Invoice due", Some("Ann")),
        Some("Please pay".to_string()),
        Some(vec![1, 2, 3]),
        Some(&flags),
    );
    assert_eq!(message.account_email, "user@example.com");
    assert_eq!(message.uid, "42");
    assert_eq!(message.sender_display, "Ann");
    assert_eq!(message.sender_email, "ann@example.com");
    assert_eq!(message.subject, "Invoice due");
    assert_eq!(message.date.as_deref(), Some("Mon, 1 Jan 2024 10:00:00 +0000"));
    assert_eq!(message.snippet.as_deref(), Some("Please pay"));
    assert_eq!(message.body, Some(vec![1, 2, 3]));
    assert_eq!(message.flags.as_deref(), Some("seen flagged"));
    assert_eq!(analysis.account_email, "user@example.com");
    assert_eq!(analysis.uid, "42");
    assert_eq!(analysis.summary.as_deref(), Some("Please pay"));
    assert_eq!(analysis.sentiment.as_deref(), Some("neutral"));
    assert_eq!(analysis.categories, vec!["billing"]);
    assert_eq!(analysis.metadata_json, JsonValue::Null);
    assert_eq!(analysis.model_id, None);
    assert!(!analysis.analyzed);
    assert_eq!(analysis.analyzed_at, None);
    assert_eq!(analysis.analysis_confidence, None);
    assert_eq!(analysis.validation.status, None);
}

#[test]
fn records_without_display_name_and_flags() {
    let (message, _) = build_records("u@x", &summary("1", "s", None), None, None, None);
    assert_eq!(message.sender_display, "ann@example.com");
    assert_eq!(message.flags, None);
    assert_eq!(message.snippet, None);
    let empty: Vec<String> = Vec::new();
    let (message, _) = build_records("u@x", &summary("1", "s", None), None, None, Some(&empty));
    assert_eq!(message.flags, None);
}

#[test]
fn records_of_a_batch_keep_their_order() {
    let envelopes = vec![
        MessageEnvelope {
            summary: summary("40", "one", None),
            snippet: Some("snip".to_string()),
            body: Some(vec![9]),
            flags: vec!["seen".to_string()],
        },
        MessageEnvelope { summary: summary("50", "two", None), snippet: None, body: None, flags: Vec::new() },
    ];
    let (messages, analyses) = batch_records("user@example.com", &envelopes);
    assert_eq!(messages.len(), 2);
    assert_eq!(analyses.len(), 2);
    assert_eq!(messages[0].uid, "40");
    assert_eq!(messages[0].flags.as_deref(), Some("seen"));
    assert_eq!(messages[0].body, Some(vec![9]));
    assert_eq!(messages[1].uid, "50");
    assert_eq!(messages[1].flags, None);
    assert_eq!(analyses[1].uid, "50");
    let (messages, analyses) = summary_records("u@x", &vec![summary("1", "a", None), summary("2", "b", None)]);
    assert_eq!(messages.iter().map(|m| m.uid.as_str()).collect::<Vec<_>>(), vec!["1", "2"]);
    assert_eq!(analyses.len(), 2);
}

#[test]
fn empty_mailbox_full_sync() {
    assert!(uid_ranges(1).is_empty());
    assert!(plan_batches(&Vec::new(), None, DEFAULT_SYNC_CHUNK).is_empty());
    let tally = SyncTally::new(SyncKind::Full);
    assert_eq!(tally.report(0), SyncReport { fetched: 0, stored: 0, duration_ms: 0 });
    let state = merge_sync_state(None, "u@example.com", None, tally.is_full(), tally.total_stored, 1_700_000_000);
    assert_eq!(state.last_full_sync, Some(1_700_000_000));
    assert_eq!(state.last_uid, None);
    assert_eq!(state.total_messages, 0);
}

#[test]
fn incremental_sync_counts_the_new_messages() {
    let batches = plan_batches(&vec![10, 20, 30, 40, 50], parse_uid("30"), DEFAULT_SYNC_CHUNK);
    assert_eq!(batches.len(), 1);
    assert_eq!(batches[0].uids, vec![40, 50]);
    let mut tally = SyncTally::new(SyncKind::Incremental);
    let progress = tally
        .record_batch("u@example.com", outcome(batches[0].index, batches[0].total, 2, true), 12)
        .expect("a progress event");
    assert_eq!(progress.email, "u@example.com");
    assert_eq!(progress.batch, 1);
    assert_eq!(progress.total_batches, 1);
    assert_eq!(progress.fetched, 2);
    assert_eq!(progress.stored, 2);
    assert_eq!(progress.elapsed_ms, 12);
    assert_eq!(tally.report(20), SyncReport { fetched: 2, stored: 2, duration_ms: 20 });
    assert!(!tally.is_full());
}

#[test]
fn sync_totals_follow_the_kind_of_sync() {
    let mut full = SyncTally::new(SyncKind::Full);
    assert!(full.record_batch("u", outcome(1, 3, 0, true), 1).is_none());
    assert_eq!(full.total_fetched, 0);
    full.record_batch("u", outcome(1, 3, 50, false), 1);
    assert_eq!((full.total_fetched, full.total_stored), (50, 0));
    full.record_batch("u", outcome(2, 3, 50, true), 2);
    assert_eq!((full.total_fetched, full.total_stored), (100, 100));
    let mut incremental = SyncTally::new(SyncKind::Incremental);
    incremental.record_batch("u", outcome(1, 2, 50, false), 1);
    incremental.record_batch("u", BatchOutcome { index: 2, total: 2, records: 48, fetched: 50, stored: true }, 2);
    assert_eq!((incremental.total_fetched, incremental.total_stored), (98, 50));
    let mut huge = SyncTally::new(SyncKind::Full);
    huge.record_batch("u", outcome(1, 2, usize::MAX, true), 1);
    huge.record_batch("u", outcome(2, 2, 5, true), 1);
    assert_eq!(huge.total_fetched, usize::MAX);
}

#[test]
fn stored_uids_are_read_as_numbers() {
    assert_eq!(parse_uid("30"), Some(30));
    assert_eq!(parse_uid("0"), Some(0));
    assert_eq!(parse_uid("007"), Some(7));
    assert_eq!(parse_uid("+5"), Some(5));
    assert_eq!(parse_uid("4294967295"), Some(u32::MAX));
    assert_eq!(parse_uid("4294967296"), None);
    assert_eq!(parse_uid("99999999999999999999999"), None);
    for bad in ["", "+", "-1", " 1", "1 ", "1a", "a", "1.0", "++1", "１"] {
        assert_eq!(parse_uid(bad), None, "{:?}", bad);
        assert_eq!(parse_uid(bad), bad.parse::<u32>().ok());
    }
}

#[test]
fn periodic_sync_is_off_without_an_interval() {
    assert_eq!(periodic_interval_secs(None), None);
    assert_eq!(periodic_interval_secs(Some(0)), None);
    assert_eq!(periodic_interval_secs(Some(1)), Some(60));
    assert_eq!(periodic_interval_secs(Some(15)), Some(900));
    assert_eq!(periodic_interval_secs(Some(u64::MAX)), Some(u64::MAX));
    assert_eq!(CONNECT_FETCH_LIMIT, 25);
    assert_eq!(PERIODIC_FETCH_LIMIT, 200);
    assert_eq!(DEFAULT_SYNC_CHUNK, 50);
    assert_eq!(FULL_SYNC_PROGRESS_EVENT, "full-sync-progress");
}

#[test]
fn a_batch_that_could_not_be_written_stops_the_sync() {
    let tally = SyncTally::new(SyncKind::Full);
    assert!(tally.must_stop(outcome(2, 5, 50, false)));
    assert!(!tally.must_stop(outcome(2, 5, 50, true)));
    assert!(!tally.must_stop(outcome(2, 5, 0, false)));
    assert!(!tally.must_stop(outcome(2, 5, 0, true)));
    let incremental = SyncTally::new(SyncKind::Incremental);
    assert!(incremental.must_stop(outcome(1, 1, 1, false)));
}
