use personal_mail_client::models::{Credentials, EmailSummary, MailAddress, Provider};
use personal_mail_client::providers::imap::{
    batch_result, body_snippet, build_envelopes, build_summaries, decode_bytes, dedup_sorted,
    extract_body_snippet, extract_flags, fetched_uids, plan_batches, primary_address,
    range_query, recent_sequence_range, sender_query, senders_to_move, sort_newest_first,
    sort_uids, summarize_fetch, uid_ranges, uid_set_query, uids_above, window_query, DayRange,
    FetchedAddress, FetchedEnvelope, FetchedItem, MessageFlag, SyncWindow, WindowOutcome,
    WindowQuery, WindowSearch, MAX_UIDS_PER_SEARCH,
};
use personal_mail_client::providers::{
    chunk_size, recent_limit, ProviderError, SessionStep,
};

const DAY_2020: i32 = 737425;
const DAY_2024: i32 = 738886;

fn bytes(s: &str) -> Option<Vec<u8>> {
    Some(s.as_bytes().to_vec())
}

fn item(uid: Option<u32>, subject: &str, from: &str, date: Option<&str>) -> FetchedItem {
    let (mailbox, host) = from.split_once('@').unwrap_or((from, ""));
    FetchedItem {
        uid,
        envelope: Some(FetchedEnvelope {
            subject: bytes(subject),
            from: Some(vec![FetchedAddress {
                name: bytes("Sender Name"),
                mailbox: bytes(mailbox),
                host: bytes(host),
            }]),
            date: bytes("Mon, 1 Jan 2024 10:00:00 +0000"),
        }),
        internal_date: date.map(|d| d.to_string()),
        body: None,
        flags: Vec::new(),
    }
}

#[test]
fn clamp_limit_to_bounds() {
    let credentials = Credentials::new(
        Provider::Gmail,
        "user@example.com".to_string(),
        "secret".to_string(),
        None,
        None,
    );
    assert_eq!(credentials.email, "user@example.com");
    let result = recent_limit(0);
    assert!(matches!(result, Err(ProviderError::Other(_))));
}

#[test]
fn recent_limit_is_cut_down_to_two_hundred() {
    assert!(matches!(recent_limit(1), Ok(1)));
    assert!(matches!(recent_limit(25), Ok(25)));
    assert!(matches!(recent_limit(200), Ok(200)));
    assert!(matches!(recent_limit(201), Ok(200)));
    assert!(matches!(recent_limit(usize::MAX), Ok(200)));
    match recent_limit(0) {
        Err(ProviderError::Other(message)) => {
            assert_eq!(message, "limit must be greater than zero")
        }
        _ => panic!("a limit of zero must be refused"),
    }
}

#[test]
fn chunk_size_is_held_within_its_bounds() {
    assert_eq!(chunk_size(0), 50);
    assert_eq!(chunk_size(49), 50);
    assert_eq!(chunk_size(50), 50);
    assert_eq!(chunk_size(500), 500);
    assert_eq!(chunk_size(1000), 1000);
    assert_eq!(chunk_size(1001), 1000);
}

#[test]
fn provider_errors_are_classified_by_the_step_that_failed() {
    assert!(matches!(
        ProviderError::at_step(SessionStep::Connect, "refused".to_string()),
        ProviderError::Network(m) if m == "refused"
    ));
    assert!(matches!(
        ProviderError::at_step(SessionStep::Authenticate, "bad password".to_string()),
        ProviderError::Authentication(m) if m == "bad password"
    ));
    assert!(matches!(
        ProviderError::at_step(SessionStep::Command, "NO".to_string()),
        ProviderError::Imap(m) if m == "NO"
    ));
    assert!(matches!(
        ProviderError::at_step(SessionStep::Surrounding, "closed".to_string()),
        ProviderError::Other(m) if m == "closed"
    ));
    assert!(matches!(
        ProviderError::background_failure("panicked"),
        ProviderError::Other(m) if m == "Background task failure: panicked"
    ));
}

#[test]
fn provider_errors_describe_themselves() {
    assert_eq!(
        ProviderError::Authentication("x".to_string()).describe(),
        "authentication failed: x"
    );
    assert_eq!(ProviderError::Network("x".to_string()).describe(), "network error: x");
    assert_eq!(ProviderError::Imap("x".to_string()).describe(), "imap error: x");
    assert_eq!(ProviderError::Other("x".to_string()).describe(), "unexpected provider error: x");
}

#[test]
fn recent_sequence_range_takes_the_tail_of_the_mailbox() {
    assert_eq!(recent_sequence_range(0, 25), None);
    assert_eq!(recent_sequence_range(10, 0), None);
    assert_eq!(recent_sequence_range(10, 25), Some((1, 10)));
    assert_eq!(recent_sequence_range(25, 25), Some((1, 25)));
    assert_eq!(recent_sequence_range(100, 25), Some((76, 100)));
    assert_eq!(recent_sequence_range(1000, 200), Some((801, 1000)));
    assert_eq!(recent_sequence_range(u32::MAX, 1), Some((u32::MAX, u32::MAX)));
}

#[test]
fn queries_are_written_as_the_server_reads_them() {
    assert_eq!(range_query(76, 100), "76:100");
    assert_eq!(range_query(1, 10000), "1:10000");
    assert_eq!(uid_set_query(&vec![40, 50]), "40,50");
    assert_eq!(uid_set_query(&vec![7]), "7");
    assert_eq!(uid_set_query(&Vec::new()), "");
    assert_eq!(sender_query("spam@example.com"), "FROM \"spam@example.com\"");
}

#[test]
fn sort_uids_orders_and_keeps_every_uid() {
    assert_eq!(sort_uids(&vec![30, 10, 20, 10]), vec![10, 10, 20, 30]);
    assert_eq!(sort_uids(&Vec::new()), Vec::<u32>::new());
    assert_eq!(sort_uids(&vec![5, 4, 3, 2, 1]), vec![1, 2, 3, 4, 5]);
    assert_eq!(dedup_sorted(&vec![10, 10, 20, 30, 30, 30]), vec![10, 20, 30]);
    assert_eq!(dedup_sorted(&Vec::new()), Vec::<u32>::new());
}

#[test]
fn uids_above_drops_the_watermark_and_below() {
    assert_eq!(uids_above(&vec![10, 20, 30, 40, 50], Some(30)), vec![40, 50]);
    assert_eq!(uids_above(&vec![10, 20], None), vec![10, 20]);
    assert_eq!(uids_above(&vec![10, 20], Some(20)), Vec::<u32>::new());
}

#[test]
fn uid_ranges_cover_the_mailbox_in_steps_of_ten_thousand() {
    assert!(uid_ranges(0).is_empty());
    assert!(uid_ranges(1).is_empty());
    assert_eq!(uid_ranges(2), vec![(1, 1)]);
    assert_eq!(uid_ranges(10001), vec![(1, 10000)]);
    assert_eq!(uid_ranges(10002), vec![(1, 10000), (10001, 10001)]);
    assert_eq!(uid_ranges(25000), vec![(1, 10000), (10001, 20000), (20001, 24999)]);
    let all = uid_ranges(u32::MAX);
    assert_eq!(all.first(), Some(&(1, 10000)));
    assert_eq!(all.last().map(|r| r.1), Some(u32::MAX - 1));
}

#[test]
fn batches_are_numbered_from_one_without_gap() {
    let uids: Vec<u32> = (1..=230).rev().collect();
    let batches = plan_batches(&uids, None, 100);
    assert_eq!(batches.len(), 3);
    for (i, batch) in batches.iter().enumerate() {
        assert_eq!(batch.index, i + 1);
        assert_eq!(batch.total, 3);
    }
    assert_eq!(batches[0].uids, (1..=100).collect::<Vec<u32>>());
    assert_eq!(batches[1].uids, (101..=200).collect::<Vec<u32>>());
    assert_eq!(batches[2].uids, (201..=230).collect::<Vec<u32>>());
}

#[test]
fn batch_chunks_are_clamped_and_exact_multiples_leave_no_rest() {
    let uids: Vec<u32> = (1..=100).collect();
    let small = plan_batches(&uids, None, 1);
    assert_eq!(small.len(), 2);
    assert_eq!(small[0].uids.len(), 50);
    assert_eq!(small[1].uids.len(), 50);
    let large: Vec<u32> = (1..=1500).collect();
    let capped = plan_batches(&large, None, 5000);
    assert_eq!(capped.len(), 2);
    assert_eq!(capped[0].uids.len(), 1000);
    assert_eq!(capped[1].uids.len(), 500);
}

#[test]
fn empty_mailbox_plans_no_batch() {
    assert!(uid_ranges(1).is_empty());
    assert!(plan_batches(&Vec::new(), None, 50).is_empty());
    assert!(plan_batches(&vec![10, 20, 30], Some(30), 50).is_empty());
}

#[test]
fn incremental_sync_skips_old_uids() {
    let batches = plan_batches(&vec![50, 10, 40, 20, 30], Some(30), 50);
    assert_eq!(batches.len(), 1);
    assert_eq!(batches[0].index, 1);
    assert_eq!(batches[0].total, 1);
    assert_eq!(batches[0].uids, vec![40, 50]);
    let items = vec![
        item(Some(40), "forty", "a@example.com", None),
        item(Some(50), "fifty", "b@example.com", None),
    ];
    let result = batch_result(&batches[0], build_envelopes(&items));
    assert_eq!(result.index, 1);
    assert_eq!(result.total, 1);
    assert_eq!(result.requested, 2);
    assert_eq!(result.fetched, 2);
    assert_eq!(result.messages[0].summary.uid, "40");
    assert_eq!(result.messages[1].summary.uid, "50");
}

#[test]
fn window_queries_print_imap_dates() {
    let between = WindowQuery::Between(DayRange { start: DAY_2020, end: DAY_2024 });
    assert_eq!(window_query(between).as_deref(), Some("SINCE 01-Jan-2020 BEFORE 01-Jan-2024"));
    assert_eq!(window_query(WindowQuery::Since(DAY_2020 + 45)).as_deref(), Some("SINCE 15-Feb-2020"));
    assert_eq!(window_query(WindowQuery::Since(i32::MAX)), None);
    assert_eq!(
        window_query(WindowQuery::Between(DayRange { start: i32::MIN, end: DAY_2020 })),
        None
    );
}

#[test]
fn window_search_without_end_issues_one_search() {
    let mut search = WindowSearch::new(SyncWindow { since: DAY_2020, before: None });
    assert_eq!(search.next_query(), Some(WindowQuery::Since(DAY_2020)));
    let uids: Vec<u32> = (1..=1200).collect();
    assert_eq!(
        search.record(WindowQuery::Since(DAY_2020), &uids),
        WindowOutcome::Kept { capped: true }
    );
    assert_eq!(search.next_query(), None);
    assert_eq!(search.finish().len(), 1200);
}

#[test]
fn window_search_splits_a_capped_range_in_two_halves() {
    let range = DayRange { start: DAY_2020, end: DAY_2020 + 10 };
    let mut search = WindowSearch::new(SyncWindow { since: range.start, before: Some(range.end) });
    let query = search.next_query();
    assert_eq!(query, Some(WindowQuery::Between(range)));
    let capped: Vec<u32> = (1..=MAX_UIDS_PER_SEARCH as u32).collect();
    let first = DayRange { start: DAY_2020, end: DAY_2020 + 5 };
    let second = DayRange { start: DAY_2020 + 5, end: DAY_2020 + 10 };
    assert_eq!(
        search.record(WindowQuery::Between(range), &capped),
        WindowOutcome::Split { first, second }
    );
    assert_eq!(search.next_query(), Some(WindowQuery::Between(first)));
    assert_eq!(
        search.record(WindowQuery::Between(first), &vec![3, 1, 2]),
        WindowOutcome::Kept { capped: false }
    );
    assert_eq!(search.next_query(), Some(WindowQuery::Between(second)));
    assert_eq!(
        search.record(WindowQuery::Between(second), &vec![2, 9]),
        WindowOutcome::Kept { capped: false }
    );
    assert_eq!(search.next_query(), None);
    assert_eq!(search.finish(), vec![1, 2, 3, 9]);
}

#[test]
fn window_search_keeps_a_capped_result_of_a_single_day() {
    let range = DayRange { start: DAY_2020, end: DAY_2020 + 1 };
    let mut search = WindowSearch::new(SyncWindow { since: range.start, before: Some(range.end) });
    assert_eq!(search.next_query(), Some(WindowQuery::Between(range)));
    let capped: Vec<u32> = (1..=900).collect();
    assert_eq!(
        search.record(WindowQuery::Between(range), &capped),
        WindowOutcome::Kept { capped: true }
    );
    assert_eq!(search.next_query(), None);
    assert_eq!(search.finish().len(), 900);
}

#[test]
fn window_search_passes_over_empty_ranges() {
    let mut search =
        WindowSearch::new(SyncWindow { since: DAY_2024, before: Some(DAY_2020) });
    assert_eq!(search.next_query(), None);
    assert!(search.finish().is_empty());
}

#[test]
fn windowed_enumeration_bisects_until_every_uid_is_found() {
    let span = (DAY_2024 - DAY_2020) as u64;
    let messages: Vec<(u32, i32)> = (0..2000u64)
        .map(|k| (k as u32 + 1, DAY_2020 + (k * span / 2000) as i32))
        .collect();
    let mut search = WindowSearch::new(SyncWindow { since: DAY_2020, before: Some(DAY_2024) });
    let mut searches = 0;
    let mut splits = 0;
    while let Some(query) = search.next_query() {
        searches += 1;
        let range = match query {
            WindowQuery::Between(range) => range,
            WindowQuery::Since(_) => panic!("a window with an end searches ranges only"),
        };
        let found: Vec<u32> = messages
            .iter()
            .filter(|(_, day)| range.start <= *day && *day < range.end)
            .map(|(uid, _)| *uid)
            .take(900)
            .collect();
        match search.record(query, &found) {
            WindowOutcome::Split { first, second } => {
                splits += 1;
                assert!(found.len() >= 900);
                assert_eq!(first.start, range.start);
                assert_eq!(first.end, second.start);
                assert_eq!(second.end, range.end);
                assert!(first.start < first.end && second.start < second.end);
            }
            WindowOutcome::Kept { capped } => assert!(!capped),
        }
    }
    assert!(searches >= 3);
    assert!(splits >= 1);
    assert_eq!(search.finish(), (1..=2000).collect::<Vec<u32>>());
}

#[test]
fn decode_bytes_is_lenient_and_trims() {
    assert_eq!(decode_bytes(Some(b"  Hello \r\n")), "Hello");
    assert_eq!(decode_bytes(Some(b"")), "");
    assert_eq!(decode_bytes(None), "");
    assert_eq!(decode_bytes(Some(&[0x48, 0x69, 0xff])), "Hi\u{fffd}");
    assert_eq!(decode_bytes(Some("Grüße".as_bytes())), "Grüße");
}

#[test]
fn primary_address_reads_the_first_sender() {
    let list = Some(vec![
        FetchedAddress { name: bytes(" Ann "), mailbox: bytes("ann"), host: bytes("example.com") },
        FetchedAddress { name: bytes("Bob"), mailbox: bytes("bob"), host: bytes("example.com") },
    ]);
    let address = primary_address(&list);
    assert_eq!(address.display_name.as_deref(), Some("Ann"));
    assert_eq!(address.email, "ann@example.com");

    let no_host = Some(vec![FetchedAddress { name: None, mailbox: bytes("ann"), host: None }]);
    let address = primary_address(&no_host);
    assert_eq!(address.display_name, None);
    assert_eq!(address.email, "ann");

    let no_mailbox =
        Some(vec![FetchedAddress { name: None, mailbox: None, host: bytes("example.com") }]);
    assert_eq!(primary_address(&no_mailbox).email, "example.com");

    let name_only = Some(vec![FetchedAddress { name: bytes("Ann"), mailbox: None, host: None }]);
    let address = primary_address(&name_only);
    assert_eq!(address.display_name.as_deref(), Some("Ann"));
    assert_eq!(address.email, "Ann");

    assert_eq!(primary_address(&None).email, "");
    assert_eq!(primary_address(&Some(Vec::new())).email, "");
    assert_eq!(primary_address(&None).display_name, None);
}

#[test]
fn summarize_fetch_prefers_the_internal_date() {
    let with_date = item(Some(42), " Subject ", "ann@example.com", Some("Tue, 2 Jan 2024 08:00:00 +0000"));
    let summary = summarize_fetch(&with_date).expect("a summary");
    assert_eq!(summary.uid, "42");
    assert_eq!(summary.subject, "Subject");
    assert_eq!(summary.sender.email, "ann@example.com");
    assert_eq!(summary.sender.display_name.as_deref(), Some("Sender Name"));
    assert_eq!(summary.date.as_deref(), Some("Tue, 2 Jan 2024 08:00:00 +0000"));

    let envelope_date = item(Some(43), "s", "ann@example.com", None);
    let summary = summarize_fetch(&envelope_date).expect("a summary");
    assert_eq!(summary.date.as_deref(), Some("Mon, 1 Jan 2024 10:00:00 +0000"));

    let mut no_date = item(Some(44), "s", "ann@example.com", None);
    if let Some(envelope) = no_date.envelope.as_mut() {
        envelope.date = bytes("   ");
    }
    assert_eq!(summarize_fetch(&no_date).expect("a summary").date, None);
}

#[test]
fn summarize_fetch_needs_envelope_and_uid() {
    assert!(summarize_fetch(&item(None, "s", "a@b", None)).is_none());
    let mut bare = item(Some(1), "s", "a@b", None);
    bare.envelope = None;
    assert!(summarize_fetch(&bare).is_none());
}

#[test]
fn body_snippet_collapses_whitespace() {
    assert_eq!(body_snippet(b"Hello,\r\n  world!\n\nBye").as_deref(), Some("Hello, world! Bye"));
    assert_eq!(body_snippet(b"  \r\n\t "), None);
    assert_eq!(body_snippet(b""), None);
}

#[test]
fn body_snippet_keeps_eighty_words() {
    let words: Vec<String> =
        (0..100u8).map(|i| ((b'a' + i % 26) as char).to_string()).collect();
    let body = words.join("\n");
    let expected = words[..80].join(" ");
    assert_eq!(body_snippet(body.as_bytes()), Some(expected));
}

#[test]
fn body_snippet_cuts_at_two_hundred_and_eighty_characters() {
    let body = "abcdefghi ".repeat(40);
    let snippet = body_snippet(body.as_bytes()).expect("a snippet");
    assert_eq!(snippet.chars().count(), 281);
    assert!(snippet.ends_with('…'));
    assert_eq!(&snippet[..280], &body[..280]);
    let exact = "a".repeat(280);
    assert_eq!(body_snippet(exact.as_bytes()), Some(exact));
}

#[test]
fn extract_body_snippet_reads_the_body_of_the_item() {
    let mut with_body = item(Some(1), "s", "a@b", None);
    with_body.body = bytes("line one\r\nline two");
    assert_eq!(extract_body_snippet(&with_body).as_deref(), Some("line one line two"));
    assert_eq!(extract_body_snippet(&item(Some(1), "s", "a@b", None)), None);
}

#[test]
fn extract_flags_names_standard_flags_in_lower_case() {
    let mut flagged = item(Some(1), "s", "a@b", None);
    flagged.flags = vec![
        MessageFlag::Seen,
        MessageFlag::Answered,
        MessageFlag::Flagged,
        MessageFlag::Deleted,
        MessageFlag::Draft,
        MessageFlag::Recent,
        MessageFlag::MayCreate,
        MessageFlag::Custom("$Important".to_string()),
    ];
    assert_eq!(
        extract_flags(&flagged),
        vec!["seen", "answered", "flagged", "deleted", "draft", "recent", "may-create", "$Important"]
    );
    assert!(extract_flags(&item(Some(1), "s", "a@b", None)).is_empty());
}

#[test]
fn build_envelopes_passes_over_items_without_summary() {
    let mut first = item(Some(1), "one", "a@example.com", None);
    first.body = bytes("body text");
    first.flags = vec![MessageFlag::Seen];
    let items = vec![first, item(None, "skipped", "b@example.com", None), item(Some(3), "three", "c@example.com", None)];
    let envelopes = build_envelopes(&items);
    assert_eq!(envelopes.len(), 2);
    assert_eq!(envelopes[0].summary.uid, "1");
    assert_eq!(envelopes[0].snippet.as_deref(), Some("body text"));
    assert_eq!(envelopes[0].body.as_deref(), Some("body text".as_bytes()));
    assert_eq!(envelopes[0].flags, vec!["seen"]);
    assert_eq!(envelopes[1].summary.uid, "3");
    assert_eq!(envelopes[1].snippet, None);
    assert_eq!(build_summaries(&items).len(), 2);
    assert_eq!(fetched_uids(&items), vec![1, 3]);
}

fn summary(uid: &str, date: Option<&str>) -> EmailSummary {
    EmailSummary {
        uid: uid.to_string(),
        subject: String::new(),
        sender: MailAddress { display_name: None, email: String::new() },
        date: date.map(|d| d.to_string()),
    }
}

#[test]
fn sort_newest_first_orders_by_date_descending() {
    let list = vec![
        summary("1", Some("2024-01-01")),
        summary("2", None),
        summary("3", Some("2024-03-01")),
        summary("4", Some("2024-01-01")),
        summary("5", Some("2024-02-01")),
    ];
    let sorted = sort_newest_first(&list);
    let order: Vec<&str> = sorted.iter().map(|s| s.uid.as_str()).collect();
    assert_eq!(order, vec!["3", "5", "1", "4", "2"]);
    assert!(sort_newest_first(&Vec::new()).is_empty());
}

#[test]
fn senders_to_move_passes_over_empty_addresses() {
    let senders = vec!["a@x".to_string(), String::new(), "b@x".to_string()];
    assert_eq!(senders_to_move(&senders), vec!["a@x", "b@x"]);
}
