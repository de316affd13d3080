use personal_mail_client::analysis::{
    choose_parse, clip_text, confidence_source, extract_json_object, first_equal,
    parse_bulk_json, sanitize_enum_value, sanitize_sentiment, sanitize_tags,
    sentiment_from_lowered, split_on, trim_all, value_to_object, value_to_string, value_to_vec,
};
use personal_mail_client::bulk::{
    actionability_list, build_bulk_prompt, default_bulk_tags, finalize_analysis, lifecycle_list,
    normalize_bulk_output, priority_list, render_prompt, risk_list, source_list,
    thread_role_list, BulkProgress, BulkRun, BulkSelection, BulkStage, BulkStatus,
    BULK_ANALYSIS_EVENT, DEFAULT_BULK_COMPLETION_TOKENS, DEFAULT_BULK_SNIPPET_CHARS,
};
use personal_mail_client::json::{parse_json, set_member, JsonValue};
use personal_mail_client::storage::{ExistingAnalysisRecord, MessageForAnalysis};

fn strings(items: &[&str]) -> Vec<String> {
    items.iter().map(|s| s.to_string()).collect()
}

fn text(s: &str) -> JsonValue {
    JsonValue::Text(s.to_string())
}

fn number(s: &str) -> JsonValue {
    JsonValue::Number(s.to_string())
}

fn object(members: Vec<(&str, JsonValue)>) -> JsonValue {
    JsonValue::Object(members.into_iter().map(|(k, v)| (k.to_string(), v)).collect())
}

fn message(id: i64, analyzed: bool) -> MessageForAnalysis {
    MessageForAnalysis {
        message_id: id,
        account_email: "user@example.com".to_string(),
        uid: (1000 + id).to_string(),
        subject: "  Invoice 42  ".to_string(),
        snippet: Some("Please pay the invoice.".to_string()),
        date: Some("Mon, 1 Jan 2024 10:00:00 +0000".to_string()),
        sender_email: "billing@example.com".to_string(),
        sender_display: Some("Billing".to_string()),
        existing_analysis: ExistingAnalysisRecord {
            analyzed,
            analyzed_at: None,
            model_id: None,
            categories: strings(&["old"]),
            metadata: None,
        },
    }
}

#[test]
fn json_documents_are_parsed() {
    assert_eq!(parse_json("null"), Ok(JsonValue::Null));
    assert_eq!(parse_json(" true "), Ok(JsonValue::Bool(true)));
    assert_eq!(parse_json("1.5"), Ok(number("1.5")));
    assert_eq!(parse_json("-7"), Ok(number("-7")));
    assert_eq!(parse_json("\"a\\nb\""), Ok(text("a\nb")));
    assert_eq!(
        parse_json("[1, \"x\", [false]]"),
        Ok(JsonValue::Array(vec![number("1"), text("x"), JsonValue::Array(vec![JsonValue::Bool(false)])]))
    );
    assert_eq!(
        parse_json("{\"b\": 1, \"a\": {\"c\": null}}"),
        Ok(object(vec![("a", object(vec![("c", JsonValue::Null)])), ("b", number("1"))]))
    );
    assert!(parse_json("{").is_err());
    assert!(parse_json("").is_err());
    assert!(parse_json("{} trailing").is_err());
}

#[test]
fn json_members_are_found_and_set() {
    let value = object(vec![("a", number("1")), ("b", text("x"))]);
    assert_eq!(value.get("b"), Some(&text("x")));
    assert_eq!(value.get("c"), None);
    assert_eq!(text("x").get("a"), None);
    assert_eq!(value.duplicate(), value);
    let mut members = vec![("a".to_string(), number("1"))];
    set_member(&mut members, "b", JsonValue::Null);
    set_member(&mut members, "a", number("2"));
    assert_eq!(members, vec![("a".to_string(), number("2")), ("b".to_string(), JsonValue::Null)]);
    assert_eq!(JsonValue::empty_object(), JsonValue::Object(Vec::new()));
    assert_eq!(JsonValue::text_or_null(None), JsonValue::Null);
    assert_eq!(JsonValue::text_or_null(Some("t".to_string())), text("t"));
    assert_eq!(
        JsonValue::text_list(&strings(&["a", "b"])),
        JsonValue::Array(vec![text("a"), text("b")])
    );
}

#[test]
fn clip_text_trims_short_text_and_cuts_long_text() {
    assert_eq!(clip_text("  short  ", 20), "short");
    assert_eq!(clip_text("abcdefghij", 10), "abcdefghij");
    assert_eq!(clip_text("abcdefghijk", 10), "abcdefghi…");
    assert_eq!(clip_text("abc", 0), "…");
    assert_eq!(clip_text("abc", 1), "…");
    assert_eq!(clip_text("", 0), "");
    // the length is counted in bytes, the cut in characters
    assert_eq!(clip_text("ääää", 6), "ääää…");
    assert_eq!(clip_text("ääää", 8), "ääää");
    let long = "x".repeat(400);
    let clipped = clip_text(&long, 320);
    assert_eq!(clipped.chars().count(), 320);
    assert!(clipped.ends_with('…'));
}

#[test]
fn sanitize_enum_value_matches_without_regard_to_case() {
    let allowed = priority_list();
    assert_eq!(sanitize_enum_value(Some(" HIGH "), &allowed).as_deref(), Some("high"));
    assert_eq!(sanitize_enum_value(Some("critical"), &allowed).as_deref(), Some("critical"));
    assert_eq!(sanitize_enum_value(Some("highest"), &allowed), None);
    assert_eq!(sanitize_enum_value(Some("   "), &allowed), None);
    assert_eq!(sanitize_enum_value(Some(""), &allowed), None);
    assert_eq!(sanitize_enum_value(None, &allowed), None);
    assert_eq!(sanitize_enum_value(Some("pii"), &risk_list()).as_deref(), Some("PII"));
    assert_eq!(sanitize_enum_value(Some("x"), &Vec::new()), None);
    assert_eq!(first_equal(&strings(&["a", "b", "a"]), "a"), Some(0));
    assert_eq!(first_equal(&strings(&["a", "b"]), "b"), Some(1));
    assert_eq!(first_equal(&strings(&["a", "b"]), "c"), None);
}

#[test]
fn closed_vocabularies() {
    assert_eq!(priority_list(), vec!["low", "normal", "high", "critical"]);
    assert_eq!(
        actionability_list(),
        vec!["informational", "needs-response", "waiting", "delegate", "auto-archive"]
    );
    assert_eq!(
        risk_list(),
        vec!["none", "sensitive", "financial", "PII", "security-critical", "phishing-suspect"]
    );
    assert_eq!(source_list(), vec!["human", "automated system", "bot/no-reply"]);
    assert_eq!(thread_role_list(), vec!["new thread", "reply", "forward", "digest"]);
    assert_eq!(lifecycle_list(), vec!["new", "snoozed", "pending", "done", "archived"]);
    let tags = default_bulk_tags();
    assert_eq!(tags.len(), 20);
    assert_eq!(tags[0], "billing");
    assert_eq!(tags[19], "event");
    assert_eq!(DEFAULT_BULK_COMPLETION_TOKENS, 512);
    assert_eq!(DEFAULT_BULK_SNIPPET_CHARS, 2048);
    assert_eq!(BULK_ANALYSIS_EVENT, "llm-bulk-analysis-progress");
}

#[test]
fn sentiment_is_normalized() {
    for input in ["positive", "pos", "POSITIVE", " Pos "] {
        assert_eq!(sanitize_sentiment(Some(input)).as_deref(), Some("positive"), "{}", input);
    }
    for input in ["negative", "NEG"] {
        assert_eq!(sanitize_sentiment(Some(input)).as_deref(), Some("negative"));
    }
    assert_eq!(sanitize_sentiment(Some("Neutral")).as_deref(), Some("neutral"));
    for input in ["unknown", "mixed"] {
        assert_eq!(sanitize_sentiment(Some(input)).as_deref(), Some("unknown"));
    }
    for input in ["happy", "", "  ", "positive!", "posi"] {
        assert_eq!(sanitize_sentiment(Some(input)), None, "{:?}", input);
    }
    assert_eq!(sanitize_sentiment(None), None);
    assert_eq!(sentiment_from_lowered("pos").as_deref(), Some("positive"));
    assert_eq!(sentiment_from_lowered("POS"), None);
}

#[test]
fn tags_are_taken_from_the_allowed_list_in_its_order() {
    let allowed = strings(&["billing", "urgent"]);
    assert_eq!(
        sanitize_tags(&strings(&["Billing", "spam", "urgent"]), &allowed),
        vec!["billing", "urgent"]
    );
    assert_eq!(sanitize_tags(&strings(&["urgent", " BILLING "]), &allowed), vec!["billing", "urgent"]);
    assert_eq!(sanitize_tags(&strings(&["urgent", "urgent"]), &allowed), vec!["urgent"]);
    assert!(sanitize_tags(&strings(&["spam"]), &allowed).is_empty());
    assert!(sanitize_tags(&Vec::new(), &allowed).is_empty());
    assert!(sanitize_tags(&strings(&["billing"]), &Vec::new()).is_empty());
    let spelled = strings(&["Follow-Up"]);
    assert_eq!(sanitize_tags(&strings(&["follow-up"]), &spelled), vec!["Follow-Up"]);
}

#[test]
fn sanitized_tags_are_a_subsequence_of_the_allowed_list() {
    let allowed = default_bulk_tags();
    let raw = strings(&["EVENT", "billing", "unknown", "Legal", "travel ", "event"]);
    let kept = sanitize_tags(&raw, &allowed);
    assert_eq!(kept, vec!["billing", "travel", "legal", "event"]);
    let mut at = 0;
    for tag in &kept {
        let found = allowed[at..].iter().position(|a| a == tag).expect("an allowed tag");
        at += found + 1;
    }
}

#[test]
fn json_values_as_texts() {
    assert_eq!(value_to_string(Some(&text("  x  "))).as_deref(), Some("x"));
    assert_eq!(value_to_string(Some(&text("   "))), None);
    assert_eq!(value_to_string(Some(&number("1.5"))).as_deref(), Some("1.5"));
    assert_eq!(value_to_string(Some(&JsonValue::Bool(true))).as_deref(), Some("true"));
    assert_eq!(value_to_string(Some(&JsonValue::Bool(false))).as_deref(), Some("false"));
    assert_eq!(value_to_string(Some(&JsonValue::Null)), None);
    assert_eq!(value_to_string(Some(&JsonValue::Array(Vec::new()))), None);
    assert_eq!(value_to_string(Some(&JsonValue::empty_object())), None);
    assert_eq!(value_to_string(None), None);
}

#[test]
fn json_values_as_lists() {
    let array = JsonValue::Array(vec![text(" a "), number("2"), JsonValue::Null, text(""), JsonValue::Bool(true)]);
    assert_eq!(value_to_vec(Some(&array)), vec!["a", "2", "true"]);
    assert_eq!(value_to_vec(Some(&text(" a, b ,, c "))), vec!["a", "b", "c"]);
    assert_eq!(value_to_vec(Some(&text(" single "))), vec!["single"]);
    assert!(value_to_vec(Some(&text("  "))).is_empty());
    assert!(value_to_vec(Some(&text(",,"))).is_empty());
    assert!(value_to_vec(Some(&JsonValue::Null)).is_empty());
    assert!(value_to_vec(None).is_empty());
    assert_eq!(value_to_vec(Some(&number("7"))), vec!["7"]);
    assert_eq!(value_to_vec(Some(&JsonValue::Bool(false))), vec!["false"]);
    assert!(value_to_vec(Some(&JsonValue::empty_object())).is_empty());
    let chars: Vec<char> = "a,,b,".chars().collect();
    assert_eq!(split_on(&chars, ','), vec!["a", "", "b", ""]);
    assert_eq!(split_on(&Vec::new(), ','), vec![""]);
    assert_eq!(trim_all(&strings(&[" a ", "  ", "b"])), vec!["a", "b"]);
}

#[test]
fn json_values_as_confidence_and_object() {
    assert_eq!(confidence_source(Some(&number("1.5"))).as_deref(), Some("1.5"));
    assert_eq!(confidence_source(Some(&text(" 0.25 "))).as_deref(), Some("0.25"));
    assert_eq!(confidence_source(Some(&JsonValue::Bool(true))), None);
    assert_eq!(confidence_source(None), None);
    let given = object(vec![("k", number("1"))]);
    assert_eq!(value_to_object(Some(&given)), given);
    assert_eq!(value_to_object(Some(&JsonValue::Null)), JsonValue::empty_object());
    assert_eq!(value_to_object(None), JsonValue::empty_object());
    assert_eq!(value_to_object(Some(&text("x"))), object(vec![("raw", text("x"))]));
}

#[test]
fn the_first_balanced_object_is_extracted() {
    assert_eq!(extract_json_object("{}").as_deref(), Some("{}"));
    assert_eq!(
        extract_json_object("Sure! {\"a\": {\"b\": 1}} and {\"c\": 2}").as_deref(),
        Some("{\"a\": {\"b\": 1}}")
    );
    assert_eq!(extract_json_object("} leading {\"a\":1} tail").as_deref(), Some("{\"a\":1}"));
    assert_eq!(extract_json_object("{\"a\": {\"b\": 1}"), None);
    assert_eq!(extract_json_object("no braces"), None);
    assert_eq!(extract_json_object(""), None);
    assert_eq!(extract_json_object("é{ü}é").as_deref(), Some("{ü}"));
}

#[test]
fn bulk_replies_are_parsed_strictly_and_then_by_extraction() {
    assert_eq!(parse_bulk_json("  {\"a\": 1}  "), Ok(object(vec![("a", number("1"))])));
    assert_eq!(parse_bulk_json("[1]"), Ok(JsonValue::Array(vec![number("1")])));
    assert_eq!(
        parse_bulk_json("Here you go:\n{\"a\": 1}\nBye"),
        Ok(object(vec![("a", number("1"))]))
    );
    assert_eq!(parse_bulk_json("   "), Err("model response was empty".to_string()));
    assert_eq!(parse_bulk_json(""), Err("model response was empty".to_string()));
    assert_eq!(
        parse_bulk_json("no json here"),
        Err("model response did not contain valid JSON".to_string())
    );
    match parse_bulk_json("oops {not json} end") {
        Err(message) => assert!(message.starts_with("failed to parse JSON object from model: ")),
        Ok(_) => panic!("a broken object must be refused"),
    }
    assert_eq!(choose_parse(Ok(JsonValue::Null), None), Ok(JsonValue::Null));
    assert_eq!(
        choose_parse(Err("a".to_string()), Some(Err("b".to_string()))),
        Err("failed to parse JSON object from model: b".to_string())
    );
    assert_eq!(
        choose_parse(Err("a".to_string()), Some(Ok(JsonValue::Bool(true)))),
        Ok(JsonValue::Bool(true))
    );
}

#[test]
fn bulk_analysis_with_closed_taxonomy() {
    let allowed = strings(&["billing", "urgent"]);
    let reply = "{\"summary\":\"Invoice due\",\"sentiment\":\"POS\",\"tags\":[\"Billing\",\"spam\",\"urgent\"],\"priority\":\"HIGH\",\"confidence\":1.5}";
    let parsed = parse_bulk_json(reply).expect("a document");
    let source = confidence_source(parsed.get("confidence")).expect("a confidence");
    assert_eq!(source, "1.5");
    let clamped: f64 = source.parse::<f64>().expect("a number").clamp(0.0, 1.0);
    assert_eq!(clamped, 1.0);
    let normalized =
        normalize_bulk_output(parsed, &allowed, Some("1.0".to_string())).expect("normalizes");
    assert_eq!(normalized.summary.as_deref(), Some("Invoice due"));
    assert_eq!(normalized.sentiment.as_deref(), Some("positive"));
    assert_eq!(normalized.tags, vec!["billing", "urgent"]);
    assert_eq!(normalized.confidence.as_deref(), Some("1.0"));
    assert_eq!(normalized.metadata.get("priority"), Some(&text("high")));
    assert_eq!(normalized.metadata.get("version"), Some(&number("1")));
    assert_eq!(normalized.metadata.get("actionability"), Some(&JsonValue::Null));
    assert_eq!(normalized.metadata.get("confidence"), Some(&number("1.0")));
    assert_eq!(normalized.metadata.get("rationale"), Some(&JsonValue::Null));
    assert_eq!(normalized.metadata.get("extractions"), Some(&JsonValue::empty_object()));
    let raw = normalized.metadata.get("raw_model_output").expect("the reply");
    assert_eq!(raw.get("sentiment"), Some(&text("POS")));

    let stored = finalize_analysis(
        &message(7, false),
        normalized,
        "run-1",
        &Some("tinyllama".to_string()),
        &Some("judge".to_string()),
        1_700_000_000,
    );
    assert_eq!(stored.account_email, "user@example.com");
    assert_eq!(stored.uid, "1007");
    assert_eq!(stored.summary.as_deref(), Some("Invoice due"));
    assert_eq!(stored.sentiment.as_deref(), Some("positive"));
    assert_eq!(stored.categories, vec!["billing", "urgent"]);
    assert_eq!(stored.analysis_confidence.as_deref(), Some("1.0"));
    assert!(stored.analyzed);
    assert_eq!(stored.analyzed_at, Some(1_700_000_000));
    assert_eq!(stored.model_id.as_deref(), Some("tinyllama"));
    assert_eq!(stored.validation.status.as_deref(), Some("pending"));
    assert_eq!(stored.validation.validator_model_id.as_deref(), Some("judge"));
    let metadata = &stored.metadata_json;
    assert_eq!(metadata.get("priority"), Some(&text("high")));
    assert_eq!(metadata.get("run_id"), Some(&text("run-1")));
    assert_eq!(metadata.get("account_email"), Some(&text("user@example.com")));
    assert_eq!(metadata.get("uid"), Some(&text("1007")));
    assert_eq!(metadata.get("summary"), Some(&text("Invoice due")));
    assert_eq!(metadata.get("sentiment"), Some(&text("positive")));
    assert_eq!(
        metadata.get("tags"),
        Some(&JsonValue::Array(vec![text("billing"), text("urgent")]))
    );
    assert_eq!(metadata.get("previous_categories"), Some(&JsonValue::Array(vec![text("old")])));
    assert_eq!(metadata.get("previous_metadata"), None);
    assert_eq!(metadata.get("model_id"), Some(&text("tinyllama")));
}

#[test]
fn normalize_refuses_what_is_no_object() {
    assert_eq!(
        normalize_bulk_output(JsonValue::Array(Vec::new()), &Vec::new(), None).err(),
        Some("model response must be a JSON object".to_string())
    );
    assert_eq!(
        normalize_bulk_output(text("x"), &Vec::new(), None).err(),
        Some("model response must be a JSON object".to_string())
    );
    let empty = normalize_bulk_output(JsonValue::empty_object(), &Vec::new(), None)
        .expect("normalizes");
    assert_eq!(empty.summary, None);
    assert_eq!(empty.sentiment, None);
    assert!(empty.tags.is_empty());
    assert_eq!(empty.metadata.get("confidence"), Some(&JsonValue::Null));
}

#[test]
fn normalize_reads_every_closed_field() {
    let raw = object(vec![
        ("summary", text(&"s".repeat(400))),
        ("sentiment", text("mixed")),
        ("tags", text("urgent, Billing")),
        ("priority", text("low")),
        ("actionability", text("Needs-Response")),
        ("risk", text("pii")),
        ("source_type", text("HUMAN")),
        ("thread_role", text("reply")),
        ("lifecycle", text("Archived")),
        ("rationale", text(" because ")),
        ("extractions", number("5")),
    ]);
    let n = normalize_bulk_output(raw, &strings(&["billing", "urgent"]), None).expect("normalizes");
    assert_eq!(n.summary.as_ref().map(|s| s.chars().count()), Some(320));
    assert_eq!(n.sentiment.as_deref(), Some("unknown"));
    assert_eq!(n.tags, vec!["billing", "urgent"]);
    assert_eq!(n.metadata.get("actionability"), Some(&text("needs-response")));
    assert_eq!(n.metadata.get("risk"), Some(&text("PII")));
    assert_eq!(n.metadata.get("source_type"), Some(&text("human")));
    assert_eq!(n.metadata.get("thread_role"), Some(&text("reply")));
    assert_eq!(n.metadata.get("lifecycle"), Some(&text("archived")));
    assert_eq!(n.metadata.get("rationale"), Some(&text("because")));
    assert_eq!(n.metadata.get("extractions"), Some(&object(vec![("raw", number("5"))])));
}

#[test]
fn finalize_without_model_and_validator() {
    let mut target = message(3, true);
    target.existing_analysis.metadata = Some(object(vec![("version", number("1"))]));
    let normalized =
        normalize_bulk_output(JsonValue::empty_object(), &Vec::new(), None).expect("normalizes");
    let stored = finalize_analysis(&target, normalized, "run-2", &None, &None, 5);
    assert!(stored.analyzed);
    assert_eq!(stored.analyzed_at, Some(5));
    assert_eq!(stored.model_id, None);
    assert_eq!(stored.validation.status, None);
    assert_eq!(stored.metadata_json.get("model_id"), None);
    assert_eq!(
        stored.metadata_json.get("previous_metadata"),
        Some(&object(vec![("version", number("1"))]))
    );
    assert_eq!(stored.metadata_json.get("summary"), Some(&JsonValue::Null));
    assert_eq!(stored.metadata_json.get("tags"), Some(&JsonValue::Array(Vec::new())));
}

fn expected_prompt(tags_block: &str, m: &MessageForAnalysis, sender: &str, date: &str, subject: &str, snippet: &str) -> String {
    format!(
        r#"You are an email triage system. Analyze the email below and respond with JSON only. Strictly follow these rules:
- Return a single JSON object.
- Every field must be present even if the value is null.
- Use only the enumerated values provided.
- Populate tags exclusively from the allowed list.
- If information is missing, use null instead of guessing.

Fields to return:
{{
  "summary": string|null,
  "sentiment": one of [positive, neutral, negative, unknown] | null,
  "tags": [ ... allowed tags ... ],
  "priority": one of [low, normal, high, critical] | null,
  "actionability": one of [informational, needs-response, waiting, delegate, auto-archive] | null,
  "risk": one of [none, sensitive, financial, PII, security-critical, phishing-suspect] | null,
  "source_type": one of [human, automated system, bot/no-reply] | null,
  "thread_role": one of [new thread, reply, forward, digest] | null,
  "lifecycle": one of [new, snoozed, pending, done, archived] | null,
  "confidence": number from 0-1 | null,
  "rationale": short string|null,
  "extractions": object with any additional structured data you deem useful
}}

Allowed tags:
{tags_block}

Email Context:
- Message ID: {message_id}
- IMAP UID: {uid}
- Sender: {sender} <{sender_email}>
- Date: {date}
- Subject: {subject}

Email Snippet (trimmed for length):
"""
{snippet}
"""
"#,
        tags_block = tags_block,
        message_id = m.message_id,
        uid = m.uid,
        sender = sender,
        sender_email = m.sender_email,
        date = date,
        subject = subject,
        snippet = snippet,
    )
}

#[test]
fn the_prompt_lists_the_allowed_tags_in_order() {
    let m = message(7, false);
    let prompt = build_bulk_prompt(&strings(&["urgent", "billing", "Alpha"]), &m, 2048);
    let expected = expected_prompt(
        "- Alpha\n- billing\n- urgent",
        &m,
        "Billing",
        "Mon, 1 Jan 2024 10:00:00 +0000",
        "Invoice 42",
        "Please pay the invoice.",
    );
    assert_eq!(prompt, expected);
    let rendered = render_prompt(&strings(&["b", "a"]), &m, 2048);
    assert!(rendered.contains("Allowed tags:\n- b\n- a\n\nEmail Context:"));
}

#[test]
fn the_prompt_fills_in_what_is_missing() {
    let mut m = message(-5, false);
    m.subject = "   ".to_string();
    m.snippet = None;
    m.date = None;
    m.sender_display = Some(String::new());
    let prompt = build_bulk_prompt(&Vec::new(), &m, 2048);
    let expected = expected_prompt(
        "(no predefined tags)",
        &m,
        "(unknown sender)",
        "(unknown date)",
        "(no subject)",
        "(no snippet available)",
    );
    assert_eq!(prompt, expected);
    assert!(prompt.contains("- Message ID: -5\n"));
    m.sender_display = None;
    m.snippet = Some("x".repeat(50));
    m.subject = "s".repeat(300);
    let prompt = build_bulk_prompt(&Vec::new(), &m, 10);
    assert!(prompt.contains("- Sender: (unknown sender) <billing@example.com>"));
    assert!(prompt.contains(&format!("\"\"\"\n{}…\n\"\"\"\n", "x".repeat(9))));
    assert!(prompt.contains(&format!("- Subject: {}…\n", "s".repeat(239))));
}

#[test]
fn targets_are_the_messages_not_yet_analyzed() {
    let mut selection = BulkSelection::new();
    selection.add_account(vec![message(1, true), message(2, false), message(3, true)], false);
    selection.add_account(vec![message(4, false)], false);
    let ids: Vec<i64> = selection.targets.iter().map(|m| m.message_id).collect();
    assert_eq!(ids, vec![2, 4]);
    assert_eq!(selection.skipped, 2);
    let mut forced = BulkSelection::new();
    forced.add_account(vec![message(1, true), message(2, false)], true);
    assert_eq!(forced.targets.len(), 2);
    assert_eq!(forced.skipped, 0);
}

#[test]
fn run_counters_add_up() {
    let (mut run, starting) = BulkRun::start(3, 2);
    assert_eq!(
        starting,
        BulkProgress {
            status: BulkStatus::Starting,
            stage: None,
            total: 3,
            completed: 0,
            failed: 0,
            skipped: 2,
            pending: 3,
        }
    );
    let first = run.record_success().expect("an event");
    assert_eq!((first.status, first.completed, first.failed, first.pending), (BulkStatus::Processed, 1, 0, 2));
    let second = run.record_failure(BulkStage::Parse).expect("an event");
    assert_eq!(second.status, BulkStatus::Error);
    assert_eq!(second.stage, Some(BulkStage::Parse));
    assert_eq!((second.completed, second.failed, second.pending), (1, 1, 1));
    assert_eq!(run.remaining(), 1);
    let third = run.record_failure(BulkStage::Llm).expect("an event");
    assert_eq!((third.completed, third.failed, third.pending), (1, 2, 0));
    assert_eq!(run.record_success(), None);
    assert_eq!(run.record_failure(BulkStage::Storage), None);
    let done = run.finish();
    assert_eq!(done.status, BulkStatus::Completed);
    assert_eq!((done.total, done.completed, done.failed, done.skipped, done.pending), (3, 1, 2, 2, 0));
    assert_eq!(BulkStage::Llm.as_str(), "llm");
    assert_eq!(BulkStage::Parse.as_str(), "parse");
    assert_eq!(BulkStage::Normalize.as_str(), "normalize");
    assert_eq!(BulkStage::Storage.as_str(), "storage");
    assert_eq!(BulkStatus::Starting.as_str(), "starting");
    assert_eq!(BulkStatus::Processed.as_str(), "processed");
    assert_eq!(BulkStatus::Error.as_str(), "error");
    assert_eq!(BulkStatus::Completed.as_str(), "completed");
}

#[test]
fn a_run_without_targets_completes_at_once() {
    let (run, starting) = BulkRun::start(0, 4);
    assert_eq!(starting.pending, 0);
    let done = run.finish();
    assert_eq!((done.total, done.completed, done.failed, done.skipped, done.pending), (0, 0, 0, 4, 0));
}
