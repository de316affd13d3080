//! One run of the bulk analysis: which messages it takes, the prompt it
//! writes for each, what it keeps of the model's reply, and the counters
//! that it reports.

use crate::analysis::{
    clip_text, clip_text_of, enum_value_of, list_of, object_of, sanitize_enum_value,
    sanitize_sentiment, sanitize_tags, sanitized, sentiment_of, text_of, value_to_object,
    value_to_string, value_to_vec, SUMMARY_MAX_LEN,
};
use crate::json::{member_models, set_member, with_member, JsonModel, JsonValue};
use crate::models::clone_opt_string;
use crate::storage::{
    AnalysisInsert, AnalysisInsertView, AnalysisValidation, AnalysisValidationView,
    MessageForAnalysis,
};
use crate::text::{
    decimal, join, join_strings, lex_le, opt_text, push_decimal, push_text, texts, trim, trimmed,
};
use vstd::prelude::*;
use vstd::string::*;

verus! {

pub const DEFAULT_BULK_COMPLETION_TOKENS: usize = 512;

pub const DEFAULT_BULK_SNIPPET_CHARS: usize = 2048;

/// The most characters of a subject in a prompt.
pub const PROMPT_SUBJECT_CHARS: usize = 240;

pub const BULK_ANALYSIS_EVENT: &'static str = "llm-bulk-analysis-progress";

pub open spec fn priority_values() -> Seq<Seq<char>> {
    seq!["low"@, "normal"@, "high"@, "critical"@]
}

pub open spec fn actionability_values() -> Seq<Seq<char>> {
    seq!["informational"@, "needs-response"@, "waiting"@, "delegate"@, "auto-archive"@]
}

pub open spec fn risk_values() -> Seq<Seq<char>> {
    seq![
        "none"@,
        "sensitive"@,
        "financial"@,
        "PII"@,
        "security-critical"@,
        "phishing-suspect"@,
    ]
}

pub open spec fn source_values() -> Seq<Seq<char>> {
    seq!["human"@, "automated system"@, "bot/no-reply"@]
}

pub open spec fn thread_role_values() -> Seq<Seq<char>> {
    seq!["new thread"@, "reply"@, "forward"@, "digest"@]
}

pub open spec fn lifecycle_values() -> Seq<Seq<char>> {
    seq!["new"@, "snoozed"@, "pending"@, "done"@, "archived"@]
}

/// The tags that a run is offered where the caller names none.
pub open spec fn default_tags() -> Seq<Seq<char>> {
    seq![
        "billing"@,
        "meeting"@,
        "travel"@,
        "urgent"@,
        "security"@,
        "personal"@,
        "newsletter"@,
        "promotions"@,
        "social"@,
        "updates"@,
        "receipts"@,
        "action-required"@,
        "follow-up"@,
        "waiting-for-response"@,
        "system-alert"@,
        "legal"@,
        "support-request"@,
        "shipping"@,
        "marketing"@,
        "event"@,
    ]
}

fn add_word(list: &mut Vec<String>, word: &str)
    ensures
        texts(final(list)@) == texts(old(list)@).push(word@),
{
    list.push(word.to_owned());
    assert(texts(list@) =~= texts(old(list)@).push(word@));
}

pub fn priority_list() -> (r: Vec<String>)
    ensures
        texts(r@) == priority_values(),
{
    let mut v: Vec<String> = Vec::new();
    assert(texts(v@) =~= Seq::<Seq<char>>::empty());
    add_word(&mut v, "low");
    add_word(&mut v, "normal");
    add_word(&mut v, "high");
    add_word(&mut v, "critical");
    assert(texts(v@) =~= priority_values());
    v
}

pub fn actionability_list() -> (r: Vec<String>)
    ensures
        texts(r@) == actionability_values(),
{
    let mut v: Vec<String> = Vec::new();
    assert(texts(v@) =~= Seq::<Seq<char>>::empty());
    add_word(&mut v, "informational");
    add_word(&mut v, "needs-response");
    add_word(&mut v, "waiting");
    add_word(&mut v, "delegate");
    add_word(&mut v, "auto-archive");
    assert(texts(v@) =~= actionability_values());
    v
}

pub fn risk_list() -> (r: Vec<String>)
    ensures
        texts(r@) == risk_values(),
{
    let mut v: Vec<String> = Vec::new();
    assert(texts(v@) =~= Seq::<Seq<char>>::empty());
    add_word(&mut v, "none");
    add_word(&mut v, "sensitive");
    add_word(&mut v, "financial");
    add_word(&mut v, "PII");
    add_word(&mut v, "security-critical");
    add_word(&mut v, "phishing-suspect");
    assert(texts(v@) =~= risk_values());
    v
}

pub fn source_list() -> (r: Vec<String>)
    ensures
        texts(r@) == source_values(),
{
    let mut v: Vec<String> = Vec::new();
    assert(texts(v@) =~= Seq::<Seq<char>>::empty());
    add_word(&mut v, "human");
    add_word(&mut v, "automated system");
    add_word(&mut v, "bot/no-reply");
    assert(texts(v@) =~= source_values());
    v
}

pub fn thread_role_list() -> (r: Vec<String>)
    ensures
        texts(r@) == thread_role_values(),
{
    let mut v: Vec<String> = Vec::new();
    assert(texts(v@) =~= Seq::<Seq<char>>::empty());
    add_word(&mut v, "new thread");
    add_word(&mut v, "reply");
    add_word(&mut v, "forward");
    add_word(&mut v, "digest");
    assert(texts(v@) =~= thread_role_values());
    v
}

pub fn lifecycle_list() -> (r: Vec<String>)
    ensures
        texts(r@) == lifecycle_values(),
{
    let mut v: Vec<String> = Vec::new();
    assert(texts(v@) =~= Seq::<Seq<char>>::empty());
    add_word(&mut v, "new");
    add_word(&mut v, "snoozed");
    add_word(&mut v, "pending");
    add_word(&mut v, "done");
    add_word(&mut v, "archived");
    assert(texts(v@) =~= lifecycle_values());
    v
}

pub fn default_bulk_tags() -> (r: Vec<String>)
    ensures
        texts(r@) == default_tags(),
{
    let mut v: Vec<String> = Vec::new();
    assert(texts(v@) =~= Seq::<Seq<char>>::empty());
    add_word(&mut v, "billing");
    add_word(&mut v, "meeting");
    add_word(&mut v, "travel");
    add_word(&mut v, "urgent");
    add_word(&mut v, "security");
    add_word(&mut v, "personal");
    add_word(&mut v, "newsletter");
    add_word(&mut v, "promotions");
    add_word(&mut v, "social");
    add_word(&mut v, "updates");
    add_word(&mut v, "receipts");
    add_word(&mut v, "action-required");
    add_word(&mut v, "follow-up");
    add_word(&mut v, "waiting-for-response");
    add_word(&mut v, "system-alert");
    add_word(&mut v, "legal");
    add_word(&mut v, "support-request");
    add_word(&mut v, "shipping");
    add_word(&mut v, "marketing");
    add_word(&mut v, "event");
    assert(texts(v@) =~= default_tags());
    v
}

/// What is kept of a model's reply.
#[derive(Debug)]
pub struct NormalizedBulkAnalysis {
    pub summary: Option<String>,
    pub sentiment: Option<String>,
    pub tags: Vec<String>,
    pub confidence: Option<String>,
    pub metadata: JsonValue,
}

pub struct NormalizedModel {
    pub summary: Option<Seq<char>>,
    pub sentiment: Option<Seq<char>>,
    pub tags: Seq<Seq<char>>,
    pub confidence: Option<Seq<char>>,
    pub metadata: JsonModel,
}

impl NormalizedBulkAnalysis {
    pub open spec fn model(self) -> NormalizedModel {
        NormalizedModel {
            summary: opt_text(self.summary),
            sentiment: opt_text(self.sentiment),
            tags: texts(self.tags@),
            confidence: opt_text(self.confidence),
            metadata: self.metadata.model(),
        }
    }
}

/// The text of a member of the reply.
pub open spec fn field_text(raw: JsonModel, key: Seq<char>) -> Option<Seq<char>> {
    text_of(raw.get(key))
}

/// A text as a JSON value: null where there is none.
pub open spec fn text_or_null(o: Option<Seq<char>>) -> JsonModel {
    match o {
        Some(t) => JsonModel::Text(t),
        None => JsonModel::Null,
    }
}

/// A number, given as its text, as a JSON value: null where there is none.
pub open spec fn number_or_null(o: Option<Seq<char>>) -> JsonModel {
    match o {
        Some(t) => JsonModel::Number(t),
        None => JsonModel::Null,
    }
}

/// The summary kept of a reply: its text, held within 320.
pub open spec fn summary_of(raw: JsonModel) -> Option<Seq<char>> {
    match field_text(raw, "summary"@) {
        Some(t) => Some(clip_text_of(t, SUMMARY_MAX_LEN)),
        None => None,
    }
}

/// The metadata kept of a reply: the version, each closed field held
/// against its vocabulary, the confidence, the rationale, the extractions
/// as an object, and the reply itself.
pub open spec fn metadata_of(raw: JsonModel, confidence: Option<Seq<char>>) -> JsonModel {
    JsonModel::Object(
        seq![
            ("version"@, JsonModel::Number("1"@)),
            ("priority"@, text_or_null(enum_value_of(field_text(raw, "priority"@), priority_values()))),
            (
                "actionability"@,
                text_or_null(
                    enum_value_of(field_text(raw, "actionability"@), actionability_values()),
                ),
            ),
            ("risk"@, text_or_null(enum_value_of(field_text(raw, "risk"@), risk_values()))),
            (
                "source_type"@,
                text_or_null(enum_value_of(field_text(raw, "source_type"@), source_values())),
            ),
            (
                "thread_role"@,
                text_or_null(enum_value_of(field_text(raw, "thread_role"@), thread_role_values())),
            ),
            (
                "lifecycle"@,
                text_or_null(enum_value_of(field_text(raw, "lifecycle"@), lifecycle_values())),
            ),
            ("confidence"@, number_or_null(confidence)),
            ("rationale"@, text_or_null(field_text(raw, "rationale"@))),
            ("extractions"@, object_of(raw.get("extractions"@))),
            ("raw_model_output"@, raw),
        ],
    )
}

/// What is kept of a reply. A reply that is no object is refused. The
/// confidence is the caller's: the number of the reply held within 0 and 1,
/// as its text.
pub open spec fn normalized_of(
    raw: JsonModel,
    allowed: Seq<Seq<char>>,
    confidence: Option<Seq<char>>,
) -> Result<NormalizedModel, Seq<char>> {
    if raw is Object {
        Ok(
            NormalizedModel {
                summary: summary_of(raw),
                sentiment: sentiment_of(field_text(raw, "sentiment"@)),
                tags: sanitized(list_of(raw.get("tags"@)), allowed),
                confidence,
                metadata: metadata_of(raw, confidence),
            },
        )
    } else {
        Err("model response must be a JSON object"@)
    }
}

pub open spec fn normalized_result(r: Result<NormalizedBulkAnalysis, String>) -> Result<
    NormalizedModel,
    Seq<char>,
> {
    match r {
        Ok(n) => Ok(n.model()),
        Err(e) => Err(e@),
    }
}

fn field_string(raw: &JsonValue, key: &str) -> (r: Option<String>)
    ensures
        opt_text(r) == field_text(raw.model(), key@),
{
    value_to_string(raw.get(key))
}

fn closed_field(raw: &JsonValue, key: &str, allowed: &Vec<String>) -> (r: JsonValue)
    ensures
        r.model() == text_or_null(enum_value_of(field_text(raw.model(), key@), texts(allowed@))),
{
    let text = field_string(raw, key);
    let value = match &text {
        Some(t) => sanitize_enum_value(Some(t.as_str()), allowed),
        None => sanitize_enum_value(None, allowed),
    };
    JsonValue::text_or_null(value)
}

fn add_member(members: &mut Vec<(String, JsonValue)>, key: &str, value: JsonValue)
    ensures
        member_models(final(members)@) == member_models(old(members)@).push(
            (key@, value.model()),
        ),
{
    members.push((key.to_owned(), value));
    assert(member_models(members@) =~= member_models(old(members)@).push((key@, value.model())));
}

pub fn normalize_bulk_output(
    raw: JsonValue,
    allowed_tags: &Vec<String>,
    confidence: Option<String>,
) -> (r: Result<NormalizedBulkAnalysis, String>)
    ensures
        normalized_result(r) == normalized_of(
            raw.model(),
            texts(allowed_tags@),
            opt_text(confidence),
        ),
{
    let is_object = match &raw {
        JsonValue::Object(_) => true,
        _ => false,
    };
    if !is_object {
        return Err("model response must be a JSON object".to_owned());
    }
    let summary = match field_string(&raw, "summary") {
        Some(t) => Some(clip_text(t.as_str(), SUMMARY_MAX_LEN)),
        None => None,
    };
    let sentiment_text = field_string(&raw, "sentiment");
    let sentiment = match &sentiment_text {
        Some(t) => sanitize_sentiment(Some(t.as_str())),
        None => sanitize_sentiment(None),
    };
    let raw_tags = value_to_vec(raw.get("tags"));
    let tags = sanitize_tags(&raw_tags, allowed_tags);
    let mut members: Vec<(String, JsonValue)> = Vec::new();
    assert(member_models(members@) =~= Seq::<(Seq<char>, JsonModel)>::empty());
    add_member(&mut members, "version", JsonValue::Number("1".to_owned()));
    add_member(&mut members, "priority", closed_field(&raw, "priority", &priority_list()));
    add_member(
        &mut members,
        "actionability",
        closed_field(&raw, "actionability", &actionability_list()),
    );
    add_member(&mut members, "risk", closed_field(&raw, "risk", &risk_list()));
    add_member(&mut members, "source_type", closed_field(&raw, "source_type", &source_list()));
    add_member(&mut members, "thread_role", closed_field(&raw, "thread_role", &thread_role_list()));
    add_member(&mut members, "lifecycle", closed_field(&raw, "lifecycle", &lifecycle_list()));
    let confidence_value = match &confidence {
        Some(c) => JsonValue::Number(c.clone()),
        None => JsonValue::Null,
    };
    add_member(&mut members, "confidence", confidence_value);
    add_member(&mut members, "rationale", JsonValue::text_or_null(field_string(&raw, "rationale")));
    add_member(&mut members, "extractions", value_to_object(raw.get("extractions")));
    let ghost raw_model = raw.model();
    add_member(&mut members, "raw_model_output", raw);
    let metadata = JsonValue::Object(members);
    proof {
        assert(metadata.model()->Object_0 =~= member_models(members@));
        assert(member_models(members@) =~= metadata_of(raw_model, opt_text(confidence))->Object_0);
    }
    Ok(NormalizedBulkAnalysis { summary, sentiment, tags, confidence, metadata })
}

/// The texts stand in the order of strings.
pub open spec fn in_order(list: Seq<Seq<char>>) -> bool {
    forall|i: int, j: int| 0 <= i <= j < list.len() ==> lex_le(list[i], list[j])
}

/// Calls `sort` of slices on the strings: afterwards they are the same
/// strings in the order of `String`, which compares character by character.
#[verifier::external_body]
fn sort_strings(list: &mut Vec<String>)
    ensures
        texts(final(list)@).to_multiset() == texts(old(list)@).to_multiset(),
        in_order(texts(final(list)@)),
{
    list.sort()
}

/// The decimal notation of a number with its sign.
pub open spec fn signed_decimal(v: int) -> Seq<char> {
    if v < 0 {
        "-"@ + decimal((-v) as nat)
    } else {
        decimal(v as nat)
    }
}

fn push_signed(out: &mut String, v: i64)
    ensures
        final(out)@ == old(out)@ + signed_decimal(v as int),
{
    if v < 0 {
        push_text(out, "-");
        let magnitude: u64 = ((-(v + 1)) as u64) + 1;
        push_decimal(out, magnitude);
        assert(old(out)@ + "-"@ + decimal(magnitude as nat) =~= old(out)@ + ("-"@ + decimal(
            (-v) as nat,
        )));
    } else {
        push_decimal(out, v as u64);
    }
}

/// The lines of the allowed tags in a prompt.
pub open spec fn tag_lines(tags: Seq<Seq<char>>) -> Seq<Seq<char>> {
    tags.map_values(|t: Seq<char>| "- "@ + t)
}

/// The block of the allowed tags in a prompt: one line a tag, or a note
/// where there is no tag.
pub open spec fn tags_block(tags: Seq<Seq<char>>) -> Seq<char> {
    if tags.len() == 0 {
        "(no predefined tags)"@
    } else {
        join(tag_lines(tags), "\n"@)
    }
}

/// The subject as a prompt shows it.
pub open spec fn prompt_subject(subject: Seq<char>) -> Seq<char> {
    if trim(subject).len() == 0 {
        "(no subject)"@
    } else {
        clip_text_of(trim(subject), PROMPT_SUBJECT_CHARS)
    }
}

/// The sender's name as a prompt shows it.
pub open spec fn prompt_sender(sender_display: Option<String>) -> Seq<char> {
    match sender_display {
        Some(name) => if name@.len() == 0 {
            "(unknown sender)"@
        } else {
            name@
        },
        None => "(unknown sender)"@,
    }
}

pub open spec fn prompt_date(date: Option<String>) -> Seq<char> {
    match date {
        Some(d) => d@,
        None => "(unknown date)"@,
    }
}

pub open spec fn prompt_snippet(snippet: Option<String>, snippet_limit: usize) -> Seq<char> {
    clip_text_of(
        match snippet {
            Some(s) => s@,
            None => "(no snippet available)"@,
        },
        snippet_limit,
    )
}

/// The rules and the fields that every prompt begins with, up to the list
/// of priorities.
pub open spec fn prompt_head() -> Seq<char> {
    "You are an email triage system. Analyze the email below and respond with JSON only. Strictly follow these rules:\n- Return a single JSON object.\n- Every field must be present even if the value is null.\n- Use only the enumerated values provided.\n- Populate tags exclusively from the allowed list.\n- If information is missing, use null instead of guessing.\n\nFields to return:\n{\n  \"summary\": string|null,\n  \"sentiment\": one of [positive, neutral, negative, unknown] | null,\n  \"tags\": [ ... allowed tags ... ],\n  \"priority\": one of ["@
}

/// The prompt for a message, given the allowed tags in order.
pub open spec fn prompt_text(
    sorted_tags: Seq<Seq<char>>,
    message: MessageForAnalysis,
    snippet_limit: usize,
) -> Seq<char> {
    prompt_head() + join(priority_values(), ", "@) + "] | null,\n  \"actionability\": one of ["@
        + join(actionability_values(), ", "@) + "] | null,\n  \"risk\": one of ["@ + join(
        risk_values(),
        ", "@,
    ) + "] | null,\n  \"source_type\": one of ["@ + join(source_values(), ", "@)
        + "] | null,\n  \"thread_role\": one of ["@ + join(thread_role_values(), ", "@)
        + "] | null,\n  \"lifecycle\": one of ["@ + join(lifecycle_values(), ", "@)
        + "] | null,\n  \"confidence\": number from 0-1 | null,\n  \"rationale\": short string|null,\n  \"extractions\": object with any additional structured data you deem useful\n}\n\nAllowed tags:\n"@
        + tags_block(sorted_tags) + "\n\nEmail Context:\n- Message ID: "@ + signed_decimal(
        message.message_id as int,
    ) + "\n- IMAP UID: "@ + message.uid@ + "\n- Sender: "@ + prompt_sender(message.sender_display)
        + " <"@ + message.sender_email@ + ">\n- Date: "@ + prompt_date(message.date)
        + "\n- Subject: "@ + prompt_subject(message.subject@)
        + "\n\nEmail Snippet (trimmed for length):\n\"\"\"\n"@ + prompt_snippet(
        message.snippet,
        snippet_limit,
    ) + "\n\"\"\"\n"@
}

fn render_tags(sorted_tags: &Vec<String>) -> (r: String)
    ensures
        r@ == tags_block(texts(sorted_tags@)),
{
    if sorted_tags.len() == 0 {
        return "(no predefined tags)".to_owned();
    }
    let mut lines: Vec<String> = Vec::new();
    let mut i: usize = 0;
    while i < sorted_tags.len()
        invariant
            i <= sorted_tags.len(),
            lines.len() == i,
            forall|k: int| 0 <= k < i ==> lines@[k]@ == "- "@ + sorted_tags@[k]@,
        decreases sorted_tags.len() - i,
    {
        let mut line = "- ".to_owned();
        push_text(&mut line, sorted_tags[i].as_str());
        lines.push(line);
        i += 1;
    }
    assert(texts(lines@) =~= tag_lines(texts(sorted_tags@)));
    join_strings(&lines, "\n")
}

/// Writes the prompt for a message, given the allowed tags in order.
pub fn render_prompt(sorted_tags: &Vec<String>, message: &MessageForAnalysis, snippet_limit: usize) -> (r:
    String)
    ensures
        r@ == prompt_text(texts(sorted_tags@), *message, snippet_limit),
{
    let mut out =
        "You are an email triage system. Analyze the email below and respond with JSON only. Strictly follow these rules:\n- Return a single JSON object.\n- Every field must be present even if the value is null.\n- Use only the enumerated values provided.\n- Populate tags exclusively from the allowed list.\n- If information is missing, use null instead of guessing.\n\nFields to return:\n{\n  \"summary\": string|null,\n  \"sentiment\": one of [positive, neutral, negative, unknown] | null,\n  \"tags\": [ ... allowed tags ... ],\n  \"priority\": one of [".to_owned();
    push_text(&mut out, join_strings(&priority_list(), ", ").as_str());
    push_text(&mut out, "] | null,\n  \"actionability\": one of [");
    push_text(&mut out, join_strings(&actionability_list(), ", ").as_str());
    push_text(&mut out, "] | null,\n  \"risk\": one of [");
    push_text(&mut out, join_strings(&risk_list(), ", ").as_str());
    push_text(&mut out, "] | null,\n  \"source_type\": one of [");
    push_text(&mut out, join_strings(&source_list(), ", ").as_str());
    push_text(&mut out, "] | null,\n  \"thread_role\": one of [");
    push_text(&mut out, join_strings(&thread_role_list(), ", ").as_str());
    push_text(&mut out, "] | null,\n  \"lifecycle\": one of [");
    push_text(&mut out, join_strings(&lifecycle_list(), ", ").as_str());
    push_text(
        &mut out,
        "] | null,\n  \"confidence\": number from 0-1 | null,\n  \"rationale\": short string|null,\n  \"extractions\": object with any additional structured data you deem useful\n}\n\nAllowed tags:\n",
    );
    push_text(&mut out, render_tags(sorted_tags).as_str());
    push_text(&mut out, "\n\nEmail Context:\n- Message ID: ");
    push_signed(&mut out, message.message_id);
    push_text(&mut out, "\n- IMAP UID: ");
    push_text(&mut out, message.uid.as_str());
    push_text(&mut out, "\n- Sender: ");
    match &message.sender_display {
        Some(name) => {
            if name.as_str().unicode_len() == 0 {
                push_text(&mut out, "(unknown sender)");
            } else {
                push_text(&mut out, name.as_str());
            }
        },
        None => {
            push_text(&mut out, "(unknown sender)");
        },
    }
    push_text(&mut out, " <");
    push_text(&mut out, message.sender_email.as_str());
    push_text(&mut out, ">\n- Date: ");
    match &message.date {
        Some(d) => {
            push_text(&mut out, d.as_str());
        },
        None => {
            push_text(&mut out, "(unknown date)");
        },
    }
    push_text(&mut out, "\n- Subject: ");
    let subject = trimmed(message.subject.as_str());
    if subject.as_str().unicode_len() == 0 {
        push_text(&mut out, "(no subject)");
    } else {
        push_text(&mut out, clip_text(subject.as_str(), PROMPT_SUBJECT_CHARS).as_str());
    }
    push_text(&mut out, "\n\nEmail Snippet (trimmed for length):\n\"\"\"\n");
    match &message.snippet {
        Some(s) => {
            push_text(&mut out, clip_text(s.as_str(), snippet_limit).as_str());
        },
        None => {
            push_text(&mut out, clip_text("(no snippet available)", snippet_limit).as_str());
        },
    }
    push_text(&mut out, "\n\"\"\"\n");
    out
}

/// Writes the prompt for a message: the rules, the fields with their
/// vocabularies, the allowed tags in order, and the message.
pub fn build_bulk_prompt(allowed_tags: &Vec<String>, message: &MessageForAnalysis, snippet_limit: usize) -> (r:
    String)
    ensures
        exists|sorted: Seq<Seq<char>>|
            sorted.to_multiset() == texts(allowed_tags@).to_multiset() && in_order(sorted) && r@
                == #[trigger] prompt_text(sorted, *message, snippet_limit),
{
    let mut sorted: Vec<String> = Vec::new();
    let mut i: usize = 0;
    while i < allowed_tags.len()
        invariant
            i <= allowed_tags.len(),
            texts(sorted@) == texts(allowed_tags@).take(i as int),
        decreases allowed_tags.len() - i,
    {
        let ghost before = texts(sorted@);
        sorted.push(allowed_tags[i].clone());
        assert(texts(sorted@) =~= before.push(allowed_tags@[i as int]@));
        assert(texts(allowed_tags@).take(i + 1) =~= before.push(allowed_tags@[i as int]@));
        i += 1;
    }
    assert(texts(allowed_tags@).take(allowed_tags.len() as int) =~= texts(allowed_tags@));
    sort_strings(&mut sorted);
    let r = render_prompt(&sorted, message, snippet_limit);
    assert(r@ == prompt_text(texts(sorted@), *message, snippet_limit));
    r
}

/// The step of the pipeline at which a message failed.
#[derive(Debug, Clone, Copy, PartialEq, Eq, Structural)]
pub enum BulkStage {
    Llm,
    Parse,
    Normalize,
    Storage,
}

impl BulkStage {
    pub open spec fn label(self) -> Seq<char> {
        match self {
            BulkStage::Llm => "llm"@,
            BulkStage::Parse => "parse"@,
            BulkStage::Normalize => "normalize"@,
            BulkStage::Storage => "storage"@,
        }
    }

    pub fn as_str(&self) -> (r: &'static str)
        ensures
            r@ == self.label(),
    {
        match self {
            BulkStage::Llm => "llm",
            BulkStage::Parse => "parse",
            BulkStage::Normalize => "normalize",
            BulkStage::Storage => "storage",
        }
    }
}

#[derive(Debug, Clone, Copy, PartialEq, Eq, Structural)]
pub enum BulkStatus {
    Starting,
    Processed,
    Error,
    Completed,
}

impl BulkStatus {
    pub open spec fn label(self) -> Seq<char> {
        match self {
            BulkStatus::Starting => "starting"@,
            BulkStatus::Processed => "processed"@,
            BulkStatus::Error => "error"@,
            BulkStatus::Completed => "completed"@,
        }
    }

    pub fn as_str(&self) -> (r: &'static str)
        ensures
            r@ == self.label(),
    {
        match self {
            BulkStatus::Starting => "starting",
            BulkStatus::Processed => "processed",
            BulkStatus::Error => "error",
            BulkStatus::Completed => "completed",
        }
    }
}

/// The counters that every event of a run carries.
#[derive(Debug, Clone, Copy, PartialEq, Eq, Structural)]
pub struct BulkProgress {
    pub status: BulkStatus,
    pub stage: Option<BulkStage>,
    pub total: usize,
    pub completed: usize,
    pub failed: usize,
    pub skipped: usize,
    pub pending: usize,
}

/// The messages that a run takes: all of them where it is forced, else
/// those that are not analyzed yet; in their order.
pub open spec fn targets_of(messages: Seq<MessageForAnalysis>, force: bool) -> Seq<
    MessageForAnalysis,
>
    decreases messages.len(),
{
    if messages.len() == 0 {
        Seq::empty()
    } else if force || !messages.last().existing_analysis.analyzed {
        targets_of(messages.drop_last(), force).push(messages.last())
    } else {
        targets_of(messages.drop_last(), force)
    }
}

proof fn lemma_targets_bound(messages: Seq<MessageForAnalysis>, force: bool)
    ensures
        targets_of(messages, force).len() <= messages.len(),
    decreases messages.len(),
{
    if messages.len() > 0 {
        lemma_targets_bound(messages.drop_last(), force);
    }
}

/// The work queue of a run, filled account by account.
pub struct BulkSelection {
    pub targets: Vec<MessageForAnalysis>,
    pub skipped: usize,
}

impl BulkSelection {
    pub fn new() -> (r: BulkSelection)
        ensures
            r.targets@ == Seq::<MessageForAnalysis>::empty(),
            r.skipped == 0,
    {
        BulkSelection { targets: Vec::new(), skipped: 0 }
    }

    /// Takes in the messages of one account: the targets join the queue,
    /// the others are counted as skipped.
    pub fn add_account(&mut self, messages: Vec<MessageForAnalysis>, force: bool)
        requires
            old(self).skipped + messages.len() <= usize::MAX,
        ensures
            final(self).targets@ == old(self).targets@ + targets_of(messages@, force),
            final(self).skipped == old(self).skipped + messages.len() - targets_of(
                messages@,
                force,
            ).len(),
    {
        let ghost start = self.targets@;
        let ghost skipped0 = self.skipped;
        assert(start + targets_of(messages@.take(0), force) =~= start);
        for message in it: messages
            invariant
                it.seq() == messages@,
                skipped0 + messages.len() <= usize::MAX,
                self.targets@ == start + targets_of(it.seq().take(it.index()), force),
                self.skipped == skipped0 + it.index() - targets_of(
                    it.seq().take(it.index()),
                    force,
                ).len(),
        {
            proof {
                let seen = it.seq().take(it.index());
                let next = it.seq().take(it.index() + 1);
                assert(next.drop_last() =~= seen);
                assert(next.last() == message);
                lemma_targets_bound(seen, force);
                assert(start + targets_of(seen, force).push(message) =~= (start + targets_of(
                    seen,
                    force,
                )).push(message));
            }
            if force || !message.existing_analysis.analyzed {
                self.targets.push(message);
            } else {
                self.skipped = self.skipped + 1;
            }
        }
        assert(messages@.take(messages@.len() as int) =~= messages@);
    }
}

/// The counters of a run.
pub struct BulkRun {
    total: usize,
    completed: usize,
    failed: usize,
    skipped: usize,
}

impl BulkRun {
    #[verifier::type_invariant]
    spec fn counted_within_total(self) -> bool {
        self.completed + self.failed <= self.total
    }

    pub closed spec fn total(self) -> usize {
        self.total
    }

    pub closed spec fn completed(self) -> usize {
        self.completed
    }

    pub closed spec fn failed(self) -> usize {
        self.failed
    }

    pub closed spec fn skipped(self) -> usize {
        self.skipped
    }

    /// The messages that the run has still to take.
    pub open spec fn pending(self) -> int {
        self.total() - self.completed() - self.failed()
    }

    /// The counters with a status.
    pub open spec fn progress(self, status: BulkStatus, stage: Option<BulkStage>) -> BulkProgress {
        BulkProgress {
            status,
            stage,
            total: self.total(),
            completed: self.completed(),
            failed: self.failed(),
            skipped: self.skipped(),
            pending: self.pending() as usize,
        }
    }

    /// A run over `total` messages, `skipped` others left aside.
    pub fn start(total: usize, skipped: usize) -> (r: (BulkRun, BulkProgress))
        ensures
            r.0.total() == total,
            r.0.completed() == 0,
            r.0.failed() == 0,
            r.0.skipped() == skipped,
            r.1 == r.0.progress(BulkStatus::Starting, None),
    {
        let run = BulkRun { total, completed: 0, failed: 0, skipped };
        let progress = BulkProgress {
            status: BulkStatus::Starting,
            stage: None,
            total,
            completed: 0,
            failed: 0,
            skipped,
            pending: total,
        };
        (run, progress)
    }

    fn snapshot(&self, status: BulkStatus, stage: Option<BulkStage>) -> (r: BulkProgress)
        ensures
            r == self.progress(status, stage),
            self.pending() >= 0,
    {
        proof {
            use_type_invariant(self);
        }
        BulkProgress {
            status,
            stage,
            total: self.total,
            completed: self.completed,
            failed: self.failed,
            skipped: self.skipped,
            pending: self.total - self.completed - self.failed,
        }
    }

    /// The number of messages still to take.
    pub fn remaining(&self) -> (r: usize)
        ensures
            r == self.pending(),
    {
        proof {
            use_type_invariant(self);
        }
        self.total - self.completed - self.failed
    }

    /// One message failed at `stage`. Where no message is pending, nothing
    /// is counted and nothing is reported.
    pub fn record_failure(&mut self, stage: BulkStage) -> (r: Option<BulkProgress>)
        ensures
            final(self).total() == old(self).total(),
            final(self).skipped() == old(self).skipped(),
            final(self).completed() == old(self).completed(),
            old(self).pending() > 0 ==> final(self).failed() == old(self).failed() + 1 && r
                == Some(final(self).progress(BulkStatus::Error, Some(stage))),
            old(self).pending() <= 0 ==> final(self).failed() == old(self).failed() && r is None,
    {
        proof {
            use_type_invariant(&*self);
        }
        if self.total - self.completed - self.failed == 0 {
            return None;
        }
        self.failed = self.failed + 1;
        Some(self.snapshot(BulkStatus::Error, Some(stage)))
    }

    /// One message was analyzed and stored. Where no message is pending,
    /// nothing is counted and nothing is reported.
    pub fn record_success(&mut self) -> (r: Option<BulkProgress>)
        ensures
            final(self).total() == old(self).total(),
            final(self).skipped() == old(self).skipped(),
            final(self).failed() == old(self).failed(),
            old(self).pending() > 0 ==> final(self).completed() == old(self).completed() + 1 && r
                == Some(final(self).progress(BulkStatus::Processed, None)),
            old(self).pending() <= 0 ==> final(self).completed() == old(self).completed() && r
                is None,
    {
        proof {
            use_type_invariant(&*self);
        }
        if self.total - self.completed - self.failed == 0 {
            return None;
        }
        self.completed = self.completed + 1;
        Some(self.snapshot(BulkStatus::Processed, None))
    }

    /// The counters at the end of the run.
    pub fn finish(&self) -> (r: BulkProgress)
        ensures
            r == self.progress(BulkStatus::Completed, None),
    {
        self.snapshot(BulkStatus::Completed, None)
    }
}

/// The array of the texts of a list.
pub open spec fn text_array(list: Seq<Seq<char>>) -> JsonModel {
    JsonModel::Array(Seq::new(list.len(), |i: int| JsonModel::Text(list[i])))
}

/// The metadata that is stored with an analysis: what was kept of the
/// reply, with the run, the message, the result, and what the cache held
/// before.
pub open spec fn final_metadata(
    base: JsonModel,
    run_id: Seq<char>,
    message: MessageForAnalysis,
    summary: Option<Seq<char>>,
    sentiment: Option<Seq<char>>,
    tags: Seq<Seq<char>>,
    model_id: Option<Seq<char>>,
) -> JsonModel {
    match base {
        JsonModel::Object(members) => {
            let m1 = with_member(members, "run_id"@, JsonModel::Text(run_id));
            let m2 = with_member(m1, "account_email"@, JsonModel::Text(message.account_email@));
            let m3 = with_member(m2, "uid"@, JsonModel::Text(message.uid@));
            let m4 = with_member(m3, "tags"@, text_array(tags));
            let m5 = with_member(m4, "summary"@, text_or_null(summary));
            let m6 = with_member(m5, "sentiment"@, text_or_null(sentiment));
            let m7 = with_member(
                m6,
                "previous_categories"@,
                text_array(texts(message.existing_analysis.categories@)),
            );
            let m8 = match message.existing_analysis.metadata {
                Some(previous) => with_member(m7, "previous_metadata"@, previous.model()),
                None => m7,
            };
            let m9 = match model_id {
                Some(id) => with_member(m8, "model_id"@, JsonModel::Text(id)),
                None => m8,
            };
            JsonModel::Object(m9)
        },
        other => other,
    }
}

/// The analysis of a message as a run stores it: marked as analyzed at
/// `now`, with the validation that the run starts with.
pub open spec fn final_analysis(
    message: MessageForAnalysis,
    normalized: NormalizedModel,
    run_id: Seq<char>,
    model_id: Option<Seq<char>>,
    validator_model_id: Option<Seq<char>>,
    now: i64,
) -> AnalysisInsertView {
    AnalysisInsertView {
        account_email: message.account_email@,
        uid: message.uid@,
        summary: normalized.summary,
        sentiment: normalized.sentiment,
        categories: normalized.tags,
        metadata_json: final_metadata(
            normalized.metadata,
            run_id,
            message,
            normalized.summary,
            normalized.sentiment,
            normalized.tags,
            model_id,
        ),
        model_id,
        analyzed: true,
        analyzed_at: Some(now),
        analysis_confidence: normalized.confidence,
        validation: match validator_model_id {
            Some(v) => AnalysisValidationView::pending(v),
            None => AnalysisValidationView::none(),
        },
    }
}

fn text_array_value(list: &Vec<String>) -> (r: JsonValue)
    ensures
        r.model() == text_array(texts(list@)),
{
    let r = JsonValue::text_list(list);
    assert(r.model()->Array_0 =~= text_array(texts(list@))->Array_0);
    r
}

/// Makes the analysis that a run stores for a message.
pub fn finalize_analysis(
    message: &MessageForAnalysis,
    normalized: NormalizedBulkAnalysis,
    run_id: &str,
    model_id: &Option<String>,
    validator_model_id: &Option<String>,
    now: i64,
) -> (r: AnalysisInsert)
    ensures
        r@ == final_analysis(
            *message,
            normalized.model(),
            run_id@,
            opt_text(*model_id),
            opt_text(*validator_model_id),
            now,
        ),
        r@.consistent(),
{
    let summary = normalized.summary;
    let sentiment = normalized.sentiment;
    let tags = normalized.tags;
    let metadata = match normalized.metadata {
        JsonValue::Object(members) => {
            let ghost base = normalized.metadata.model()->Object_0;
            let mut members = members;
            assert(member_models(members@) =~= base);
            set_member(&mut members, "run_id", JsonValue::Text(run_id.to_owned()));
            set_member(&mut members, "account_email", JsonValue::Text(message.account_email.clone()));
            set_member(&mut members, "uid", JsonValue::Text(message.uid.clone()));
            set_member(&mut members, "tags", text_array_value(&tags));
            set_member(&mut members, "summary", JsonValue::text_or_null(clone_opt_string(&summary)));
            set_member(
                &mut members,
                "sentiment",
                JsonValue::text_or_null(clone_opt_string(&sentiment)),
            );
            set_member(
                &mut members,
                "previous_categories",
                text_array_value(&message.existing_analysis.categories),
            );
            match &message.existing_analysis.metadata {
                Some(previous) => {
                    set_member(&mut members, "previous_metadata", previous.duplicate());
                },
                None => {},
            }
            match model_id {
                Some(id) => {
                    set_member(&mut members, "model_id", JsonValue::Text(id.clone()));
                },
                None => {},
            }
            let value = JsonValue::Object(members);
            assert(value.model()->Object_0 =~= member_models(members@));
            value
        },
        other => other,
    };
    AnalysisInsert {
        account_email: message.account_email.clone(),
        uid: message.uid.clone(),
        summary,
        sentiment,
        categories: tags,
        metadata_json: metadata,
        model_id: clone_opt_string(model_id),
        analyzed: true,
        analyzed_at: Some(now),
        analysis_confidence: normalized.confidence,
        validation: AnalysisValidation::initial(validator_model_id),
    }
}

} // verus!
