//! The bookkeeping of a mailbox sync: the records made of each message, the
//! running totals, the progress reported per batch, and the watermark that
//! the next incremental sync starts from.

use crate::json::{JsonModel, JsonValue};
use crate::models::{EmailSummary, EmailSummaryView, SyncReport};
use crate::providers::{envelope_views, opt_bytes, MessageEnvelope, MessageEnvelopeView};
use crate::storage::{
    analysis_views, insert_views, AnalysisInsert, AnalysisInsertView, AnalysisValidation,
    AnalysisValidationView, MessageInsert, MessageInsertView,
};
use crate::text::{
    blank, chars_of, clip_chars, clipped, contains_text, has_text, is_blank, join, join_strings,
    lower_case, opt_text, push_text, texts, to_lower_case, trim, trimmed,
};
use vstd::prelude::*;
use vstd::string::*;

verus! {

/// The chunk size of a sync whose caller names none.
pub const DEFAULT_SYNC_CHUNK: usize = 50;

/// The number of messages fetched when an account is connected.
pub const CONNECT_FETCH_LIMIT: usize = 25;

/// The number of messages fetched by each run of the periodic sync.
pub const PERIODIC_FETCH_LIMIT: usize = 200;

/// The most characters of the summary that the quick analysis makes.
pub const QUICK_SUMMARY_CHARS: usize = 200;

pub const FULL_SYNC_PROGRESS_EVENT: &'static str = "full-sync-progress";

/// One if `word` stands in `text`, else zero.
pub open spec fn hit(text: Seq<char>, word: Seq<char>) -> int {
    if contains_text(text, word) {
        1
    } else {
        0
    }
}

/// The number of words of thanks and success that a lower-cased text holds.
pub open spec fn positive_hits(text: Seq<char>) -> int {
    hit(text, "thanks"@) + hit(text, "thank you"@) + hit(text, "appreciate"@) + hit(text, "great"@)
        + hit(text, "success"@) + hit(text, "approved"@)
}

/// The number of words of trouble that a lower-cased text holds.
pub open spec fn negative_hits(text: Seq<char>) -> int {
    hit(text, "issue"@) + hit(text, "urgent"@) + hit(text, "problem"@) + hit(text, "failed"@) + hit(
        text,
        "declined"@,
    ) + hit(text, "error"@)
}

/// The sentiment of a lower-cased text: positive or negative where one kind
/// of word outnumbers the other by more than one, none for a blank text,
/// neutral otherwise.
pub open spec fn quick_sentiment(combined: Seq<char>) -> Option<Seq<char>> {
    let score = positive_hits(combined) - negative_hits(combined);
    if score > 1 {
        Some("positive"@)
    } else if score < -1 {
        Some("negative"@)
    } else if is_blank(combined) {
        None
    } else {
        Some("neutral"@)
    }
}

pub open spec fn mentions_billing(t: Seq<char>) -> bool {
    contains_text(t, "invoice"@) || contains_text(t, "receipt"@) || contains_text(t, "payment"@)
}

pub open spec fn mentions_alert(t: Seq<char>) -> bool {
    contains_text(t, "alert"@) || contains_text(t, "warning"@) || contains_text(t, "security"@)
}

pub open spec fn mentions_newsletter(t: Seq<char>) -> bool {
    contains_text(t, "newsletter"@) || contains_text(t, "subscribe"@) || contains_text(
        t,
        "update"@,
    )
}

pub open spec fn mentions_calendar(t: Seq<char>) -> bool {
    contains_text(t, "meeting"@) || contains_text(t, "schedule"@) || contains_text(t, "calendar"@)
}

/// `list` with `item` added where `add` holds.
pub open spec fn with_if(list: Seq<Seq<char>>, add: bool, item: Seq<char>) -> Seq<Seq<char>> {
    if add {
        list.push(item)
    } else {
        list
    }
}

/// The categories of a lower-cased text, in alphabetical order.
pub open spec fn quick_categories(combined: Seq<char>) -> Seq<Seq<char>> {
    with_if(
        with_if(
            with_if(
                with_if(Seq::empty(), mentions_alert(combined), "alert"@),
                mentions_billing(combined),
                "billing"@,
            ),
            mentions_calendar(combined),
            "calendar"@,
        ),
        mentions_newsletter(combined),
        "newsletter"@,
    )
}

/// The text that the quick summary is cut from: the snippet where it is not
/// blank, else the subject, trimmed.
pub open spec fn summary_base(subject: Seq<char>, snippet: Option<Seq<char>>) -> Seq<char> {
    if snippet is Some && !is_blank(snippet->0) {
        trim(snippet->0)
    } else {
        trim(subject)
    }
}

/// The quick summary: the base text cut down to 200 characters, with an
/// ellipsis where it was longer; none where there is no text.
pub open spec fn quick_summary(subject: Seq<char>, snippet: Option<Seq<char>>) -> Option<
    Seq<char>,
> {
    let base = summary_base(subject, snippet);
    if base.len() == 0 {
        None
    } else {
        Some(clipped(base, QUICK_SUMMARY_CHARS as nat))
    }
}

/// The text whose lower-case form is searched for words: the subject, a
/// space, and the snippet where there is one.
pub open spec fn combined_text(subject: Seq<char>, snippet: Option<Seq<char>>) -> Seq<char> {
    subject + " "@ + match snippet {
        Some(s) => s,
        None => Seq::empty(),
    }
}

pub open spec fn opt_str(o: Option<&str>) -> Option<Seq<char>> {
    match o {
        Some(s) => Some(s@),
        None => None,
    }
}

fn word_hit(hay: &Vec<char>, word: &str) -> (r: i32)
    ensures
        r == hit(hay@, word@),
{
    if has_text(hay, &chars_of(word)) {
        1
    } else {
        0
    }
}

fn has_word(hay: &Vec<char>, word: &str) -> (r: bool)
    ensures
        r == contains_text(hay@, word@),
{
    has_text(hay, &chars_of(word))
}

/// The quick analysis of a message, given the lower-case form of its
/// combined text: the summary, the sentiment and the categories.
pub fn analyze_lowered(subject: &str, snippet: Option<&str>, combined: &str) -> (r: (
    Option<String>,
    Option<String>,
    Vec<String>,
))
    ensures
        opt_text(r.0) == quick_summary(subject@, opt_str(snippet)),
        opt_text(r.1) == quick_sentiment(combined@),
        texts(r.2@) == quick_categories(combined@),
{
    let base = match snippet {
        Some(s) => if blank(s) {
            trimmed(subject)
        } else {
            trimmed(s)
        },
        None => trimmed(subject),
    };
    let base_chars = chars_of(base.as_str());
    let summary = if base_chars.len() == 0 {
        None
    } else {
        Some(clip_chars(&base_chars, QUICK_SUMMARY_CHARS))
    };
    let hay = chars_of(combined);
    let positive: i32 = word_hit(&hay, "thanks") + word_hit(&hay, "thank you") + word_hit(
        &hay,
        "appreciate",
    ) + word_hit(&hay, "great") + word_hit(&hay, "success") + word_hit(&hay, "approved");
    let negative: i32 = word_hit(&hay, "issue") + word_hit(&hay, "urgent") + word_hit(
        &hay,
        "problem",
    ) + word_hit(&hay, "failed") + word_hit(&hay, "declined") + word_hit(&hay, "error");
    let score: i32 = positive - negative;
    let sentiment = if score > 1 {
        Some("positive".to_owned())
    } else if score < -1 {
        Some("negative".to_owned())
    } else if blank(combined) {
        None
    } else {
        Some("neutral".to_owned())
    };
    let mut categories: Vec<String> = Vec::new();
    assert(texts(categories@) =~= Seq::<Seq<char>>::empty());
    if has_word(&hay, "alert") || has_word(&hay, "warning") || has_word(&hay, "security") {
        let ghost before = texts(categories@);
        categories.push("alert".to_owned());
        assert(texts(categories@) =~= before.push("alert"@));
    }
    if has_word(&hay, "invoice") || has_word(&hay, "receipt") || has_word(&hay, "payment") {
        let ghost before = texts(categories@);
        categories.push("billing".to_owned());
        assert(texts(categories@) =~= before.push("billing"@));
    }
    if has_word(&hay, "meeting") || has_word(&hay, "schedule") || has_word(&hay, "calendar") {
        let ghost before = texts(categories@);
        categories.push("calendar".to_owned());
        assert(texts(categories@) =~= before.push("calendar"@));
    }
    if has_word(&hay, "newsletter") || has_word(&hay, "subscribe") || has_word(&hay, "update") {
        let ghost before = texts(categories@);
        categories.push("newsletter".to_owned());
        assert(texts(categories@) =~= before.push("newsletter"@));
    }
    (summary, sentiment, categories)
}

/// The quick analysis of a message: a summary cut from the snippet or the
/// subject, a sentiment from the words of thanks and of trouble, and the
/// categories that its words point to.
pub fn analyze_message(subject: &str, snippet: Option<&str>) -> (r: (
    Option<String>,
    Option<String>,
    Vec<String>,
))
    ensures
        opt_text(r.0) == quick_summary(subject@, opt_str(snippet)),
        opt_text(r.1) == quick_sentiment(lower_case(combined_text(subject@, opt_str(snippet)))),
        texts(r.2@) == quick_categories(lower_case(combined_text(subject@, opt_str(snippet)))),
{
    let mut combined = subject.to_owned();
    push_text(&mut combined, " ");
    match snippet {
        Some(s) => {
            push_text(&mut combined, s);
        },
        None => {
            assert(combined@ + Seq::<char>::empty() =~= combined@);
        },
    }
    let lowered = to_lower_case(combined.as_str());
    analyze_lowered(subject, snippet, lowered.as_str())
}

/// The flags of a message as one text: their names with a space between
/// them; none where there is no flag.
pub open spec fn flags_text(flags: Option<Seq<Seq<char>>>) -> Option<Seq<char>> {
    match flags {
        Some(names) => if names.len() == 0 {
            None
        } else {
            Some(join(names, " "@))
        },
        None => None,
    }
}

pub open spec fn opt_texts(o: Option<&Vec<String>>) -> Option<Seq<Seq<char>>> {
    match o {
        Some(v) => Some(texts(v@)),
        None => None,
    }
}

/// The row of a message as it is handed to the cache.
pub open spec fn message_record(
    account_email: Seq<char>,
    summary: EmailSummaryView,
    snippet: Option<Seq<char>>,
    body: Option<Seq<u8>>,
    flags: Option<Seq<Seq<char>>>,
) -> MessageInsertView {
    MessageInsertView {
        account_email,
        uid: summary.uid,
        sender_display: match summary.sender.display_name {
            Some(name) => name,
            None => summary.sender.email,
        },
        sender_email: summary.sender.email,
        subject: summary.subject,
        date: summary.date,
        snippet,
        body,
        flags: flags_text(flags),
    }
}

/// The quick analysis of a message as it is handed to the cache: not yet
/// marked as analyzed, without model, metadata or validation.
pub open spec fn analysis_record(
    account_email: Seq<char>,
    summary: EmailSummaryView,
    snippet: Option<Seq<char>>,
) -> AnalysisInsertView {
    let combined = lower_case(combined_text(summary.subject, snippet));
    AnalysisInsertView {
        account_email,
        uid: summary.uid,
        summary: quick_summary(summary.subject, snippet),
        sentiment: quick_sentiment(combined),
        categories: quick_categories(combined),
        metadata_json: JsonModel::Null,
        model_id: None,
        analyzed: false,
        analyzed_at: None,
        analysis_confidence: None,
        validation: AnalysisValidationView::none(),
    }
}

/// Makes the two rows that the cache holds of a message: the message
/// itself and its quick analysis.
pub fn build_records(
    account_email: &str,
    summary: &EmailSummary,
    snippet: Option<String>,
    body: Option<Vec<u8>>,
    flags: Option<&Vec<String>>,
) -> (r: (MessageInsert, AnalysisInsert))
    ensures
        r.0@ == message_record(
            account_email@,
            summary@,
            opt_text(snippet),
            opt_bytes(body),
            opt_texts(flags),
        ),
        r.1@ == analysis_record(account_email@, summary@, opt_text(snippet)),
        r.1@.consistent(),
{
    let flags_string = match flags {
        Some(values) => if values.len() == 0 {
            None
        } else {
            Some(join_strings(values, " "))
        },
        None => None,
    };
    let display_name = match &summary.sender.display_name {
        Some(name) => name.clone(),
        None => summary.sender.email.clone(),
    };
    let analysis = match &snippet {
        Some(s) => analyze_message(summary.subject.as_str(), Some(s.as_str())),
        None => analyze_message(summary.subject.as_str(), None),
    };
    let insert = MessageInsert {
        account_email: account_email.to_owned(),
        uid: summary.uid.clone(),
        sender_display: display_name,
        sender_email: summary.sender.email.clone(),
        subject: summary.subject.clone(),
        date: crate::models::clone_opt_string(&summary.date),
        snippet,
        body,
        flags: flags_string,
    };
    let record = AnalysisInsert {
        account_email: account_email.to_owned(),
        uid: summary.uid.clone(),
        summary: analysis.0,
        sentiment: analysis.1,
        categories: analysis.2,
        metadata_json: JsonValue::Null,
        model_id: None,
        analyzed: false,
        analyzed_at: None,
        analysis_confidence: None,
        validation: AnalysisValidation::default(),
    };
    (insert, record)
}

/// The rows made of a synced message with its snippet, body and flags.
pub open spec fn envelope_message(account_email: Seq<char>, e: MessageEnvelopeView) -> MessageInsertView {
    message_record(
        account_email,
        e.summary,
        e.snippet,
        e.body,
        if e.flags.len() == 0 {
            None
        } else {
            Some(e.flags)
        },
    )
}

pub open spec fn envelope_analysis(account_email: Seq<char>, e: MessageEnvelopeView) -> AnalysisInsertView {
    analysis_record(account_email, e.summary, e.snippet)
}

/// Makes the rows of all messages of a batch, in their order.
pub fn batch_records(account_email: &str, messages: &Vec<MessageEnvelope>) -> (r: (
    Vec<MessageInsert>,
    Vec<AnalysisInsert>,
))
    ensures
        insert_views(r.0@) == envelope_views(messages@).map_values(
            |e: MessageEnvelopeView| envelope_message(account_email@, e),
        ),
        analysis_views(r.1@) == envelope_views(messages@).map_values(
            |e: MessageEnvelopeView| envelope_analysis(account_email@, e),
        ),
{
    let mut inserts: Vec<MessageInsert> = Vec::new();
    let mut analyses: Vec<AnalysisInsert> = Vec::new();
    let mut i: usize = 0;
    while i < messages.len()
        invariant
            i <= messages.len(),
            inserts.len() == i,
            analyses.len() == i,
            forall|k: int|
                0 <= k < i ==> (#[trigger] inserts@[k])@ == envelope_message(
                    account_email@,
                    messages@[k]@,
                ),
            forall|k: int|
                0 <= k < i ==> (#[trigger] analyses@[k])@ == envelope_analysis(
                    account_email@,
                    messages@[k]@,
                ),
        decreases messages.len() - i,
    {
        let envelope = &messages[i];
        let snippet = crate::models::clone_opt_string(&envelope.snippet);
        let body = match &envelope.body {
            Some(b) => Some(b.clone()),
            None => None,
        };
        let pair = if envelope.flags.len() == 0 {
            build_records(account_email, &envelope.summary, snippet, body, None)
        } else {
            build_records(account_email, &envelope.summary, snippet, body, Some(&envelope.flags))
        };
        inserts.push(pair.0);
        analyses.push(pair.1);
        i += 1;
    }
    assert(insert_views(inserts@) =~= envelope_views(messages@).map_values(
        |e: MessageEnvelopeView| envelope_message(account_email@, e),
    ));
    assert(analysis_views(analyses@) =~= envelope_views(messages@).map_values(
        |e: MessageEnvelopeView| envelope_analysis(account_email@, e),
    ));
    (inserts, analyses)
}

/// The rows made of a summary that came without snippet, body or flags.
pub fn summary_records(account_email: &str, summaries: &Vec<EmailSummary>) -> (r: (
    Vec<MessageInsert>,
    Vec<AnalysisInsert>,
))
    ensures
        r.0.len() == summaries.len(),
        r.1.len() == summaries.len(),
        forall|k: int|
            0 <= k < summaries.len() ==> (#[trigger] r.0@[k])@ == message_record(
                account_email@,
                summaries@[k]@,
                None,
                None,
                None,
            ),
        forall|k: int|
            0 <= k < summaries.len() ==> (#[trigger] r.1@[k])@ == analysis_record(
                account_email@,
                summaries@[k]@,
                None,
            ),
{
    let mut inserts: Vec<MessageInsert> = Vec::new();
    let mut analyses: Vec<AnalysisInsert> = Vec::new();
    let mut i: usize = 0;
    while i < summaries.len()
        invariant
            i <= summaries.len(),
            inserts.len() == i,
            analyses.len() == i,
            forall|k: int|
                0 <= k < i ==> (#[trigger] inserts@[k])@ == message_record(
                    account_email@,
                    summaries@[k]@,
                    None,
                    None,
                    None,
                ),
            forall|k: int|
                0 <= k < i ==> (#[trigger] analyses@[k])@ == analysis_record(
                    account_email@,
                    summaries@[k]@,
                    None,
                ),
        decreases summaries.len() - i,
    {
        let pair = build_records(account_email, &summaries[i], None, None, None);
        inserts.push(pair.0);
        analyses.push(pair.1);
        i += 1;
    }
    (inserts, analyses)
}

/// The two kinds of sync, which count what was stored in different ways.
#[derive(Debug, Clone, Copy, PartialEq, Eq, Structural)]
pub enum SyncKind {
    Full,
    Incremental,
}

/// `a + b`, held at the largest number where the sum passes it.
pub open spec fn capped_sum(a: usize, b: usize) -> usize {
    if a + b > usize::MAX {
        usize::MAX
    } else {
        (a + b) as usize
    }
}

fn add_capped(a: usize, b: usize) -> (r: usize)
    ensures
        r == capped_sum(a, b),
{
    if a > usize::MAX - b {
        usize::MAX
    } else {
        a + b
    }
}

/// What one batch of a sync reports to the user interface.
#[derive(Debug, Clone)]
pub struct SyncProgressPayload {
    pub email: String,
    pub batch: usize,
    pub total_batches: usize,
    pub fetched: usize,
    pub stored: usize,
    pub elapsed_ms: u64,
}

pub struct SyncProgressView {
    pub email: Seq<char>,
    pub batch: usize,
    pub total_batches: usize,
    pub fetched: usize,
    pub stored: usize,
    pub elapsed_ms: u64,
}

impl View for SyncProgressPayload {
    type V = SyncProgressView;

    open spec fn view(&self) -> SyncProgressView {
        SyncProgressView {
            email: self.email@,
            batch: self.batch,
            total_batches: self.total_batches,
            fetched: self.fetched,
            stored: self.stored,
            elapsed_ms: self.elapsed_ms,
        }
    }
}

/// One batch as the consumer of a sync saw it.
#[derive(Debug, Clone, Copy, PartialEq, Eq, Structural)]
pub struct BatchOutcome {
    /// The index and total that the batch came with.
    pub index: usize,
    pub total: usize,
    /// The number of rows made of the batch.
    pub records: usize,
    /// The number of messages that the batch says it fetched.
    pub fetched: usize,
    /// Whether the rows could be written to the cache.
    pub stored: bool,
}

/// The running totals of a sync.
#[derive(Debug, Clone, Copy, PartialEq, Eq, Structural)]
pub struct SyncTally {
    pub kind: SyncKind,
    pub total_fetched: usize,
    pub total_stored: usize,
}

/// The totals after a batch. The rows of the batch count as fetched. Where
/// they were written, a full sync counts everything fetched so far as
/// stored, and an incremental sync adds what the batch says it fetched.
pub open spec fn tally_after(tally: SyncTally, batch: BatchOutcome) -> SyncTally {
    let fetched = capped_sum(tally.total_fetched, batch.records);
    SyncTally {
        kind: tally.kind,
        total_fetched: fetched,
        total_stored: if !batch.stored {
            tally.total_stored
        } else if tally.kind == SyncKind::Full {
            fetched
        } else {
            capped_sum(tally.total_stored, batch.fetched)
        },
    }
}

impl SyncTally {
    pub fn new(kind: SyncKind) -> (r: SyncTally)
        ensures
            r == (SyncTally { kind, total_fetched: 0, total_stored: 0 }),
    {
        SyncTally { kind, total_fetched: 0, total_stored: 0 }
    }

    /// Takes in a batch. A batch without a row changes nothing and reports
    /// nothing; any other batch moves the totals and reports them.
    pub fn record_batch(&mut self, email: &str, batch: BatchOutcome, elapsed_ms: u64) -> (r: Option<
        SyncProgressPayload,
    >)
        ensures
            batch.records == 0 ==> r is None && *final(self) == *old(self),
            batch.records > 0 ==> *final(self) == tally_after(*old(self), batch) && r is Some
                && r->0@ == (SyncProgressView {
                email: email@,
                batch: batch.index,
                total_batches: batch.total,
                fetched: final(self).total_fetched,
                stored: final(self).total_stored,
                elapsed_ms,
            }),
    {
        if batch.records == 0 {
            return None;
        }
        self.total_fetched = add_capped(self.total_fetched, batch.records);
        if batch.stored {
            let full = match self.kind {
                SyncKind::Full => true,
                SyncKind::Incremental => false,
            };
            if full {
                self.total_stored = self.total_fetched;
            } else {
                self.total_stored = add_capped(self.total_stored, batch.fetched);
            }
        }
        Some(
            SyncProgressPayload {
                email: email.to_owned(),
                batch: batch.index,
                total_batches: batch.total,
                fetched: self.total_fetched,
                stored: self.total_stored,
                elapsed_ms,
            },
        )
    }

    /// Whether the sync ends with this batch: a batch whose rows could not
    /// be written to the cache aborts the sync, so that nothing of a later
    /// batch is written past it.
    pub fn must_stop(&self, batch: BatchOutcome) -> (r: bool)
        ensures
            r == (batch.records > 0 && !batch.stored),
    {
        batch.records > 0 && !batch.stored
    }

    /// The report of the finished sync.
    pub fn report(&self, duration_ms: u64) -> (r: SyncReport)
        ensures
            r == (SyncReport {
                fetched: self.total_fetched,
                stored: self.total_stored,
                duration_ms,
            }),
    {
        SyncReport { fetched: self.total_fetched, stored: self.total_stored, duration_ms }
    }

    /// Whether the sync state records a full sync.
    pub fn is_full(&self) -> (r: bool)
        ensures
            r == (self.kind == SyncKind::Full),
    {
        match self.kind {
            SyncKind::Full => true,
            SyncKind::Incremental => false,
        }
    }
}

/// Neither total ever goes down, and a full sync never counts more stored
/// than fetched.
pub proof fn lemma_tally_grows(tally: SyncTally, batch: BatchOutcome)
    ensures
        tally.total_fetched <= tally_after(tally, batch).total_fetched,
        tally.total_stored <= tally.total_fetched ==> tally.total_stored <= tally_after(
            tally,
            batch,
        ).total_stored,
        tally.kind == SyncKind::Full && tally.total_stored <= tally.total_fetched ==> tally_after(
            tally,
            batch,
        ).total_stored <= tally_after(tally, batch).total_fetched,
        tally.kind == SyncKind::Incremental ==> tally.total_stored <= tally_after(
            tally,
            batch,
        ).total_stored,
{
}

/// The value of a decimal digit, or none for any other character.
pub open spec fn digit_value(c: char) -> Option<int> {
    if '0' <= c && c <= '9' {
        Some(c as int - 48)
    } else {
        None
    }
}

/// The number that a text of decimal digits stands for; none for the empty
/// text and for a text that holds anything but digits.
pub open spec fn digits_value(s: Seq<char>) -> Option<int>
    decreases s.len(),
{
    if s.len() == 0 {
        None
    } else if s.len() == 1 {
        digit_value(s[0])
    } else {
        match (digits_value(s.drop_last()), digit_value(s.last())) {
            (Some(high), Some(low)) => Some(high * 10 + low),
            _ => None,
        }
    }
}

/// The UID that a stored text stands for: decimal digits, a plus sign
/// allowed in front, a value that a UID can hold.
pub open spec fn uid_of_text(s: Seq<char>) -> Option<u32> {
    let digits = if s.len() > 0 && s[0] == '+' {
        s.skip(1)
    } else {
        s
    };
    match digits_value(digits) {
        Some(v) => if v <= u32::MAX {
            Some(v as u32)
        } else {
            None
        },
        None => None,
    }
}

/// Reads the watermark of an incremental sync out of the latest stored UID.
#[verifier::loop_isolation(false)]
pub fn parse_uid(text: &str) -> (r: Option<u32>)
    ensures
        r == uid_of_text(text@),
{
    let chars = chars_of(text);
    let start: usize = if chars.len() > 0 && chars[0] == '+' {
        1
    } else {
        0
    };
    let ghost digits = chars@.skip(start as int);
    assert(chars@.skip(0) =~= chars@);
    if chars.len() == start {
        assert(digits.len() == 0);
        return None;
    }
    let mut value: u64 = 0;
    let mut i: usize = start;
    let mut over = false;
    while i < chars.len()
        invariant
            start <= i <= chars.len(),
            start < chars.len(),
            digits == chars@.skip(start as int),
            i > start ==> digits_value(digits.take(i - start)) is Some,
            i > start && !over ==> digits_value(digits.take(i - start))->0 == value && value
                <= u32::MAX,
            i > start && over ==> digits_value(digits.take(i - start))->0 > u32::MAX,
            i == start ==> value == 0 && !over,
        decreases chars.len() - i,
    {
        let c = chars[i];
        proof {
            let cur = digits.take(i - start + 1);
            assert(cur.last() == c);
            assert(cur.drop_last() =~= digits.take(i - start));
        }
        if !('0' <= c && c <= '9') {
            proof {
                assert(digits[i - start] == c);
                lemma_not_digits(digits, i - start);
            }
            return None;
        }
        let d: u64 = (c as u64) - 48;
        if !over {
            value = value * 10 + d;
            if value > u32::MAX as u64 {
                over = true;
            }
        }
        i += 1;
    }
    assert(digits.take(digits.len() as int) =~= digits);
    if over {
        None
    } else {
        Some(value as u32)
    }
}

proof fn lemma_not_digits(s: Seq<char>, at: int)
    requires
        0 <= at < s.len(),
        digit_value(s[at]) is None,
    ensures
        digits_value(s) is None,
    decreases s.len(),
{
    if s.len() > 1 {
        if at < s.len() - 1 {
            lemma_not_digits(s.drop_last(), at);
        }
    }
}

/// The seconds between two runs of the periodic sync: none where the sync
/// is switched off, by no interval or by an interval of zero minutes.
pub open spec fn periodic_interval_of(minutes: Option<u64>) -> Option<u64> {
    match minutes {
        Some(m) => if m == 0 {
            None
        } else if m * 60 > u64::MAX {
            Some(u64::MAX)
        } else {
            Some((m * 60) as u64)
        },
        None => None,
    }
}

pub fn periodic_interval_secs(minutes: Option<u64>) -> (r: Option<u64>)
    ensures
        r == periodic_interval_of(minutes),
{
    match minutes {
        Some(m) => {
            if m == 0 {
                None
            } else if m > u64::MAX / 60 {
                Some(u64::MAX)
            } else {
                Some(m * 60)
            }
        },
        None => None,
    }
}

} // verus!
