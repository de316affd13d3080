//! The remote-delete queue: how large the next batch may be, how long to back
//! off, when to fall back to single deletes, which stored rows are retried,
//! and what is reported after each batch.

use crate::accounts::AccountMap;
use crate::providers::{ProviderError, ProviderErrorView};
use crate::text::{
    blank, chars_of, contains_text, has_text, is_blank, lower_case, opt_text, push_text, texts,
    to_lower_case,
};
use vstd::prelude::*;
use vstd::string::*;

verus! {

pub const MAX_BATCH_SIZE: usize = 15;

pub const MIN_BATCH_SIZE: usize = 1;

pub const BATCH_GROWTH_STEP: usize = 4;

pub const BATCH_DEBOUNCE_MS: u64 = 150;

pub const BACKOFF_BASE_SECS: u64 = 1;

pub const BACKOFF_MAX_SECS: u64 = 120;

/// The largest exponent of the backoff's base-2 growth.
pub const BACKOFF_MAX_EXPONENT: u32 = 6;

pub const SINGLE_DELETE_DELAY_MS: u64 = 200;

pub const RECONCILE_INTERVAL_SECS: u64 = 45;

/// The most stored rows that one reconciliation pass or a resume loads.
pub const RECONCILE_FETCH_LIMIT: usize = 150;

pub const METRICS_HISTORY_LIMIT: usize = 360;

pub const METRIC_WINDOW_SECS: i64 = 60;

pub const REMOTE_DELETE_EVENT: &'static str = "remote-delete-status";

pub const REMOTE_DELETE_ENQUEUED_EVENT: &'static str = "remote-delete-queued";

pub const REMOTE_DELETE_METRICS_EVENT: &'static str = "remote-delete-metrics";

#[derive(Clone, Copy, Debug, PartialEq, Eq, Structural)]
pub enum ModeOverride {
    Auto,
    ForceBatch,
}

impl ModeOverride {
    pub open spec fn label(self) -> Seq<char> {
        match self {
            ModeOverride::Auto => "auto"@,
            ModeOverride::ForceBatch => "force-batch"@,
        }
    }

    pub fn as_str(&self) -> (r: &'static str)
        ensures
            r@ == self.label(),
    {
        match self {
            ModeOverride::Auto => "auto",
            ModeOverride::ForceBatch => "force-batch",
        }
    }
}

/// Two to the power of `e`.
pub open spec fn pow2(e: nat) -> nat
    decreases e,
{
    if e == 0 {
        1
    } else {
        2 * pow2((e - 1) as nat)
    }
}

/// The seconds to wait after a failed batch that `n` failed batches came
/// before: the base doubled `n` times, the doubling stopped after six, the
/// whole held under the maximum.
pub open spec fn backoff_secs(n: nat) -> nat {
    let e = if n < BACKOFF_MAX_EXPONENT {
        n
    } else {
        BACKOFF_MAX_EXPONENT as nat
    };
    let secs = (BACKOFF_BASE_SECS * pow2(e)) as nat;
    if secs < BACKOFF_MAX_SECS {
        secs
    } else {
        BACKOFF_MAX_SECS as nat
    }
}

proof fn lemma_pow2_monotonic(a: nat, b: nat)
    requires
        a <= b,
    ensures
        pow2(a) <= pow2(b),
    decreases b,
{
    if a < b {
        lemma_pow2_monotonic(a, (b - 1) as nat);
    }
}

/// More consecutive failures never shorten the backoff.
pub proof fn lemma_backoff_monotonic(n1: nat, n2: nat)
    requires
        n1 <= n2,
    ensures
        backoff_secs(n1) <= backoff_secs(n2),
{
    let e1 = if n1 < 6 { n1 } else { 6 };
    let e2 = if n2 < 6 { n2 } else { 6 };
    lemma_pow2_monotonic(e1, e2);
}

/// The backoff is one second after the first failure and two after the
/// second, stops growing at 64 seconds, and never passes the maximum.
pub proof fn lemma_backoff_bounds(n: nat)
    ensures
        BACKOFF_BASE_SECS <= backoff_secs(n) <= BACKOFF_MAX_SECS,
        backoff_secs(0) == 1,
        backoff_secs(1) == 2,
        n >= BACKOFF_MAX_EXPONENT ==> backoff_secs(n) == 64,
{
    reveal_with_fuel(pow2, 8);
    let e = if n < 6 { n } else { 6 };
    lemma_pow2_monotonic(0, e);
    lemma_pow2_monotonic(e, 6);
}

/// The seconds to wait after a failed batch that `consecutive_failures`
/// failed batches came before in a row.
pub fn compute_backoff(consecutive_failures: u32) -> (secs: u64)
    ensures
        secs == backoff_secs(consecutive_failures as nat),
{
    let exponent: u32 = if consecutive_failures < BACKOFF_MAX_EXPONENT {
        consecutive_failures
    } else {
        BACKOFF_MAX_EXPONENT
    };
    let mut multiplier: u64 = 1;
    let mut i: u32 = 0;
    while i < exponent
        invariant
            i <= exponent <= 6,
            multiplier == pow2(i as nat),
        decreases exponent - i,
    {
        proof {
            reveal_with_fuel(pow2, 8);
            lemma_pow2_monotonic(i as nat, 5);
        }
        multiplier = multiplier * 2;
        i += 1;
    }
    proof {
        reveal_with_fuel(pow2, 8);
    }
    let secs: u64 = BACKOFF_BASE_SECS * multiplier;
    if secs < BACKOFF_MAX_SECS {
        secs
    } else {
        BACKOFF_MAX_SECS
    }
}

/// A lower-cased error message reads like a rate limit.
pub open spec fn mentions_rate_limit(lowered: Seq<char>) -> bool {
    contains_text(lowered, "rate"@) || contains_text(lowered, "too many"@) || contains_text(
        lowered,
        "temporarily"@,
    ) || contains_text(lowered, "unavailable"@) || contains_text(lowered, "try again later"@)
}

/// An error that calls for a backoff: any error but an authentication
/// failure whose message, in lower case, reads like a rate limit.
pub open spec fn is_rate_limit(e: ProviderErrorView) -> bool {
    match e {
        ProviderErrorView::Authentication(_) => false,
        ProviderErrorView::Network(m) => mentions_rate_limit(lower_case(m)),
        ProviderErrorView::Imap(m) => mentions_rate_limit(lower_case(m)),
        ProviderErrorView::Other(m) => mentions_rate_limit(lower_case(m)),
    }
}

/// Whether a message, already in lower case, reads like a rate limit.
pub fn rate_limit_wording(lowered: &str) -> (r: bool)
    ensures
        r == mentions_rate_limit(lowered@),
{
    let hay = chars_of(lowered);
    has_text(&hay, &chars_of("rate")) || has_text(&hay, &chars_of("too many")) || has_text(
        &hay,
        &chars_of("temporarily"),
    ) || has_text(&hay, &chars_of("unavailable")) || has_text(&hay, &chars_of("try again later"))
}

pub fn is_rate_limit_error(error: &ProviderError) -> (r: bool)
    ensures
        r == is_rate_limit(error@),
{
    match error {
        ProviderError::Authentication(_) => false,
        ProviderError::Network(message) => rate_limit_wording(to_lower_case(message.as_str()).as_str()),
        ProviderError::Imap(message) => rate_limit_wording(to_lower_case(message.as_str()).as_str()),
        ProviderError::Other(message) => rate_limit_wording(to_lower_case(message.as_str()).as_str()),
    }
}

/// A lower-cased stored error says that the message is gone for good.
pub open spec fn mentions_permanent_failure(lowered: Seq<char>) -> bool {
    contains_text(lowered, "no such message"@) || contains_text(lowered, "not found"@)
        || contains_text(lowered, "already expunged"@) || contains_text(lowered, "invalid uid"@)
}

/// A stored row is tried again when it carries no error, or one that does
/// not say that the message is gone for good.
pub open spec fn should_retry(remote_error: Option<Seq<char>>) -> bool {
    match remote_error {
        None => true,
        Some(m) => !mentions_permanent_failure(lower_case(m)),
    }
}

/// Whether a stored error, already in lower case, is permanent.
pub fn permanent_failure_wording(lowered: &str) -> (r: bool)
    ensures
        r == mentions_permanent_failure(lowered@),
{
    let hay = chars_of(lowered);
    has_text(&hay, &chars_of("no such message")) || has_text(&hay, &chars_of("not found"))
        || has_text(&hay, &chars_of("already expunged")) || has_text(
        &hay,
        &chars_of("invalid uid"),
    )
}

pub fn should_retry_remote_error(remote_error: &Option<String>) -> (r: bool)
    ensures
        r == should_retry(opt_text(*remote_error)),
{
    match remote_error {
        None => true,
        Some(message) => !permanent_failure_wording(to_lower_case(message.as_str()).as_str()),
    }
}

/// The message stored and shown for a failed delete.
pub open spec fn error_message(e: ProviderErrorView) -> Seq<char> {
    match e {
        ProviderErrorView::Authentication(m) => m,
        ProviderErrorView::Network(m) => "Network error: "@ + m,
        ProviderErrorView::Imap(m) => "IMAP error: "@ + m,
        ProviderErrorView::Other(m) => m,
    }
}

pub fn provider_error_to_message(error: ProviderError) -> (r: String)
    ensures
        r@ == error_message(error@),
{
    match error {
        ProviderError::Authentication(message) => message,
        ProviderError::Network(message) => {
            let mut out = "Network error: ".to_owned();
            push_text(&mut out, message.as_str());
            out
        },
        ProviderError::Imap(message) => {
            let mut out = "IMAP error: ".to_owned();
            push_text(&mut out, message.as_str());
            out
        },
        ProviderError::Other(message) => message,
    }
}

/// What is stored and reported for one UID after a delete was tried.
#[derive(Debug, Clone)]
pub struct RemoteDeleteUpdate {
    pub uid: String,
    pub remote_deleted_at: Option<i64>,
    pub remote_error: Option<String>,
}

pub struct RemoteDeleteUpdateView {
    pub uid: Seq<char>,
    pub remote_deleted_at: Option<i64>,
    pub remote_error: Option<Seq<char>>,
}

impl RemoteDeleteUpdateView {
    /// A confirmed delete carries no error.
    pub open spec fn consistent(self) -> bool {
        self.remote_deleted_at is Some ==> self.remote_error is None
    }
}

impl View for RemoteDeleteUpdate {
    type V = RemoteDeleteUpdateView;

    open spec fn view(&self) -> RemoteDeleteUpdateView {
        RemoteDeleteUpdateView {
            uid: self.uid@,
            remote_deleted_at: self.remote_deleted_at,
            remote_error: opt_text(self.remote_error),
        }
    }
}

/// The views of a list of updates.
pub open spec fn update_views(v: Seq<RemoteDeleteUpdate>) -> Seq<RemoteDeleteUpdateView> {
    v.map_values(|u: RemoteDeleteUpdate| u@)
}

/// The update for one single delete: the time of the delete on success, the
/// error's message otherwise.
pub open spec fn single_update(
    uid: Seq<char>,
    failure: Option<ProviderErrorView>,
    timestamp: i64,
) -> RemoteDeleteUpdateView {
    match failure {
        None => RemoteDeleteUpdateView {
            uid,
            remote_deleted_at: Some(timestamp),
            remote_error: None,
        },
        Some(e) => RemoteDeleteUpdateView {
            uid,
            remote_deleted_at: None,
            remote_error: Some(error_message(e)),
        },
    }
}

/// The failure of an outcome, if it is one.
pub open spec fn failure_of(outcome: Result<(), ProviderError>) -> Option<ProviderErrorView> {
    match outcome {
        Ok(_) => None,
        Err(e) => Some(e@),
    }
}

impl RemoteDeleteUpdate {
    pub fn deleted(uid: String, timestamp: i64) -> (r: RemoteDeleteUpdate)
        ensures
            r@ == single_update(uid@, None, timestamp),
            r@.consistent(),
    {
        RemoteDeleteUpdate { uid, remote_deleted_at: Some(timestamp), remote_error: None }
    }

    pub fn failed(uid: String, message: String) -> (r: RemoteDeleteUpdate)
        ensures
            r@ == (RemoteDeleteUpdateView {
                uid: uid@,
                remote_deleted_at: None,
                remote_error: Some(message@),
            }),
            r@.consistent(),
    {
        RemoteDeleteUpdate { uid, remote_deleted_at: None, remote_error: Some(message) }
    }

    /// The update for the outcome of one single delete, tried at `timestamp`.
    pub fn from_outcome(uid: &str, outcome: Result<(), ProviderError>, timestamp: i64) -> (r:
        RemoteDeleteUpdate)
        ensures
            r@ == single_update(uid@, failure_of(outcome), timestamp),
            r@.consistent(),
    {
        match outcome {
            Ok(_) => RemoteDeleteUpdate::deleted(uid.to_owned(), timestamp),
            Err(e) => RemoteDeleteUpdate::failed(uid.to_owned(), provider_error_to_message(e)),
        }
    }
}

/// The updates of a batch that the server accepted: one for each UID of the
/// batch, in their order, each with the time of the delete and no error.
pub open spec fn success_updates_of(uids: Seq<Seq<char>>, timestamp: i64) -> Seq<
    RemoteDeleteUpdateView,
> {
    uids.map_values(|uid: Seq<char>| single_update(uid, None, timestamp))
}

/// The number of updates that confirm a delete.
pub open spec fn deleted_count(updates: Seq<RemoteDeleteUpdateView>) -> nat
    decreases updates.len(),
{
    if updates.len() == 0 {
        0
    } else {
        deleted_count(updates.drop_last()) + if updates.last().remote_deleted_at is Some {
            1nat
        } else {
            0nat
        }
    }
}

/// The updates of an accepted batch. Every UID of the batch is reported as
/// deleted at `timestamp`, whether or not its row could be marked in the
/// cache.
pub fn success_updates(uids: &Vec<String>, timestamp: i64) -> (r: Vec<RemoteDeleteUpdate>)
    ensures
        update_views(r@) == success_updates_of(texts(uids@), timestamp),
{
    let mut out: Vec<RemoteDeleteUpdate> = Vec::new();
    let mut i: usize = 0;
    while i < uids.len()
        invariant
            i <= uids.len(),
            out.len() == i,
            forall|k: int|
                0 <= k < i ==> (#[trigger] out@[k])@ == single_update(
                    uids@[k]@,
                    None,
                    timestamp,
                ),
        decreases uids.len() - i,
    {
        out.push(RemoteDeleteUpdate::deleted(uids[i].clone(), timestamp));
        i += 1;
    }
    assert(update_views(out@) =~= success_updates_of(texts(uids@), timestamp));
    out
}

/// An accepted batch of `k` UIDs reports exactly `k` updates, one per UID
/// and in their order, each with the time of the delete and none with an
/// error.
pub proof fn lemma_accepted_batch_updates(uids: Seq<Seq<char>>, timestamp: i64)
    ensures
        success_updates_of(uids, timestamp).len() == uids.len(),
        forall|i: int|
            0 <= i < uids.len() ==> #[trigger] success_updates_of(uids, timestamp)[i]
                == (RemoteDeleteUpdateView {
                uid: uids[i],
                remote_deleted_at: Some(timestamp),
                remote_error: None,
            }),
        deleted_count(success_updates_of(uids, timestamp)) == uids.len(),
    decreases uids.len(),
{
    if uids.len() > 0 {
        let rest = uids.drop_last();
        lemma_accepted_batch_updates(rest, timestamp);
        assert(success_updates_of(uids, timestamp).drop_last() =~= success_updates_of(
            rest,
            timestamp,
        ));
    }
}

/// The pace and the failure count of one account's worker.
pub struct WorkerState {
    current_batch_size: usize,
    consecutive_failures: u32,
}

/// The batch size after an accepted batch: four more, at most fifteen.
pub open spec fn grown(size: usize) -> usize {
    if size + BATCH_GROWTH_STEP >= MAX_BATCH_SIZE {
        MAX_BATCH_SIZE
    } else {
        (size + BATCH_GROWTH_STEP) as usize
    }
}

/// The batch size after a failed batch: four less, at least one.
pub open spec fn shrunk(size: usize) -> usize {
    if size <= BATCH_GROWTH_STEP + MIN_BATCH_SIZE {
        MIN_BATCH_SIZE
    } else {
        (size - BATCH_GROWTH_STEP) as usize
    }
}

/// One more failure, the count stopping at its type's maximum.
pub open spec fn one_more(failures: u32) -> u32 {
    if failures == u32::MAX {
        failures
    } else {
        (failures + 1) as u32
    }
}

#[derive(Clone, Copy, Debug, PartialEq, Eq, Structural)]
pub enum FailureAction {
    /// Wait for the cooldown, then put the whole batch back on the queue.
    RequeueBatch,
    /// Delete the messages of the batch one by one.
    SingleDeletes,
}

/// What follows a failed batch. `cooldown_secs` is the wait before the batch
/// is requeued or before the first single delete; after the single deletes
/// the same wait is armed again for the next batch. `single_spacing_ms` is
/// the pause after each single delete.
#[derive(Clone, Copy, Debug, PartialEq, Eq, Structural)]
pub struct FailurePlan {
    pub cooldown_secs: Option<u64>,
    pub action: FailureAction,
    pub single_spacing_ms: u64,
}

/// The plan after a failed batch that `failures` failed batches came before
/// in a row: the first failure waits for the base of the backoff.
pub open spec fn failure_plan(failures: u32, rate_limited: bool, mode: ModeOverride) -> FailurePlan {
    FailurePlan {
        cooldown_secs: if rate_limited {
            Some(backoff_secs(failures as nat) as u64)
        } else {
            None
        },
        action: if rate_limited && mode == ModeOverride::ForceBatch {
            FailureAction::RequeueBatch
        } else {
            FailureAction::SingleDeletes
        },
        single_spacing_ms: if rate_limited && mode != ModeOverride::ForceBatch {
            SINGLE_DELETE_DELAY_MS
        } else {
            0
        },
    }
}

impl WorkerState {
    #[verifier::type_invariant]
    spec fn size_in_bounds(self) -> bool {
        MIN_BATCH_SIZE <= self.current_batch_size <= MAX_BATCH_SIZE
    }

    pub closed spec fn batch_size(self) -> usize {
        self.current_batch_size
    }

    pub closed spec fn failures(self) -> u32 {
        self.consecutive_failures
    }

    /// A worker starts with the largest batch size and no failure.
    pub fn new() -> (r: WorkerState)
        ensures
            r.batch_size() == MAX_BATCH_SIZE,
            r.failures() == 0,
    {
        WorkerState { current_batch_size: MAX_BATCH_SIZE, consecutive_failures: 0 }
    }

    pub fn current_batch_size(&self) -> (r: usize)
        ensures
            r == self.batch_size(),
            MIN_BATCH_SIZE <= r <= MAX_BATCH_SIZE,
    {
        proof {
            use_type_invariant(self);
        }
        self.current_batch_size
    }

    pub fn consecutive_failures(&self) -> (r: u32)
        ensures
            r == self.failures(),
    {
        self.consecutive_failures
    }

    /// Whether a batch that holds `collected` jobs waits for another one.
    pub fn wants_more(&self, collected: usize) -> (r: bool)
        ensures
            r == (collected < self.batch_size()),
    {
        collected < self.current_batch_size
    }

    /// The server accepted a batch: the failures are forgotten and the batch
    /// size grows.
    pub fn on_batch_success(&mut self)
        ensures
            final(self).failures() == 0,
            final(self).batch_size() == grown(old(self).batch_size()),
    {
        proof {
            use_type_invariant(&*self);
        }
        self.consecutive_failures = 0;
        if self.current_batch_size + BATCH_GROWTH_STEP >= MAX_BATCH_SIZE {
            self.current_batch_size = MAX_BATCH_SIZE;
        } else {
            self.current_batch_size = self.current_batch_size + BATCH_GROWTH_STEP;
        }
    }

    /// The server refused a batch: the plan says how the batch is dealt
    /// with, its cooldown taken from the failures that came before; then one
    /// more failure is counted and the batch size shrinks.
    pub fn on_batch_failure(&mut self, rate_limited: bool, mode: ModeOverride) -> (plan:
        FailurePlan)
        ensures
            final(self).failures() == one_more(old(self).failures()),
            final(self).batch_size() == shrunk(old(self).batch_size()),
            plan == failure_plan(old(self).failures(), rate_limited, mode),
    {
        proof {
            use_type_invariant(&*self);
        }
        let cooldown_secs = if rate_limited {
            Some(compute_backoff(self.consecutive_failures))
        } else {
            None
        };
        if self.consecutive_failures < u32::MAX {
            self.consecutive_failures = self.consecutive_failures + 1;
        }
        if self.current_batch_size <= BATCH_GROWTH_STEP + MIN_BATCH_SIZE {
            self.current_batch_size = MIN_BATCH_SIZE;
        } else {
            self.current_batch_size = self.current_batch_size - BATCH_GROWTH_STEP;
        }
        let force = match mode {
            ModeOverride::ForceBatch => true,
            ModeOverride::Auto => false,
        };
        FailurePlan {
            cooldown_secs,
            action: if rate_limited && force {
                FailureAction::RequeueBatch
            } else {
                FailureAction::SingleDeletes
            },
            single_spacing_ms: if rate_limited && !force {
                SINGLE_DELETE_DELAY_MS
            } else {
                0
            },
        }
    }
}

/// How a batch went, as the metrics name it.
#[derive(Clone, Copy, Debug, PartialEq, Eq, Structural)]
pub enum BatchMode {
    Batch,
    BatchMixed,
    BatchRateLimit,
    Single,
    SingleMixed,
    SingleFailed,
    Idle,
}

impl BatchMode {
    pub open spec fn label(self) -> Seq<char> {
        match self {
            BatchMode::Batch => "batch"@,
            BatchMode::BatchMixed => "batch-mixed"@,
            BatchMode::BatchRateLimit => "batch-rate-limit"@,
            BatchMode::Single => "single"@,
            BatchMode::SingleMixed => "single-mixed"@,
            BatchMode::SingleFailed => "single-failed"@,
            BatchMode::Idle => "idle"@,
        }
    }

    pub fn as_str(&self) -> (r: &'static str)
        ensures
            r@ == self.label(),
    {
        match self {
            BatchMode::Batch => "batch",
            BatchMode::BatchMixed => "batch-mixed",
            BatchMode::BatchRateLimit => "batch-rate-limit",
            BatchMode::Single => "single",
            BatchMode::SingleMixed => "single-mixed",
            BatchMode::SingleFailed => "single-failed",
            BatchMode::Idle => "idle",
        }
    }
}

/// What the metrics record of one batch.
#[derive(Clone, Copy, Debug, PartialEq, Eq, Structural)]
pub struct BatchReport {
    pub mode: BatchMode,
    pub batch_size: usize,
    pub processed: usize,
    pub failed: usize,
}

/// The mode and the batch size recorded for a batch of `executed` jobs with
/// `succeeded` confirmed and `failed` refused deletes.
pub open spec fn batch_mode(
    used_single_fallback: bool,
    encountered_rate_limit: bool,
    executed: usize,
    succeeded: nat,
    failed: nat,
) -> (BatchMode, usize) {
    if used_single_fallback {
        if succeeded > 0 && failed == 0 {
            (BatchMode::Single, 1)
        } else if succeeded > 0 {
            (BatchMode::SingleMixed, 1)
        } else {
            (BatchMode::SingleFailed, 1)
        }
    } else if executed > 1 {
        if failed == 0 {
            (BatchMode::Batch, executed)
        } else {
            (BatchMode::BatchMixed, executed)
        }
    } else if succeeded > 0 {
        (BatchMode::Single, 1)
    } else if encountered_rate_limit {
        (BatchMode::BatchRateLimit, executed)
    } else if failed > 0 {
        (BatchMode::SingleFailed, 1)
    } else {
        (BatchMode::Idle, executed)
    }
}

/// The report of a batch whose updates were stored: the confirmed deletes
/// count as processed, the other updates as failed.
pub fn report_batch(
    updates: &Vec<RemoteDeleteUpdate>,
    used_single_fallback: bool,
    encountered_rate_limit: bool,
    executed: usize,
) -> (r: BatchReport)
    ensures
        r.processed == deleted_count(update_views(updates@)),
        r.failed == updates.len() - r.processed,
        (r.mode, r.batch_size) == batch_mode(
            used_single_fallback,
            encountered_rate_limit,
            executed,
            r.processed as nat,
            r.failed as nat,
        ),
{
    let mut succeeded: usize = 0;
    let mut i: usize = 0;
    while i < updates.len()
        invariant
            i <= updates.len(),
            succeeded <= i,
            succeeded == deleted_count(update_views(updates@).take(i as int)),
        decreases updates.len() - i,
    {
        proof {
            let all = update_views(updates@);
            assert(all.take(i + 1).drop_last() =~= all.take(i as int));
        }
        if updates[i].remote_deleted_at.is_some() {
            succeeded += 1;
        }
        i += 1;
    }
    assert(update_views(updates@).take(updates.len() as int) =~= update_views(updates@));
    let failed = updates.len() - succeeded;
    let (mode, batch_size) = if used_single_fallback {
        if succeeded > 0 && failed == 0 {
            (BatchMode::Single, 1)
        } else if succeeded > 0 {
            (BatchMode::SingleMixed, 1)
        } else {
            (BatchMode::SingleFailed, 1)
        }
    } else if executed > 1 {
        if failed == 0 {
            (BatchMode::Batch, executed)
        } else {
            (BatchMode::BatchMixed, executed)
        }
    } else if succeeded > 0 {
        (BatchMode::Single, 1)
    } else if encountered_rate_limit {
        (BatchMode::BatchRateLimit, executed)
    } else if failed > 0 {
        (BatchMode::SingleFailed, 1)
    } else {
        (BatchMode::Idle, executed)
    };
    BatchReport { mode, batch_size, processed: succeeded, failed }
}

/// The report of a batch that was put back on the queue after a rate limit:
/// nothing was processed and nothing failed.
pub fn requeue_report(current_batch_size: usize) -> (r: BatchReport)
    ensures
        r == (BatchReport {
            mode: BatchMode::BatchRateLimit,
            batch_size: current_batch_size,
            processed: 0,
            failed: 0,
        }),
{
    BatchReport {
        mode: BatchMode::BatchRateLimit,
        batch_size: current_batch_size,
        processed: 0,
        failed: 0,
    }
}

/// The UIDs of `uids` that are not blank, in their order.
pub open spec fn non_blank(uids: Seq<Seq<char>>) -> Seq<Seq<char>>
    decreases uids.len(),
{
    if uids.len() == 0 {
        Seq::empty()
    } else if is_blank(uids.last()) {
        non_blank(uids.drop_last())
    } else {
        non_blank(uids.drop_last()).push(uids.last())
    }
}

/// The UIDs that a request to enqueue is taken to hold: blank ones are
/// dropped, the others keep their order and their text.
pub fn accept_uids(uids: &Vec<String>) -> (r: Vec<String>)
    ensures
        texts(r@) == non_blank(texts(uids@)),
{
    let mut out: Vec<String> = Vec::new();
    let mut i: usize = 0;
    while i < uids.len()
        invariant
            i <= uids.len(),
            texts(out@) == non_blank(texts(uids@).take(i as int)),
        decreases uids.len() - i,
    {
        proof {
            let all = texts(uids@);
            assert(all.take(i + 1).drop_last() =~= all.take(i as int));
        }
        if !blank(uids[i].as_str()) {
            let ghost before = texts(out@);
            out.push(uids[i].clone());
            assert(texts(out@) =~= before.push(uids@[i as int]@));
        }
        i += 1;
    }
    assert(texts(uids@).take(uids.len() as int) =~= texts(uids@));
    out
}

/// The UIDs of `uids` that `have` lacks, each once, in the order of their
/// first occurrence.
pub open spec fn newly_added(have: Set<Seq<char>>, uids: Seq<Seq<char>>) -> Seq<Seq<char>>
    decreases uids.len(),
{
    if uids.len() == 0 {
        Seq::empty()
    } else {
        let rest = newly_added(have, uids.drop_last());
        if have.contains(uids.last()) || uids.drop_last().contains(uids.last()) {
            rest
        } else {
            rest.push(uids.last())
        }
    }
}

/// The UIDs of one account whose remote delete is under way.
pub struct PendingUids {
    uids: Vec<String>,
}

impl View for PendingUids {
    type V = Set<Seq<char>>;

    closed spec fn view(&self) -> Set<Seq<char>> {
        texts(self.uids@).to_set()
    }
}

impl PendingUids {
    /// No UID is held twice.
    pub closed spec fn wf(&self) -> bool {
        texts(self.uids@).no_duplicates()
    }

    pub fn new() -> (r: PendingUids)
        ensures
            r.wf(),
            r@ == Set::<Seq<char>>::empty(),
    {
        let r = PendingUids { uids: Vec::new() };
        assert(texts(r.uids@).to_set() =~= Set::<Seq<char>>::empty());
        r
    }

    /// The number of pending UIDs.
    pub fn len(&self) -> (r: usize)
        requires
            self.wf(),
        ensures
            r == self@.len(),
            self@.finite(),
    {
        proof {
            texts(self.uids@).unique_seq_to_set();
        }
        self.uids.len()
    }

    pub fn is_empty(&self) -> (r: bool)
        ensures
            r == (self@ == Set::<Seq<char>>::empty()),
    {
        proof {
            let s = texts(self.uids@);
            if s.len() > 0 {
                assert(s.to_set().contains(s[0]));
            } else {
                assert(s.to_set() =~= Set::<Seq<char>>::empty());
            }
        }
        self.uids.len() == 0
    }

    fn position(&self, uid: &str) -> (r: Option<usize>)
        ensures
            match r {
                Some(i) => i < self.uids.len() && self.uids@[i as int]@ == uid@,
                None => !self@.contains(uid@),
            },
    {
        let mut i: usize = 0;
        while i < self.uids.len()
            invariant
                i <= self.uids.len(),
                forall|j: int| 0 <= j < i ==> self.uids@[j]@ != uid@,
            decreases self.uids.len() - i,
        {
            if crate::text::text_eq(self.uids[i].as_str(), uid) {
                return Some(i);
            }
            i += 1;
        }
        proof {
            let s = texts(self.uids@);
            assert forall|j: int| 0 <= j < s.len() implies s[j] != uid@ by {
                assert(s[j] == self.uids@[j]@);
            }
        }
        None
    }

    pub fn contains(&self, uid: &str) -> (r: bool)
        ensures
            r == self@.contains(uid@),
    {
        match self.position(uid) {
            Some(i) => {
                proof {
                    let s = texts(self.uids@);
                    assert(s[i as int] == uid@);
                }
                true
            },
            None => false,
        }
    }

    /// Adds one UID; says whether it was new.
    pub fn insert(&mut self, uid: &str) -> (added: bool)
        requires
            old(self).wf(),
        ensures
            final(self).wf(),
            final(self)@ == old(self)@.insert(uid@),
            added == !old(self)@.contains(uid@),
    {
        match self.position(uid) {
            Some(i) => {
                proof {
                    let s = texts(self.uids@);
                    assert(s[i as int] == uid@);
                    assert(self@.insert(uid@) =~= self@);
                }
                false
            },
            None => {
                let ghost before = texts(self.uids@);
                self.uids.push(uid.to_owned());
                proof {
                    let after = texts(self.uids@);
                    assert(after =~= before.push(uid@));
                    assert(after.to_set() =~= before.to_set().insert(uid@)) by {
                        assert forall|x: Seq<char>| after.to_set().contains(x) implies before.to_set().insert(
                            uid@,
                        ).contains(x) by {
                            let k = choose|k: int| 0 <= k < after.len() && after[k] == x;
                            if k < before.len() {
                                assert(before[k] == x);
                            }
                        }
                        assert forall|x: Seq<char>|
                            before.to_set().insert(uid@).contains(x) implies after.to_set().contains(
                            x,
                        ) by {
                            if x == uid@ {
                                assert(after[before.len() as int] == x);
                            } else {
                                let k = choose|k: int| 0 <= k < before.len() && before[k] == x;
                                assert(after[k] == x);
                            }
                        }
                    }
                    assert(after.no_duplicates()) by {
                        assert forall|a: int, b: int|
                            0 <= a < after.len() && 0 <= b < after.len() && a != b implies after[a]
                            != after[b] by {
                            if a < before.len() && b < before.len() {
                                assert(before[a] != before[b]);
                            } else if a < before.len() {
                                assert(before.to_set().contains(before[a]));
                            } else {
                                assert(before.to_set().contains(before[b]));
                            }
                        }
                    }
                }
                true
            },
        }
    }

    /// Takes one UID out.
    pub fn remove(&mut self, uid: &str)
        requires
            old(self).wf(),
        ensures
            final(self).wf(),
            final(self)@ == old(self)@.remove(uid@),
    {
        match self.position(uid) {
            Some(i) => {
                let ghost before = texts(self.uids@);
                self.uids.remove(i);
                proof {
                    let after = texts(self.uids@);
                    assert(after =~= before.remove(i as int));
                    assert(after.no_duplicates()) by {
                        assert forall|a: int, b: int|
                            0 <= a < after.len() && 0 <= b < after.len() && a != b implies after[a]
                            != after[b] by {
                            let a2 = if a < i { a } else { a + 1 };
                            let b2 = if b < i { b } else { b + 1 };
                            assert(after[a] == before[a2]);
                            assert(after[b] == before[b2]);
                        }
                    }
                    assert(after.to_set() =~= before.to_set().remove(uid@)) by {
                        assert forall|x: Seq<char>| after.to_set().contains(x) implies before.to_set().remove(
                            uid@,
                        ).contains(x) by {
                            let k = choose|k: int| 0 <= k < after.len() && after[k] == x;
                            let k2 = if k < i { k } else { k + 1 };
                            assert(before[k2] == x);
                            assert(before[i as int] == uid@);
                        }
                        assert forall|x: Seq<char>|
                            before.to_set().remove(uid@).contains(x) implies after.to_set().contains(
                            x,
                        ) by {
                            let k = choose|k: int| 0 <= k < before.len() && before[k] == x;
                            assert(before[i as int] == uid@);
                            let k2 = if k < i { k } else { k - 1 };
                            assert(after[k2] == x);
                        }
                    }
                }
            },
            None => {
                assert(self@.remove(uid@) =~= self@);
            },
        }
    }

    /// Registers the UIDs of a request. A UID that is already pending is
    /// absorbed; the others become pending and are returned, each once, in
    /// the order in which they were first named.
    pub fn register(&mut self, uids: &Vec<String>) -> (added: Vec<String>)
        requires
            old(self).wf(),
        ensures
            final(self).wf(),
            final(self)@ == old(self)@.union(texts(uids@).to_set()),
            texts(added@) == newly_added(old(self)@, texts(uids@)),
    {
        let mut added: Vec<String> = Vec::new();
        let mut i: usize = 0;
        assert(texts(uids@).take(0).to_set() =~= Set::<Seq<char>>::empty());
        assert(self@.union(Set::<Seq<char>>::empty()) =~= self@);
        while i < uids.len()
            invariant
                i <= uids.len(),
                self.wf(),
                self@ == old(self)@.union(texts(uids@).take(i as int).to_set()),
                texts(added@) == newly_added(old(self)@, texts(uids@).take(i as int)),
            decreases uids.len() - i,
        {
            let ghost all = texts(uids@);
            let ghost seen = all.take(i as int);
            let ghost before = texts(added@);
            proof {
                assert(all.take(i + 1).drop_last() =~= seen);
                assert(all.take(i + 1).last() == uids@[i as int]@);
                assert(all.take(i + 1).to_set() =~= seen.to_set().insert(all[i as int])) by {
                    let next = all.take(i + 1);
                    assert forall|x: Seq<char>| next.to_set().contains(x) implies seen.to_set().insert(
                        all[i as int],
                    ).contains(x) by {
                        let k = choose|k: int| 0 <= k < next.len() && next[k] == x;
                        if k < i {
                            assert(seen[k] == x);
                        }
                    }
                    assert forall|x: Seq<char>|
                        seen.to_set().insert(all[i as int]).contains(x) implies next.to_set().contains(
                        x,
                    ) by {
                        if x == all[i as int] {
                            assert(next[i as int] == x);
                        } else {
                            let k = choose|k: int| 0 <= k < seen.len() && seen[k] == x;
                            assert(next[k] == x);
                        }
                    }
                }
                assert(old(self)@.union(seen.to_set()).insert(all[i as int]) =~= old(self)@.union(
                    seen.to_set().insert(all[i as int]),
                ));
            }
            if self.insert(uids[i].as_str()) {
                added.push(uids[i].clone());
                assert(texts(added@) =~= before.push(uids@[i as int]@));
            }
            i += 1;
        }
        assert(texts(uids@).take(uids.len() as int) =~= texts(uids@));
        added
    }

    /// Takes the UIDs of a finished batch out of the pending set.
    pub fn clear_many(&mut self, uids: &Vec<String>)
        requires
            old(self).wf(),
        ensures
            final(self).wf(),
            final(self)@ == old(self)@.difference(texts(uids@).to_set()),
    {
        let mut i: usize = 0;
        assert(texts(uids@).take(0).to_set() =~= Set::<Seq<char>>::empty());
        assert(self@.difference(Set::<Seq<char>>::empty()) =~= self@);
        while i < uids.len()
            invariant
                i <= uids.len(),
                self.wf(),
                self@ == old(self)@.difference(texts(uids@).take(i as int).to_set()),
            decreases uids.len() - i,
        {
            let ghost all = texts(uids@);
            let ghost seen = all.take(i as int);
            proof {
                assert(all.take(i + 1).to_set() =~= seen.to_set().insert(all[i as int])) by {
                    let next = all.take(i + 1);
                    assert forall|x: Seq<char>| next.to_set().contains(x) implies seen.to_set().insert(
                        all[i as int],
                    ).contains(x) by {
                        let k = choose|k: int| 0 <= k < next.len() && next[k] == x;
                        if k < i {
                            assert(seen[k] == x);
                        }
                    }
                    assert forall|x: Seq<char>|
                        seen.to_set().insert(all[i as int]).contains(x) implies next.to_set().contains(
                        x,
                    ) by {
                        if x == all[i as int] {
                            assert(next[i as int] == x);
                        } else {
                            let k = choose|k: int| 0 <= k < seen.len() && seen[k] == x;
                            assert(next[k] == x);
                        }
                    }
                }
                assert(old(self)@.difference(seen.to_set()).remove(all[i as int]) =~= old(
                    self,
                )@.difference(seen.to_set().insert(all[i as int])));
            }
            self.remove(uids[i].as_str());
            i += 1;
        }
        assert(texts(uids@).take(uids.len() as int) =~= texts(uids@));
    }
}

/// A stored row whose remote delete is not confirmed.
#[derive(Debug, Clone)]
pub struct PendingRow {
    pub uid: String,
    pub remote_error: Option<String>,
}

pub struct PendingRowView {
    pub uid: Seq<char>,
    pub remote_error: Option<Seq<char>>,
}

impl View for PendingRow {
    type V = PendingRowView;

    open spec fn view(&self) -> PendingRowView {
        PendingRowView { uid: self.uid@, remote_error: opt_text(self.remote_error) }
    }
}

pub open spec fn pending_row_views(v: Seq<PendingRow>) -> Seq<PendingRowView> {
    v.map_values(|r: PendingRow| r@)
}

/// One UID that a reconciliation pass tries again. Where the row carries an
/// error, the error is cleared in the cache before the UID is enqueued.
#[derive(Debug, Clone)]
pub struct RetryStep {
    pub uid: String,
    pub clear_error_first: bool,
}

pub struct RetryStepView {
    pub uid: Seq<char>,
    pub clear_error_first: bool,
}

impl View for RetryStep {
    type V = RetryStepView;

    open spec fn view(&self) -> RetryStepView {
        RetryStepView { uid: self.uid@, clear_error_first: self.clear_error_first }
    }
}

pub open spec fn retry_step_views(v: Seq<RetryStep>) -> Seq<RetryStepView> {
    v.map_values(|s: RetryStep| s@)
}

/// The rows that are tried again, in their order: those without an error
/// and those whose error is not permanent.
pub open spec fn retry_steps(rows: Seq<PendingRowView>) -> Seq<RetryStepView>
    decreases rows.len(),
{
    if rows.len() == 0 {
        Seq::empty()
    } else {
        let rest = retry_steps(rows.drop_last());
        let row = rows.last();
        if should_retry(row.remote_error) {
            rest.push(RetryStepView { uid: row.uid, clear_error_first: row.remote_error is Some })
        } else {
            rest
        }
    }
}

/// Chooses, among the stored pending rows, those that are tried again.
pub fn plan_retries(rows: &Vec<PendingRow>) -> (r: Vec<RetryStep>)
    ensures
        retry_step_views(r@) == retry_steps(pending_row_views(rows@)),
{
    let mut out: Vec<RetryStep> = Vec::new();
    let mut i: usize = 0;
    while i < rows.len()
        invariant
            i <= rows.len(),
            retry_step_views(out@) == retry_steps(pending_row_views(rows@).take(i as int)),
        decreases rows.len() - i,
    {
        proof {
            let all = pending_row_views(rows@);
            assert(all.take(i + 1).drop_last() =~= all.take(i as int));
        }
        if should_retry_remote_error(&rows[i].remote_error) {
            let ghost before = retry_step_views(out@);
            let step = RetryStep {
                uid: rows[i].uid.clone(),
                clear_error_first: rows[i].remote_error.is_some(),
            };
            out.push(step);
            assert(retry_step_views(out@) =~= before.push(step@));
        }
        i += 1;
    }
    assert(pending_row_views(rows@).take(rows.len() as int) =~= pending_row_views(rows@));
    out
}

/// The UIDs that are enqueued after the errors were cleared: a step that
/// needed no clearing, or whose clearing went through, keeps its UID.
pub open spec fn retry_uids_of(steps: Seq<RetryStepView>, cleared: Seq<bool>) -> Seq<Seq<char>>
    decreases steps.len(),
{
    if steps.len() == 0 {
        Seq::empty()
    } else {
        let i = steps.len() - 1;
        let rest = retry_uids_of(steps.drop_last(), cleared);
        if !steps[i].clear_error_first || (i < cleared.len() && cleared[i]) {
            rest.push(steps[i].uid)
        } else {
            rest
        }
    }
}

/// The UIDs to enqueue. `cleared[i]` says whether the error of step `i` was
/// cleared in the cache; it is read only for steps that asked for it.
pub fn retry_uids(steps: &Vec<RetryStep>, cleared: &Vec<bool>) -> (r: Vec<String>)
    ensures
        texts(r@) == retry_uids_of(retry_step_views(steps@), cleared@),
{
    let mut out: Vec<String> = Vec::new();
    let mut i: usize = 0;
    while i < steps.len()
        invariant
            i <= steps.len(),
            texts(out@) == retry_uids_of(retry_step_views(steps@).take(i as int), cleared@),
        decreases steps.len() - i,
    {
        proof {
            let all = retry_step_views(steps@);
            assert(all.take(i + 1).drop_last() =~= all.take(i as int));
        }
        if !steps[i].clear_error_first || (i < cleared.len() && cleared[i]) {
            let ghost before = texts(out@);
            out.push(steps[i].uid.clone());
            assert(texts(out@) =~= before.push(steps@[i as int].uid@));
        }
        i += 1;
    }
    assert(retry_step_views(steps@).take(steps.len() as int) =~= retry_step_views(steps@));
    out
}

#[derive(Debug, Clone)]
pub struct RemoteDeleteMetricsHistoryEntry {
    pub timestamp: i64,
    pub processed: usize,
    pub mode: String,
    pub pending: usize,
}

pub struct MetricsEntryView {
    pub timestamp: i64,
    pub processed: usize,
    pub mode: Seq<char>,
    pub pending: usize,
}

impl View for RemoteDeleteMetricsHistoryEntry {
    type V = MetricsEntryView;

    open spec fn view(&self) -> MetricsEntryView {
        MetricsEntryView {
            timestamp: self.timestamp,
            processed: self.processed,
            mode: self.mode@,
            pending: self.pending,
        }
    }
}

pub open spec fn entry_views(v: Seq<RemoteDeleteMetricsHistoryEntry>) -> Seq<MetricsEntryView> {
    v.map_values(|e: RemoteDeleteMetricsHistoryEntry| e@)
}

impl RemoteDeleteMetricsHistoryEntry {
    pub fn duplicate(&self) -> (r: RemoteDeleteMetricsHistoryEntry)
        ensures
            r@ == self@,
    {
        RemoteDeleteMetricsHistoryEntry {
            timestamp: self.timestamp,
            processed: self.processed,
            mode: self.mode.clone(),
            pending: self.pending,
        }
    }
}

/// The deletes confirmed within the trailing window, and the seconds they
/// took: the rate per minute is `processed * 60 / elapsed_secs`.
#[derive(Debug, Clone, Copy, PartialEq, Eq, Structural)]
pub struct RateWindow {
    pub processed: u128,
    pub elapsed_secs: i64,
}

/// An entry recorded at `then` lies within the window that ends at `now`.
pub open spec fn in_window(now: i64, then: i64) -> bool {
    now - then <= METRIC_WINDOW_SECS
}

/// The index at which the trailing run of entries within the window begins.
pub open spec fn window_start(history: Seq<MetricsEntryView>, now: i64) -> int
    decreases history.len(),
{
    if history.len() > 0 && in_window(now, history.last().timestamp) {
        window_start(history.drop_last(), now)
    } else {
        history.len() as int
    }
}

/// The sum of the entries' processed counts.
pub open spec fn processed_sum(entries: Seq<MetricsEntryView>) -> nat
    decreases entries.len(),
{
    if entries.len() == 0 {
        0
    } else {
        entries[0].processed as nat + processed_sum(entries.skip(1))
    }
}

/// The processed count and the span of the trailing window of `history`.
/// The span runs from the oldest entry of the window to `now` and counts as
/// one second at least.
pub open spec fn rate_window_of(history: Seq<MetricsEntryView>, now: i64) -> (nat, int) {
    let k = window_start(history, now);
    let span = if k < history.len() {
        now - history[k].timestamp
    } else {
        0
    };
    (
        processed_sum(history.skip(k)),
        if span < 1 {
            1
        } else {
            span
        },
    )
}

proof fn lemma_processed_sum_bound(entries: Seq<MetricsEntryView>)
    ensures
        processed_sum(entries) <= entries.len() * usize::MAX,
    decreases entries.len(),
{
    if entries.len() > 0 {
        lemma_processed_sum_bound(entries.skip(1));
        assert((entries.len() - 1) * usize::MAX + usize::MAX == entries.len() * usize::MAX)
            by (nonlinear_arith);
    }
}

/// Sums up the trailing window of a history.
pub fn rate_window(history: &Vec<RemoteDeleteMetricsHistoryEntry>, now: i64) -> (r: RateWindow)
    ensures
        (r.processed as nat, r.elapsed_secs as int) == rate_window_of(entry_views(history@), now),
        1 <= r.elapsed_secs <= METRIC_WINDOW_SECS,
{
    let ghost h = entry_views(history@);
    let n = history.len();
    let mut k: usize = n;
    let mut processed: u128 = 0;
    let mut earliest: i64 = now;
    assert(h.take(n as int) =~= h);
    assert(h.skip(n as int) =~= Seq::<MetricsEntryView>::empty());
    while k > 0 && (now as i128) - (history[k - 1].timestamp as i128) <= 60
        invariant
            k <= n == history.len(),
            h == entry_views(history@),
            window_start(h, now) == window_start(h.take(k as int), now),
            processed == processed_sum(h.skip(k as int)),
            k < n ==> earliest == h[k as int].timestamp && in_window(now, earliest),
            k == n ==> earliest == now,
        decreases k,
    {
        proof {
            assert(h.take(k as int).drop_last() =~= h.take(k - 1));
            assert(h.take(k as int).last() == h[k - 1]);
            assert(h.skip(k - 1).skip(1) =~= h.skip(k as int));
            assert(h.skip(k - 1)[0] == h[k - 1]);
            lemma_processed_sum_bound(h.skip(k - 1));
            assert(h.skip(k - 1).len() * usize::MAX <= usize::MAX * usize::MAX) by (nonlinear_arith)
                requires
                    h.skip(k - 1).len() <= usize::MAX,
            ;
            assert(usize::MAX * usize::MAX <= 0xffff_ffff_ffff_ffff * 0xffff_ffff_ffff_ffff)
                by (nonlinear_arith)
                requires
                    usize::MAX <= 0xffff_ffff_ffff_ffff,
            ;
        }
        processed = processed + (history[k - 1].processed as u128);
        earliest = history[k - 1].timestamp;
        k -= 1;
    }
    proof {
        if k > 0 {
            assert(h.take(k as int).last() == h[k - 1]);
        }
    }
    let span: i128 = (now as i128) - (earliest as i128);
    let elapsed: i64 = if span < 1 {
        1
    } else {
        span as i64
    };
    RateWindow { processed, elapsed_secs: elapsed }
}

/// The state of one account's queue after a batch.
#[derive(Debug, Clone)]
pub struct RemoteDeleteMetricsSnapshot {
    pub account_email: String,
    pub timestamp: i64,
    pub mode: String,
    pub batch_size: usize,
    pub processed: usize,
    pub failed: usize,
    pub pending: usize,
    pub total_pending: usize,
    pub rate: RateWindow,
    pub override_mode: String,
}

pub struct MetricsSnapshotView {
    pub account_email: Seq<char>,
    pub timestamp: i64,
    pub mode: Seq<char>,
    pub batch_size: usize,
    pub processed: usize,
    pub failed: usize,
    pub pending: usize,
    pub total_pending: usize,
    pub rate: RateWindow,
    pub override_mode: Seq<char>,
}

impl View for RemoteDeleteMetricsSnapshot {
    type V = MetricsSnapshotView;

    open spec fn view(&self) -> MetricsSnapshotView {
        MetricsSnapshotView {
            account_email: self.account_email@,
            timestamp: self.timestamp,
            mode: self.mode@,
            batch_size: self.batch_size,
            processed: self.processed,
            failed: self.failed,
            pending: self.pending,
            total_pending: self.total_pending,
            rate: self.rate,
            override_mode: self.override_mode@,
        }
    }
}

/// The snapshot of an account of which nothing was recorded yet.
pub open spec fn idle_snapshot(account_email: Seq<char>, now: i64) -> MetricsSnapshotView {
    MetricsSnapshotView {
        account_email,
        timestamp: now,
        mode: BatchMode::Idle.label(),
        batch_size: 0,
        processed: 0,
        failed: 0,
        pending: 0,
        total_pending: 0,
        rate: RateWindow { processed: 0, elapsed_secs: 1 },
        override_mode: ModeOverride::Auto.label(),
    }
}

impl RemoteDeleteMetricsSnapshot {
    pub fn duplicate(&self) -> (r: RemoteDeleteMetricsSnapshot)
        ensures
            r@ == self@,
    {
        RemoteDeleteMetricsSnapshot {
            account_email: self.account_email.clone(),
            timestamp: self.timestamp,
            mode: self.mode.clone(),
            batch_size: self.batch_size,
            processed: self.processed,
            failed: self.failed,
            pending: self.pending,
            total_pending: self.total_pending,
            rate: self.rate,
            override_mode: self.override_mode.clone(),
        }
    }

    pub fn empty_snapshot(account_email: &str, now: i64) -> (r: RemoteDeleteMetricsSnapshot)
        ensures
            r@ == idle_snapshot(account_email@, now),
    {
        RemoteDeleteMetricsSnapshot {
            account_email: account_email.to_owned(),
            timestamp: now,
            mode: BatchMode::Idle.as_str().to_owned(),
            batch_size: 0,
            processed: 0,
            failed: 0,
            pending: 0,
            total_pending: 0,
            rate: RateWindow { processed: 0, elapsed_secs: 1 },
            override_mode: ModeOverride::Auto.as_str().to_owned(),
        }
    }
}

#[derive(Debug, Clone)]
pub struct RemoteDeleteMetricsResponse {
    pub account_email: String,
    pub latest: RemoteDeleteMetricsSnapshot,
    pub history: Vec<RemoteDeleteMetricsHistoryEntry>,
}

pub struct MetricsResponseView {
    pub account_email: Seq<char>,
    pub latest: MetricsSnapshotView,
    pub history: Seq<MetricsEntryView>,
}

impl View for RemoteDeleteMetricsResponse {
    type V = MetricsResponseView;

    open spec fn view(&self) -> MetricsResponseView {
        MetricsResponseView {
            account_email: self.account_email@,
            latest: self.latest@,
            history: entry_views(self.history@),
        }
    }
}

impl RemoteDeleteMetricsResponse {
    /// The response with the live counts of pending UIDs put in: that of the
    /// in-memory set always, that of the cache where it could be counted.
    pub fn with_pending(self, pending: usize, total_pending: Option<usize>) -> (r:
        RemoteDeleteMetricsResponse)
        ensures
            r@ == (MetricsResponseView {
                latest: MetricsSnapshotView {
                    pending,
                    total_pending: match total_pending {
                        Some(t) => t,
                        None => self@.latest.total_pending,
                    },
                    ..self@.latest
                },
                ..self@
            }),
    {
        let mut r = self;
        r.latest.pending = pending;
        match total_pending {
            Some(t) => {
                r.latest.total_pending = t;
            },
            None => {},
        }
        r
    }
}

/// The history with only its newest entries, as many as the limit allows.
pub open spec fn bounded(history: Seq<MetricsEntryView>) -> Seq<MetricsEntryView> {
    if history.len() > METRICS_HISTORY_LIMIT {
        history.skip(history.len() - METRICS_HISTORY_LIMIT)
    } else {
        history
    }
}

/// What one batch adds to the metrics of an account.
pub struct BatchRecord {
    pub timestamp: i64,
    pub report: BatchReport,
    pub pending: usize,
    /// The number of pending rows in the cache, where it could be counted.
    pub total_pending: Option<usize>,
    pub override_mode: ModeOverride,
}

impl BatchRecord {
    pub open spec fn entry(self) -> MetricsEntryView {
        MetricsEntryView {
            timestamp: self.timestamp,
            processed: self.report.processed,
            mode: self.report.mode.label(),
            pending: self.pending,
        }
    }

    /// The snapshot after this batch, given the history that holds its entry.
    pub open spec fn snapshot(
        self,
        account_email: Seq<char>,
        history: Seq<MetricsEntryView>,
    ) -> MetricsSnapshotView {
        let window = rate_window_of(history, self.timestamp);
        MetricsSnapshotView {
            account_email,
            timestamp: self.timestamp,
            mode: self.report.mode.label(),
            batch_size: self.report.batch_size,
            processed: self.report.processed,
            failed: self.report.failed,
            pending: self.pending,
            total_pending: match self.total_pending {
                Some(t) => t,
                None => self.pending,
            },
            rate: RateWindow { processed: window.0 as u128, elapsed_secs: window.1 as i64 },
            override_mode: self.override_mode.label(),
        }
    }
}

/// The metrics of one account: the newest entries and the last snapshot.
pub struct MetricsState {
    history: Vec<RemoteDeleteMetricsHistoryEntry>,
    last: Option<RemoteDeleteMetricsSnapshot>,
}

/// A copy of a history.
pub fn export_history(history: &Vec<RemoteDeleteMetricsHistoryEntry>) -> (r: Vec<
    RemoteDeleteMetricsHistoryEntry,
>)
    ensures
        entry_views(r@) == entry_views(history@),
{
    let mut out: Vec<RemoteDeleteMetricsHistoryEntry> = Vec::new();
    let mut i: usize = 0;
    while i < history.len()
        invariant
            i <= history.len(),
            entry_views(out@) == entry_views(history@).take(i as int),
        decreases history.len() - i,
    {
        let ghost before = entry_views(out@);
        out.push(history[i].duplicate());
        assert(entry_views(out@) =~= before.push(history@[i as int]@));
        assert(entry_views(history@).take(i + 1) =~= before.push(history@[i as int]@));
        i += 1;
    }
    assert(entry_views(history@).take(history.len() as int) =~= entry_views(history@));
    out
}

impl MetricsState {
    /// The history never holds more entries than the limit.
    pub closed spec fn wf(&self) -> bool {
        self.history.len() <= METRICS_HISTORY_LIMIT
    }

    pub closed spec fn history(&self) -> Seq<MetricsEntryView> {
        entry_views(self.history@)
    }

    pub closed spec fn latest(&self) -> Option<MetricsSnapshotView> {
        match self.last {
            Some(s) => Some(s@),
            None => None,
        }
    }

    pub fn new() -> (r: MetricsState)
        ensures
            r.wf(),
            r.history() == Seq::<MetricsEntryView>::empty(),
            r.latest() is None,
    {
        let r = MetricsState { history: Vec::new(), last: None };
        assert(r.history() =~= Seq::<MetricsEntryView>::empty());
        r
    }

    /// Records a batch: its entry joins the history, the oldest entry leaves
    /// where the limit is passed, and the snapshot is taken over the new
    /// history.
    pub fn record(&mut self, account_email: &str, batch: BatchRecord) -> (r:
        RemoteDeleteMetricsResponse)
        requires
            old(self).wf(),
        ensures
            final(self).wf(),
            final(self).history() == bounded(old(self).history().push(batch.entry())),
            final(self).latest() == Some(
                batch.snapshot(account_email@, final(self).history()),
            ),
            r@ == (MetricsResponseView {
                account_email: account_email@,
                latest: batch.snapshot(account_email@, final(self).history()),
                history: final(self).history(),
            }),
    {
        let ghost before = entry_views(self.history@);
        let entry = RemoteDeleteMetricsHistoryEntry {
            timestamp: batch.timestamp,
            processed: batch.report.processed,
            mode: batch.report.mode.as_str().to_owned(),
            pending: batch.pending,
        };
        self.history.push(entry);
        assert(entry_views(self.history@) =~= before.push(batch.entry()));
        if self.history.len() > METRICS_HISTORY_LIMIT {
            self.history.remove(0);
            assert(entry_views(self.history@) =~= before.push(batch.entry()).skip(1));
        }
        let window = rate_window(&self.history, batch.timestamp);
        let snapshot = RemoteDeleteMetricsSnapshot {
            account_email: account_email.to_owned(),
            timestamp: batch.timestamp,
            mode: batch.report.mode.as_str().to_owned(),
            batch_size: batch.report.batch_size,
            processed: batch.report.processed,
            failed: batch.report.failed,
            pending: batch.pending,
            total_pending: match batch.total_pending {
                Some(t) => t,
                None => batch.pending,
            },
            rate: window,
            override_mode: batch.override_mode.as_str().to_owned(),
        };
        let response = RemoteDeleteMetricsResponse {
            account_email: account_email.to_owned(),
            latest: snapshot.duplicate(),
            history: export_history(&self.history),
        };
        self.last = Some(snapshot);
        response
    }

    /// The last snapshot and the history; for an account of which nothing was
    /// recorded, an idle snapshot taken at `now`.
    pub fn metrics_response(&self, account_email: &str, now: i64) -> (r:
        RemoteDeleteMetricsResponse)
        ensures
            r@ == (MetricsResponseView {
                account_email: account_email@,
                latest: match self.latest() {
                    Some(s) => s,
                    None => idle_snapshot(account_email@, now),
                },
                history: self.history(),
            }),
    {
        let latest = match &self.last {
            Some(s) => s.duplicate(),
            None => RemoteDeleteMetricsSnapshot::empty_snapshot(account_email, now),
        };
        RemoteDeleteMetricsResponse {
            account_email: account_email.to_owned(),
            latest,
            history: export_history(&self.history),
        }
    }
}

/// The response for an account that has no metrics yet.
pub fn empty_metrics_response(account_email: &str, now: i64) -> (r: RemoteDeleteMetricsResponse)
    ensures
        r@ == (MetricsResponseView {
            account_email: account_email@,
            latest: idle_snapshot(account_email@, now),
            history: Seq::empty(),
        }),
{
    let r = RemoteDeleteMetricsResponse {
        account_email: account_email.to_owned(),
        latest: RemoteDeleteMetricsSnapshot::empty_snapshot(account_email, now),
        history: Vec::new(),
    };
    assert(entry_views(r.history@) =~= Seq::<MetricsEntryView>::empty());
    r
}

/// The mode of an account: the override that is held for it, else `Auto`.
pub open spec fn override_of(overrides: Map<Seq<char>, ModeOverride>, key: Seq<char>) -> ModeOverride {
    if overrides.dom().contains(key) {
        overrides[key]
    } else {
        ModeOverride::Auto
    }
}

/// Sets the mode of an account. `Auto` is held by holding nothing.
pub fn set_mode_override(overrides: &mut AccountMap<ModeOverride>, account: &str, mode: ModeOverride)
    requires
        old(overrides).wf(),
    ensures
        final(overrides).wf(),
        final(overrides)@ == match mode {
            ModeOverride::Auto => old(overrides)@.remove(account@),
            ModeOverride::ForceBatch => old(overrides)@.insert(account@, mode),
        },
        override_of(final(overrides)@, account@) == mode,
        forall|other: Seq<char>|
            other != account@ ==> override_of(final(overrides)@, other) == override_of(
                old(overrides)@,
                other,
            ),
{
    match mode {
        ModeOverride::Auto => {
            let _ = overrides.remove(account);
        },
        ModeOverride::ForceBatch => {
            overrides.insert(account, mode);
        },
    }
}

pub fn mode_override(overrides: &AccountMap<ModeOverride>, account: &str) -> (r: ModeOverride)
    requires
        overrides.wf(),
    ensures
        r == override_of(overrides@, account@),
{
    match overrides.get(account) {
        Some(mode) => *mode,
        None => ModeOverride::Auto,
    }
}

/// Every pending set of the registry is well formed.
pub open spec fn sets_wf(pending: Map<Seq<char>, PendingUids>) -> bool {
    forall|k: Seq<char>| pending.dom().contains(k) ==> (#[trigger] pending[k]).wf()
}

/// The pending UIDs of an account: none for an account without a set.
pub open spec fn pending_of(pending: Map<Seq<char>, PendingUids>, account: Seq<char>) -> Set<
    Seq<char>,
> {
    if pending.dom().contains(account) {
        pending[account]@
    } else {
        Set::empty()
    }
}

/// Registers the UIDs of a request for an account. Those already pending
/// are absorbed; the others become pending and are returned.
pub fn register_pending(pending: &mut AccountMap<PendingUids>, account: &str, uids: &Vec<String>) -> (added:
    Vec<String>)
    requires
        old(pending).wf(),
        sets_wf(old(pending)@),
    ensures
        final(pending).wf(),
        sets_wf(final(pending)@),
        final(pending)@.dom() == old(pending)@.dom().insert(account@),
        pending_of(final(pending)@, account@) == pending_of(old(pending)@, account@).union(
            texts(uids@).to_set(),
        ),
        texts(added@) == newly_added(pending_of(old(pending)@, account@), texts(uids@)),
        forall|other: Seq<char>|
            other != account@ && old(pending)@.dom().contains(other) ==> final(pending)@[other]
                == old(pending)@[other],
{
    let mut set = match pending.remove(account) {
        Some(existing) => existing,
        None => PendingUids::new(),
    };
    let added = set.register(uids);
    pending.insert(account, set);
    added
}

/// Takes the UIDs of a finished batch out of the pending set of an account.
/// An account whose set becomes empty leaves the registry.
pub fn clear_pending_many(pending: &mut AccountMap<PendingUids>, account: &str, uids: &Vec<String>)
    requires
        old(pending).wf(),
        sets_wf(old(pending)@),
    ensures
        final(pending).wf(),
        sets_wf(final(pending)@),
        pending_of(final(pending)@, account@) == pending_of(old(pending)@, account@).difference(
            texts(uids@).to_set(),
        ),
        final(pending)@.dom().contains(account@) ==> pending_of(final(pending)@, account@)
            != Set::<Seq<char>>::empty(),
        forall|other: Seq<char>|
            other != account@ ==> pending_of(final(pending)@, other) == pending_of(
                old(pending)@,
                other,
            ),
{
    match pending.remove(account) {
        Some(existing) => {
            let mut set = existing;
            set.clear_many(uids);
            if !set.is_empty() {
                pending.insert(account, set);
            }
        },
        None => {
            assert(Set::<Seq<char>>::empty().difference(texts(uids@).to_set()) =~= Set::<
                Seq<char>,
            >::empty());
        },
    }
}

/// The number of pending UIDs of an account: none for an account without a
/// pending set.
pub fn pending_count(pending: &AccountMap<PendingUids>, account: &str) -> (r: usize)
    requires
        pending.wf(),
        forall|k: Seq<char>| pending@.dom().contains(k) ==> (#[trigger] pending@[k]).wf(),
    ensures
        r == if pending@.dom().contains(account@) {
            pending@[account@]@.len()
        } else {
            0
        },
{
    match pending.get(account) {
        Some(set) => set.len(),
        None => 0,
    }
}

} // verus!
