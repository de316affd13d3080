//! The decisions of an IMAP session: which messages to ask for, how UIDs are
//! enumerated, ordered and cut into batches, and how a fetched item becomes a
//! summary.

use crate::models::{EmailSummary, EmailSummaryView, MailAddress, MailAddressView};
use crate::providers::{
    chunk_size, clamped_chunk, envelope_views, opt_bytes, BatchResult, BatchResultView,
    MessageEnvelope, MessageEnvelopeView,
};
use crate::text::{
    chars_of, clip_chars, clipped, decimal, decimal_string, first_strings, join, join_strings,
    lemma_lex_total, lemma_lex_transitive, lex_le, lossy_text, opt_text, push_decimal, push_text,
    split_words, text_le, texts, trim, trimmed, utf8_lossy, words,
};
use vstd::prelude::*;
use vstd::seq_lib::{to_multiset_build, to_multiset_insert};
use vstd::string::*;

verus! {

/// A search that returns this many UIDs or more is taken to have hit the
/// server's cap on results.
pub const MAX_UIDS_PER_SEARCH: usize = 900;

/// The number of UIDs asked for by one range fetch of an enumeration.
pub const UID_RANGE_SIZE: u32 = 10000;

pub const INBOX: &'static str = "INBOX";

/// The items fetched to learn the UIDs of a range.
pub const FETCH_UID: &'static str = "UID";

/// The items fetched for a summary.
pub const FETCH_SUMMARY: &'static str = "(ENVELOPE INTERNALDATE)";

/// The items fetched for a synced message.
pub const FETCH_MESSAGE: &'static str = "(ENVELOPE INTERNALDATE BODY.PEEK[TEXT]<0.4096> FLAGS)";

/// The flag change that marks a message as deleted.
pub const STORE_DELETED: &'static str = "+FLAGS (\\Deleted)";

/// The sequence numbers of the newest `limit` messages of a mailbox that
/// holds `exists` messages: none for an empty mailbox or a limit of zero.
pub open spec fn recent_range_of(exists: u32, limit: usize) -> Option<(u32, u32)> {
    if exists == 0 || limit == 0 {
        None
    } else if limit >= exists {
        Some((1u32, exists))
    } else {
        Some(((exists - limit + 1) as u32, exists))
    }
}

pub fn recent_sequence_range(exists: u32, limit: usize) -> (r: Option<(u32, u32)>)
    ensures
        r == recent_range_of(exists, limit),
{
    if exists == 0 || limit == 0 {
        None
    } else if limit >= exists as usize {
        Some((1, exists))
    } else {
        Some((exists - (limit as u32) + 1, exists))
    }
}

/// The text of a range of sequence numbers or UIDs: `start:end`.
pub fn range_query(start: u32, end: u32) -> (r: String)
    ensures
        r@ == decimal(start as nat) + ":"@ + decimal(end as nat),
{
    let mut out = String::new();
    push_decimal(&mut out, start as u64);
    push_text(&mut out, ":");
    push_decimal(&mut out, end as u64);
    assert(out@ =~= decimal(start as nat) + ":"@ + decimal(end as nat));
    out
}

/// The decimal notations of a list of UIDs.
pub open spec fn uid_texts(uids: Seq<u32>) -> Seq<Seq<char>> {
    uids.map_values(|u: u32| decimal(u as nat))
}

/// The text of a set of UIDs: their decimal notations with commas between.
pub fn uid_set_query(uids: &Vec<u32>) -> (r: String)
    ensures
        r@ == join(uid_texts(uids@), ","@),
{
    let mut out = String::new();
    let mut i: usize = 0;
    while i < uids.len()
        invariant
            i <= uids.len(),
            out@ == join(uid_texts(uids@).take(i as int), ","@),
        decreases uids.len() - i,
    {
        proof {
            let all = uid_texts(uids@);
            assert(all.take(i + 1).drop_last() =~= all.take(i as int));
            assert(all.take(i + 1).last() == decimal(uids@[i as int] as nat));
        }
        if i > 0 {
            push_text(&mut out, ",");
        }
        push_decimal(&mut out, uids[i] as u64);
        i += 1;
    }
    assert(uid_texts(uids@).take(uids.len() as int) =~= uid_texts(uids@));
    out
}

/// The search for the messages of one sender: `FROM "sender"`.
pub fn sender_query(sender: &str) -> (r: String)
    ensures
        r@ == "FROM \""@ + sender@ + "\""@,
{
    let mut out = "FROM \"".to_owned();
    push_text(&mut out, sender);
    push_text(&mut out, "\"");
    out
}

pub open spec fn ascending(s: Seq<u32>) -> bool {
    forall|i: int, j: int| 0 <= i <= j < s.len() ==> s[i] <= s[j]
}

pub open spec fn strictly_ascending(s: Seq<u32>) -> bool {
    forall|i: int, j: int| 0 <= i < j < s.len() ==> s[i] < s[j]
}

/// The UIDs in ascending order, each as often as it was given.
pub fn sort_uids(uids: &Vec<u32>) -> (r: Vec<u32>)
    ensures
        ascending(r@),
        r@.to_multiset() == uids@.to_multiset(),
{
    let mut out: Vec<u32> = Vec::new();
    let mut i: usize = 0;
    assert(uids@.take(0) =~= out@);
    while i < uids.len()
        invariant
            i <= uids.len(),
            ascending(out@),
            out@.to_multiset() == uids@.take(i as int).to_multiset(),
        decreases uids.len() - i,
    {
        let x = uids[i];
        let mut pos: usize = out.len();
        while pos > 0 && out[pos - 1] > x
            invariant
                pos <= out.len(),
                forall|k: int| pos <= k < out.len() ==> out@[k] > x,
            decreases pos,
        {
            pos -= 1;
        }
        proof {
            let before = out@;
            to_multiset_insert(before, pos as int, x);
            to_multiset_build(uids@.take(i as int), x);
            assert(uids@.take(i + 1) =~= uids@.take(i as int).push(x));
            let after = before.insert(pos as int, x);
            assert forall|a: int, b: int| 0 <= a <= b < after.len() implies after[a] <= after[b] by {
                if a < pos && b > pos {
                    assert(after[b] == before[b - 1]);
                } else if a < pos && b == pos {
                    if pos > 0 {
                        assert(before[a] <= before[pos - 1]);
                    }
                } else if a < pos {
                } else if a == pos {
                    if b > pos {
                        assert(after[b] == before[b - 1]);
                    }
                } else {
                    assert(after[a] == before[a - 1]);
                    assert(after[b] == before[b - 1]);
                }
            }
        }
        out.insert(pos, x);
        i += 1;
    }
    assert(uids@.take(uids.len() as int) =~= uids@);
    out
}

/// The UIDs above the watermark, in their order; all of them without one.
pub open spec fn above(uids: Seq<u32>, since: Option<u32>) -> Seq<u32>
    decreases uids.len(),
{
    if uids.len() == 0 {
        Seq::empty()
    } else if since is Some && uids.last() <= since->0 {
        above(uids.drop_last(), since)
    } else {
        above(uids.drop_last(), since).push(uids.last())
    }
}

pub fn uids_above(uids: &Vec<u32>, since: Option<u32>) -> (r: Vec<u32>)
    ensures
        r@ == above(uids@, since),
{
    let mut out: Vec<u32> = Vec::new();
    let mut i: usize = 0;
    while i < uids.len()
        invariant
            i <= uids.len(),
            out@ == above(uids@.take(i as int), since),
        decreases uids.len() - i,
    {
        assert(uids@.take(i + 1).drop_last() =~= uids@.take(i as int));
        let keep = match since {
            Some(threshold) => uids[i] > threshold,
            None => true,
        };
        if keep {
            out.push(uids[i]);
        }
        i += 1;
    }
    assert(uids@.take(uids.len() as int) =~= uids@);
    out
}

/// Every UID that `above` keeps lies above the watermark and was given.
pub proof fn lemma_above_members(uids: Seq<u32>, since: Option<u32>, u: u32)
    ensures
        above(uids, since).contains(u) <==> uids.contains(u) && (since is Some ==> u > since->0),
    decreases uids.len(),
{
    if uids.len() > 0 {
        let rest = uids.drop_last();
        lemma_above_members(rest, since, u);
        let kept = above(rest, since);
        if uids.contains(u) {
            let k = choose|k: int| 0 <= k < uids.len() && uids[k] == u;
            if k < rest.len() {
                assert(rest[k] == u);
            }
        }
        if rest.contains(u) {
            let k = choose|k: int| 0 <= k < rest.len() && rest[k] == u;
            assert(uids[k] == u);
        }
        if since is Some && uids.last() <= since->0 {
        } else {
            let all = kept.push(uids.last());
            if all.contains(u) {
                let k = choose|k: int| 0 <= k < all.len() && all[k] == u;
                if k < kept.len() {
                    assert(kept[k] == u);
                } else {
                    assert(uids[uids.len() - 1] == u);
                }
            }
            if kept.contains(u) {
                let k = choose|k: int| 0 <= k < kept.len() && kept[k] == u;
                assert(all[k] == u);
            }
            if uids.last() == u {
                assert(all[kept.len() as int] == u);
            }
        }
    }
}

/// An ascending list without its repetitions.
pub fn dedup_sorted(uids: &Vec<u32>) -> (r: Vec<u32>)
    requires
        ascending(uids@),
    ensures
        strictly_ascending(r@),
        r@.to_set() == uids@.to_set(),
{
    let mut out: Vec<u32> = Vec::new();
    let mut i: usize = 0;
    assert(uids@.take(0).to_set() =~= out@.to_set());
    while i < uids.len()
        invariant
            i <= uids.len(),
            ascending(uids@),
            strictly_ascending(out@),
            out@.to_set() == uids@.take(i as int).to_set(),
            out.len() > 0 ==> i > 0 && out@.last() == uids@[i - 1],
            i > 0 ==> out.len() > 0,
        decreases uids.len() - i,
    {
        let x = uids[i];
        let ghost before = out@;
        let ghost seen = uids@.take(i as int);
        let fresh = out.len() == 0 || out[out.len() - 1] != x;
        if fresh {
            out.push(x);
        }
        proof {
            let next = uids@.take(i + 1);
            assert(next =~= seen.push(x));
            assert(next.to_set() =~= seen.to_set().insert(x)) by {
                assert forall|y: u32| next.to_set().contains(y) implies seen.to_set().insert(
                    x,
                ).contains(y) by {
                    let k = choose|k: int| 0 <= k < next.len() && next[k] == y;
                    if k < seen.len() {
                        assert(seen[k] == y);
                    }
                }
                assert forall|y: u32| seen.to_set().insert(x).contains(y) implies next.to_set().contains(
                    y,
                ) by {
                    if y == x {
                        assert(next[i as int] == y);
                    } else {
                        let k = choose|k: int| 0 <= k < seen.len() && seen[k] == y;
                        assert(next[k] == y);
                    }
                }
            }
            if fresh {
                assert(out@ =~= before.push(x));
                assert(out@.to_set() =~= before.to_set().insert(x)) by {
                    assert forall|y: u32| out@.to_set().contains(y) implies before.to_set().insert(
                        x,
                    ).contains(y) by {
                        let k = choose|k: int| 0 <= k < out@.len() && out@[k] == y;
                        if k < before.len() {
                            assert(before[k] == y);
                        }
                    }
                    assert forall|y: u32|
                        before.to_set().insert(x).contains(y) implies out@.to_set().contains(y) by {
                        if y == x {
                            assert(out@[before.len() as int] == y);
                        } else {
                            let k = choose|k: int| 0 <= k < before.len() && before[k] == y;
                            assert(out@[k] == y);
                        }
                    }
                }
                assert forall|a: int, b: int| 0 <= a < b < out@.len() implies out@[a] < out@[b] by {
                    if b == before.len() {
                        assert(before[a] <= before.last());
                        assert(uids@[i - 1] <= uids@[i as int]);
                    }
                }
            } else {
                assert(before.to_set().contains(before.last()));
                assert(seen.to_set().insert(x) =~= seen.to_set());
            }
        }
        i += 1;
    }
    assert(uids@.take(uids.len() as int) =~= uids@);
    out
}

/// The UID ranges of a full enumeration of a mailbox whose next UID is
/// `uid_next`: they cover `1..uid_next` without gap or overlap, in ascending
/// order, each of 10000 UIDs but the last, which may hold fewer.
pub open spec fn covers_mailbox(ranges: Seq<(u32, u32)>, uid_next: u32) -> bool {
    &&& (uid_next <= 1 <==> ranges.len() == 0)
    &&& ranges.len() > 0 ==> ranges[0].0 == 1 && ranges.last().1 == uid_next - 1
    &&& forall|i: int|
        0 <= i < ranges.len() ==> (#[trigger] ranges[i]).0 <= ranges[i].1 && ranges[i].1
            - ranges[i].0 < UID_RANGE_SIZE
    &&& forall|i: int|
        0 <= i < ranges.len() - 1 ==> (#[trigger] ranges[i]).1 - ranges[i].0 == UID_RANGE_SIZE - 1
            && ranges[i + 1].0 == ranges[i].1 + 1
}

pub fn uid_ranges(uid_next: u32) -> (r: Vec<(u32, u32)>)
    ensures
        covers_mailbox(r@, uid_next),
{
    let mut out: Vec<(u32, u32)> = Vec::new();
    if uid_next <= 1 {
        return out;
    }
    let max_uid: u32 = uid_next - 1;
    let mut start: u32 = 1;
    loop
        invariant_except_break
            1 <= start <= max_uid == uid_next - 1,
            out.len() == 0 ==> start == 1,
            out.len() > 0 ==> out@[0].0 == 1 && out@.last().1 == start - 1,
            forall|i: int|
                0 <= i < out.len() ==> (#[trigger] out@[i]).0 <= out@[i].1 && out@[i].1 - out@[i].0
                    == UID_RANGE_SIZE - 1,
            forall|i: int| 0 <= i < out.len() - 1 ==> out@[i + 1].0 == (#[trigger] out@[i]).1 + 1,
        ensures
            covers_mailbox(out@, uid_next),
        decreases max_uid - start,
    {
        let end: u32 = if max_uid - start >= UID_RANGE_SIZE {
            start + (UID_RANGE_SIZE - 1)
        } else {
            max_uid
        };
        out.push((start, end));
        if end == max_uid {
            break ;
        }
        start = end + 1;
    }
    out
}

/// One batch of a sync: its place among the batches and the UIDs to fetch.
#[derive(Debug, Clone)]
pub struct UidBatch {
    pub index: usize,
    pub total: usize,
    pub uids: Vec<u32>,
}

/// The UIDs of all batches, one batch after the other.
pub open spec fn batch_uids(batches: Seq<UidBatch>) -> Seq<u32>
    decreases batches.len(),
{
    if batches.len() == 0 {
        Seq::empty()
    } else {
        batch_uids(batches.drop_last()) + batches.last().uids@
    }
}

/// The number of batches that `n` UIDs are cut into.
pub open spec fn batch_count(n: nat, chunk: nat) -> nat
    decreases n,
{
    if n == 0 {
        0
    } else if n <= chunk || chunk == 0 {
        1
    } else {
        1 + batch_count((n - chunk) as nat, chunk)
    }
}

/// The batches are numbered from one without gap, each knows how many there
/// are, and each holds `chunk` UIDs but the last, which holds what is left.
pub open spec fn well_numbered(batches: Seq<UidBatch>, chunk: usize) -> bool {
    &&& forall|i: int|
        0 <= i < batches.len() ==> (#[trigger] batches[i]).index == i + 1 && batches[i].total
            == batches.len() && 1 <= batches[i].uids.len() <= chunk
    &&& forall|i: int| 0 <= i < batches.len() - 1 ==> (#[trigger] batches[i]).uids.len() == chunk
}

fn count_batches(n: usize, chunk: usize) -> (r: usize)
    requires
        chunk > 0,
    ensures
        r == batch_count(n as nat, chunk as nat),
{
    let mut rest: usize = n;
    let mut count: usize = 0;
    while rest > 0
        invariant
            chunk > 0,
            rest <= n,
            count <= n - rest,
            count + batch_count(rest as nat, chunk as nat) == batch_count(n as nat, chunk as nat),
        decreases rest,
    {
        rest = if rest > chunk {
            rest - chunk
        } else {
            0
        };
        count += 1;
    }
    count
}

/// Plans the fetches of a sync. The UIDs above the watermark are put in
/// ascending order and cut into batches of the chunk size, which is held
/// within its bounds.
pub fn plan_batches(uids: &Vec<u32>, since_uid: Option<u32>, requested_chunk: usize) -> (r: Vec<
    UidBatch,
>)
    ensures
        well_numbered(r@, clamped_chunk(requested_chunk)),
        r.len() == batch_count(
            above(uids@, since_uid).len(),
            clamped_chunk(requested_chunk) as nat,
        ),
        ascending(batch_uids(r@)),
        batch_uids(r@).to_multiset() == above(uids@, since_uid).to_multiset(),
{
    let chunk = chunk_size(requested_chunk);
    let kept = uids_above(uids, since_uid);
    let sorted = sort_uids(&kept);
    proof {
        kept@.to_multiset_ensures();
        sorted@.to_multiset_ensures();
    }
    let n = sorted.len();
    let total = count_batches(n, chunk);
    let mut out: Vec<UidBatch> = Vec::new();
    let mut start: usize = 0;
    assert(sorted@.take(0) =~= batch_uids(out@));
    while start < n
        invariant
            start <= n == sorted.len(),
            50 <= chunk <= 1000,
            out.len() + batch_count((n - start) as nat, chunk as nat) == total,
            batch_uids(out@) == sorted@.take(start as int),
            forall|j: int|
                0 <= j < out.len() ==> (#[trigger] out@[j]).index == j + 1 && out@[j].total == total
                    && 1 <= out@[j].uids.len() <= chunk,
            forall|j: int|
                0 <= j < out.len() ==> (#[trigger] out@[j]).uids.len() == chunk || (j == out.len()
                    - 1 && start == n),
        decreases n - start,
    {
        let end: usize = if n - start > chunk {
            start + chunk
        } else {
            n
        };
        let mut part: Vec<u32> = Vec::new();
        let mut k: usize = start;
        while k < end
            invariant
                start <= k <= end <= n == sorted.len(),
                part@ == sorted@.subrange(start as int, k as int),
            decreases end - k,
        {
            part.push(sorted[k]);
            assert(part@ =~= sorted@.subrange(start as int, k + 1));
            k += 1;
        }
        let batch = UidBatch { index: out.len() + 1, total, uids: part };
        proof {
            assert(out@.push(batch).drop_last() =~= out@);
            assert(sorted@.take(end as int) =~= sorted@.take(start as int) + part@);
        }
        out.push(batch);
        start = end;
    }
    assert(sorted@.take(n as int) =~= sorted@);
    out
}

/// The result of one batch: its index and total as planned, the number of
/// UIDs asked for, and the messages that came back.
pub fn batch_result(batch: &UidBatch, messages: Vec<MessageEnvelope>) -> (r: BatchResult)
    ensures
        r@ == (BatchResultView {
            index: batch.index,
            total: batch.total,
            requested: batch.uids.len(),
            fetched: messages.len(),
            messages: envelope_views(messages@),
        }),
{
    BatchResult {
        index: batch.index,
        total: batch.total,
        requested: batch.uids.len(),
        fetched: messages.len(),
        messages,
    }
}

/// The dates of a windowed sync, as days of the proleptic Gregorian
/// calendar: day 1 is the first of January of the year 1.
#[derive(Debug, Clone, Copy, PartialEq, Eq, Structural)]
pub struct SyncWindow {
    pub since: i32,
    pub before: Option<i32>,
}

/// The days from `start` up to, not including, `end`.
#[derive(Debug, Clone, Copy, PartialEq, Eq, Structural)]
pub struct DayRange {
    pub start: i32,
    pub end: i32,
}

/// One search of a windowed enumeration.
#[derive(Debug, Clone, Copy, PartialEq, Eq, Structural)]
pub enum WindowQuery {
    /// `SINCE start BEFORE end`.
    Between(DayRange),
    /// `SINCE day`, with no upper bound.
    Since(i32),
}

/// What was done with the result of one search.
#[derive(Debug, Clone, Copy, PartialEq, Eq, Structural)]
pub enum WindowOutcome {
    /// The result hit the cap: it was dropped, and the two halves of the
    /// range will be searched instead.
    Split { first: DayRange, second: DayRange },
    /// The result was kept. `capped` says that it hit the cap all the same,
    /// on a range that cannot be split, so that it may be incomplete.
    Kept { capped: bool },
}

/// The day in the middle of a range.
pub open spec fn midpoint(range: DayRange) -> int {
    range.start + (range.end - range.start) / 2
}

/// A search whose result hits the cap is split where its range spans more
/// than one day.
pub open spec fn must_split(query: WindowQuery, count: nat) -> bool {
    match query {
        WindowQuery::Between(range) => count >= MAX_UIDS_PER_SEARCH && range.end - range.start
            > 1,
        WindowQuery::Since(_) => false,
    }
}

/// The two halves of a range that spans more than one day are not empty,
/// are both shorter than the range, and cover it without gap or overlap.
pub proof fn lemma_halves_cover(range: DayRange)
    requires
        range.end - range.start > 1,
    ensures
        range.start < midpoint(range) < range.end,
        i32::MIN <= midpoint(range) <= i32::MAX,
{
}

/// The searches still to issue and the UIDs found so far.
pub struct WindowSearch {
    pending: Vec<WindowQuery>,
    collected: Vec<u32>,
}

impl WindowSearch {
    /// The searches still to issue; the next one is the last of the list.
    pub closed spec fn pending(&self) -> Seq<WindowQuery> {
        self.pending@
    }

    /// The UIDs kept so far, in the order in which they came.
    pub closed spec fn collected(&self) -> Seq<u32> {
        self.collected@
    }

    /// A windowed enumeration starts with one search: over the whole window
    /// where it has an end, from its first day on where it has none.
    pub fn new(window: SyncWindow) -> (r: WindowSearch)
        ensures
            r.collected() == Seq::<u32>::empty(),
            r.pending() == seq![
                match window.before {
                    Some(before) => WindowQuery::Between(
                        DayRange { start: window.since, end: before },
                    ),
                    None => WindowQuery::Since(window.since),
                },
            ],
    {
        let first = match window.before {
            Some(before) => WindowQuery::Between(DayRange { start: window.since, end: before }),
            None => WindowQuery::Since(window.since),
        };
        let mut pending: Vec<WindowQuery> = Vec::new();
        pending.push(first);
        let r = WindowSearch { pending, collected: Vec::new() };
        assert(r.pending@ =~= seq![first]);
        r
    }

    /// The next search to issue, or `None` when the enumeration is done.
    /// Ranges without a day are passed over.
    pub fn next_query(&mut self) -> (r: Option<WindowQuery>)
        ensures
            final(self).collected() == old(self).collected(),
            match r {
                Some(query) => ({
                    &&& !is_empty_query(query)
                    &&& final(self).pending().len() < old(self).pending().len()
                    &&& final(self).pending() == old(self).pending().take(
                        final(self).pending().len() as int,
                    )
                    &&& old(self).pending()[final(self).pending().len() as int] == query
                    &&& forall|k: int|
                        final(self).pending().len() < k < old(self).pending().len()
                            ==> is_empty_query(#[trigger] old(self).pending()[k])
                }),
                None => ({
                    &&& final(self).pending().len() == 0
                    &&& forall|k: int|
                        0 <= k < old(self).pending().len() ==> is_empty_query(
                            #[trigger] old(self).pending()[k],
                        )
                }),
            },
    {
        loop
            invariant
                self.collected@ == old(self).collected@,
                self.pending@.len() <= old(self).pending@.len(),
                self.pending@ == old(self).pending@.take(self.pending@.len() as int),
                forall|k: int|
                    self.pending@.len() <= k < old(self).pending@.len() ==> is_empty_query(
                        #[trigger] old(self).pending@[k],
                    ),
            decreases self.pending@.len(),
        {
            match self.pending.pop() {
                None => {
                    return None;
                },
                Some(query) => {
                    assert(self.pending@ =~= old(self).pending@.take(self.pending@.len() as int));
                    let empty = match query {
                        WindowQuery::Between(range) => range.start >= range.end,
                        WindowQuery::Since(_) => false,
                    };
                    if !empty {
                        return Some(query);
                    }
                },
            }
        }
    }

    /// Takes in the result of a search. A result that hits the cap on a range
    /// of more than one day is dropped and both halves of the range are put
    /// up for search, the earlier half first. Any other result is kept.
    pub fn record(&mut self, query: WindowQuery, uids: &Vec<u32>) -> (r: WindowOutcome)
        ensures
            must_split(query, uids@.len()) ==> query is Between && ({
                let range = query->Between_0;
                let first = DayRange { start: range.start, end: midpoint(range) as i32 };
                let second = DayRange { start: midpoint(range) as i32, end: range.end };
                &&& r == (WindowOutcome::Split { first, second })
                &&& final(self).collected() == old(self).collected()
                &&& final(self).pending() == old(self).pending().push(
                    WindowQuery::Between(second),
                ).push(WindowQuery::Between(first))
            }),
            !must_split(query, uids@.len()) ==> {
                &&& r == (WindowOutcome::Kept { capped: uids@.len() >= MAX_UIDS_PER_SEARCH })
                &&& final(self).collected() == old(self).collected() + uids@
                &&& final(self).pending() == old(self).pending()
            },
    {
        let capped = uids.len() >= MAX_UIDS_PER_SEARCH;
        if capped {
            match query {
                WindowQuery::Between(range) => {
                    let span: i64 = (range.end as i64) - (range.start as i64);
                    if span > 1 {
                        let mid: i32 = ((range.start as i64) + span / 2) as i32;
                        let first = DayRange { start: range.start, end: mid };
                        let second = DayRange { start: mid, end: range.end };
                        self.pending.push(WindowQuery::Between(second));
                        self.pending.push(WindowQuery::Between(first));
                        return WindowOutcome::Split { first, second };
                    }
                },
                WindowQuery::Since(_) => {},
            }
        }
        let mut i: usize = 0;
        while i < uids.len()
            invariant
                i <= uids.len(),
                self.pending@ == old(self).pending@,
                self.collected@ == old(self).collected@ + uids@.take(i as int),
            decreases uids.len() - i,
        {
            self.collected.push(uids[i]);
            assert(old(self).collected@ + uids@.take(i + 1) =~= (old(self).collected@ + uids@.take(
                i as int,
            )).push(uids@[i as int]));
            i += 1;
        }
        assert(uids@.take(uids.len() as int) =~= uids@);
        WindowOutcome::Kept { capped }
    }

    /// The UIDs that the enumeration found: each once, in ascending order.
    pub fn finish(self) -> (r: Vec<u32>)
        ensures
            strictly_ascending(r@),
            r@.to_set() == self.collected().to_set(),
    {
        let sorted = sort_uids(&self.collected);
        proof {
            sorted@.to_multiset_ensures();
            self.collected@.to_multiset_ensures();
            assert(sorted@.to_set() =~= self.collected@.to_set()) by {
                assert forall|u: u32| sorted@.to_set().contains(u) <==> self.collected@.to_set().contains(
                    u,
                ) by {
                    assert(sorted@.contains(u) <==> sorted@.to_multiset().count(u) > 0);
                    assert(self.collected@.contains(u) <==> self.collected@.to_multiset().count(u)
                        > 0);
                }
            }
        }
        dedup_sorted(&sorted)
    }
}

/// A search over a range without a day finds nothing and is not issued.
pub open spec fn is_empty_query(query: WindowQuery) -> bool {
    match query {
        WindowQuery::Between(range) => range.start >= range.end,
        WindowQuery::Since(_) => false,
    }
}

/// What chrono prints for a day of the proleptic Gregorian calendar under
/// the format `%d-%b-%Y`, as in `01-Jan-2020`; `None` for a day outside the
/// dates that chrono can hold.
pub uninterp spec fn imap_date_text(days: i32) -> Option<Seq<char>>;

/// Makes the date with `NaiveDate::from_num_days_from_ce_opt` and prints it
/// with `NaiveDate::format`. The text is known only by its name.
#[verifier::external_body]
pub(crate) fn format_imap_date(days: i32) -> (r: Option<String>)
    ensures
        crate::text::opt_text(r) == imap_date_text(days),
{
    match chrono::NaiveDate::from_num_days_from_ce_opt(days) {
        Some(date) => Some(date.format("%d-%b-%Y").to_string()),
        None => None,
    }
}

/// The text of a search, given the texts of its dates.
pub open spec fn query_text(query: WindowQuery) -> Option<Seq<char>> {
    match query {
        WindowQuery::Between(range) => match (
            imap_date_text(range.start),
            imap_date_text(range.end),
        ) {
            (Some(a), Some(b)) => Some("SINCE "@ + a + " BEFORE "@ + b),
            _ => None,
        },
        WindowQuery::Since(day) => match imap_date_text(day) {
            Some(a) => Some("SINCE "@ + a),
            None => None,
        },
    }
}

/// The search key of a query; `None` where one of its days cannot be
/// printed as a date.
pub fn window_query(query: WindowQuery) -> (r: Option<String>)
    ensures
        crate::text::opt_text(r) == query_text(query),
{
    match query {
        WindowQuery::Between(range) => {
            match (format_imap_date(range.start), format_imap_date(range.end)) {
                (Some(a), Some(b)) => {
                    let mut out = "SINCE ".to_owned();
                    push_text(&mut out, a.as_str());
                    push_text(&mut out, " BEFORE ");
                    push_text(&mut out, b.as_str());
                    Some(out)
                },
                _ => None,
            }
        },
        WindowQuery::Since(day) => {
            match format_imap_date(day) {
                Some(a) => {
                    let mut out = "SINCE ".to_owned();
                    push_text(&mut out, a.as_str());
                    Some(out)
                },
                None => None,
            }
        },
    }
}

/// One address of an envelope, as the server sent it.
#[derive(Debug, Clone)]
pub struct FetchedAddress {
    pub name: Option<Vec<u8>>,
    pub mailbox: Option<Vec<u8>>,
    pub host: Option<Vec<u8>>,
}

/// The envelope of a fetched message, as the server sent it.
#[derive(Debug, Clone)]
pub struct FetchedEnvelope {
    pub subject: Option<Vec<u8>>,
    pub from: Option<Vec<FetchedAddress>>,
    pub date: Option<Vec<u8>>,
}

#[derive(Debug, Clone)]
pub enum MessageFlag {
    Seen,
    Answered,
    Flagged,
    Deleted,
    Draft,
    Recent,
    MayCreate,
    Custom(String),
}

/// One item of a FETCH response. `internal_date` is the server's date of
/// arrival in the notation of RFC 2822.
#[derive(Debug, Clone)]
pub struct FetchedItem {
    pub uid: Option<u32>,
    pub envelope: Option<FetchedEnvelope>,
    pub internal_date: Option<String>,
    pub body: Option<Vec<u8>>,
    pub flags: Vec<MessageFlag>,
}

/// The most words and characters of a body snippet.
pub const SNIPPET_MAX_WORDS: usize = 80;

pub const SNIPPET_MAX_CHARS: usize = 280;

/// The text of a header value: decoded leniently as UTF-8 and trimmed; the
/// empty text for a value that is absent.
pub open spec fn decoded(data: Option<Seq<u8>>) -> Seq<char> {
    match data {
        Some(b) => trim(lossy_text(b)),
        None => Seq::empty(),
    }
}

pub open spec fn opt_slice(data: Option<&[u8]>) -> Option<Seq<u8>> {
    match data {
        Some(b) => Some(b@),
        None => None,
    }
}

pub fn decode_bytes(data: Option<&[u8]>) -> (r: String)
    ensures
        r@ == decoded(opt_slice(data)),
{
    match data {
        Some(bytes) => {
            let raw = utf8_lossy(bytes);
            trimmed(raw.as_str())
        },
        None => String::new(),
    }
}

fn decode_field(field: &Option<Vec<u8>>) -> (r: String)
    ensures
        r@ == decoded(opt_bytes(*field)),
{
    match field {
        Some(bytes) => decode_bytes(Some(bytes.as_slice())),
        None => decode_bytes(None),
    }
}

/// The sender of a message: the first address of the envelope's `from`
/// list. The address reads `mailbox@host`, or whichever of the two is
/// there; where both are missing the display name stands in for it.
pub open spec fn address_of(addresses: Option<Vec<FetchedAddress>>) -> MailAddressView {
    if addresses is Some && addresses->0.len() > 0 {
        let first = addresses->0[0];
        let name = decoded(opt_bytes(first.name));
        let mailbox = decoded(opt_bytes(first.mailbox));
        let host = decoded(opt_bytes(first.host));
        let email = if mailbox.len() > 0 && host.len() > 0 {
            mailbox + "@"@ + host
        } else if mailbox.len() > 0 {
            mailbox
        } else {
            host
        };
        MailAddressView {
            display_name: if name.len() > 0 {
                Some(name)
            } else {
                None
            },
            email: if email.len() == 0 {
                name
            } else {
                email
            },
        }
    } else {
        MailAddressView { display_name: None, email: Seq::empty() }
    }
}

pub fn primary_address(addresses: &Option<Vec<FetchedAddress>>) -> (r: MailAddress)
    ensures
        r@ == address_of(*addresses),
{
    match addresses {
        Some(list) => {
            if list.len() > 0 {
                let first = &list[0];
                let name = decode_field(&first.name);
                let mailbox = decode_field(&first.mailbox);
                let host = decode_field(&first.host);
                let has_name = name.as_str().unicode_len() > 0;
                let has_mailbox = mailbox.as_str().unicode_len() > 0;
                let has_host = host.as_str().unicode_len() > 0;
                let email = if has_mailbox && has_host {
                    let mut out = mailbox;
                    push_text(&mut out, "@");
                    push_text(&mut out, host.as_str());
                    out
                } else if has_mailbox {
                    mailbox
                } else if has_host {
                    host
                } else {
                    assert(host@ =~= Seq::<char>::empty());
                    name.clone()
                };
                assert(name@.len() == 0 ==> name@ =~= Seq::<char>::empty());
                MailAddress {
                    display_name: if has_name {
                        Some(name)
                    } else {
                        None
                    },
                    email,
                }
            } else {
                MailAddress { display_name: None, email: String::new() }
            }
        },
        None => MailAddress { display_name: None, email: String::new() },
    }
}

/// The date of a message: the server's date of arrival where it is known,
/// else the envelope's date where it is not empty.
pub open spec fn date_of(internal_date: Option<String>, envelope_date: Option<Vec<u8>>) -> Option<
    Seq<char>,
> {
    match internal_date {
        Some(d) => Some(d@),
        None => {
            let text = decoded(opt_bytes(envelope_date));
            if envelope_date is Some && text.len() > 0 {
                Some(text)
            } else {
                None
            }
        },
    }
}

/// The summary of a fetched item; none for an item without envelope or UID.
pub open spec fn summary_of(item: FetchedItem) -> Option<EmailSummaryView> {
    if item.envelope is Some && item.uid is Some {
        let envelope = item.envelope->0;
        Some(
            EmailSummaryView {
                uid: decimal(item.uid->0 as nat),
                subject: decoded(opt_bytes(envelope.subject)),
                sender: address_of(envelope.from),
                date: date_of(item.internal_date, envelope.date),
            },
        )
    } else {
        None
    }
}

/// The view of an optional summary.
pub open spec fn opt_summary(o: Option<EmailSummary>) -> Option<EmailSummaryView> {
    match o {
        Some(s) => Some(s@),
        None => None,
    }
}

pub fn summarize_fetch(fetch: &FetchedItem) -> (r: Option<EmailSummary>)
    ensures
        opt_summary(r) == summary_of(*fetch),
{
    match (&fetch.envelope, fetch.uid) {
        (Some(envelope), Some(uid)) => {
            let subject = decode_field(&envelope.subject);
            let sender = primary_address(&envelope.from);
            let date = match &fetch.internal_date {
                Some(d) => Some(d.clone()),
                None => {
                    match &envelope.date {
                        Some(_) => {
                            let text = decode_field(&envelope.date);
                            if text.as_str().unicode_len() > 0 {
                                Some(text)
                            } else {
                                None
                            }
                        },
                        None => None,
                    }
                },
            };
            Some(EmailSummary { uid: decimal_string(uid as u64), subject, sender, date })
        },
        _ => None,
    }
}

/// The snippet of a body: its first 80 words with one space between them,
/// cut down to 280 characters with an ellipsis where they were more; none
/// for a body without a word.
pub open spec fn snippet_of(body: Seq<u8>) -> Option<Seq<char>> {
    let all = words(lossy_text(body));
    let kept = if SNIPPET_MAX_WORDS < all.len() {
        all.take(SNIPPET_MAX_WORDS as int)
    } else {
        all
    };
    let text = clipped(join(kept, " "@), SNIPPET_MAX_CHARS as nat);
    if text.len() == 0 {
        None
    } else {
        Some(text)
    }
}

/// The snippet of raw body bytes.
pub fn body_snippet(body: &[u8]) -> (r: Option<String>)
    ensures
        opt_text(r) == snippet_of(body@),
{
    let raw = utf8_lossy(body);
    let all = split_words(&chars_of(raw.as_str()));
    let kept = first_strings(&all, SNIPPET_MAX_WORDS);
    let joined = join_strings(&kept, " ");
    let text = clip_chars(&chars_of(joined.as_str()), SNIPPET_MAX_CHARS);
    if text.as_str().unicode_len() == 0 {
        None
    } else {
        Some(text)
    }
}

pub fn extract_body_snippet(fetch: &FetchedItem) -> (r: Option<String>)
    ensures
        opt_text(r) == match fetch.body {
            Some(body) => snippet_of(body@),
            None => None,
        },
{
    match &fetch.body {
        Some(body) => body_snippet(body.as_slice()),
        None => None,
    }
}

impl MessageFlag {
    /// The name a flag is stored under: the standard flags in lower case, a
    /// custom flag as it is.
    pub open spec fn name(self) -> Seq<char> {
        match self {
            MessageFlag::Seen => "seen"@,
            MessageFlag::Answered => "answered"@,
            MessageFlag::Flagged => "flagged"@,
            MessageFlag::Deleted => "deleted"@,
            MessageFlag::Draft => "draft"@,
            MessageFlag::Recent => "recent"@,
            MessageFlag::MayCreate => "may-create"@,
            MessageFlag::Custom(value) => value@,
        }
    }

    pub fn to_name(&self) -> (r: String)
        ensures
            r@ == self.name(),
    {
        match self {
            MessageFlag::Seen => "seen".to_owned(),
            MessageFlag::Answered => "answered".to_owned(),
            MessageFlag::Flagged => "flagged".to_owned(),
            MessageFlag::Deleted => "deleted".to_owned(),
            MessageFlag::Draft => "draft".to_owned(),
            MessageFlag::Recent => "recent".to_owned(),
            MessageFlag::MayCreate => "may-create".to_owned(),
            MessageFlag::Custom(value) => value.clone(),
        }
    }
}

/// The names of a list of flags.
pub open spec fn flag_names(flags: Seq<MessageFlag>) -> Seq<Seq<char>> {
    flags.map_values(|f: MessageFlag| f.name())
}

pub fn extract_flags(fetch: &FetchedItem) -> (r: Vec<String>)
    ensures
        texts(r@) == flag_names(fetch.flags@),
{
    let mut out: Vec<String> = Vec::new();
    let mut i: usize = 0;
    while i < fetch.flags.len()
        invariant
            i <= fetch.flags.len(),
            texts(out@) == flag_names(fetch.flags@).take(i as int),
        decreases fetch.flags.len() - i,
    {
        let ghost before = texts(out@);
        out.push(fetch.flags[i].to_name());
        assert(texts(out@) =~= before.push(fetch.flags@[i as int].name()));
        assert(flag_names(fetch.flags@).take(i + 1) =~= before.push(fetch.flags@[i as int].name()));
        i += 1;
    }
    assert(flag_names(fetch.flags@).take(fetch.flags.len() as int) =~= flag_names(fetch.flags@));
    out
}

/// The envelope of a synced message, or none for an item without summary.
pub open spec fn envelope_of(item: FetchedItem) -> Option<MessageEnvelopeView> {
    match summary_of(item) {
        Some(summary) => Some(
            MessageEnvelopeView {
                summary,
                snippet: match item.body {
                    Some(body) => snippet_of(body@),
                    None => None,
                },
                body: opt_bytes(item.body),
                flags: flag_names(item.flags@),
            },
        ),
        None => None,
    }
}

/// The envelopes of the items that have a summary, in their order.
pub open spec fn envelopes_of(items: Seq<FetchedItem>) -> Seq<MessageEnvelopeView>
    decreases items.len(),
{
    if items.len() == 0 {
        Seq::empty()
    } else {
        let rest = envelopes_of(items.drop_last());
        match envelope_of(items.last()) {
            Some(e) => rest.push(e),
            None => rest,
        }
    }
}

/// Turns the items of one FETCH response into envelopes. An item without
/// envelope or UID is passed over.
pub fn build_envelopes(items: &Vec<FetchedItem>) -> (r: Vec<MessageEnvelope>)
    ensures
        envelope_views(r@) == envelopes_of(items@),
{
    let mut out: Vec<MessageEnvelope> = Vec::new();
    let mut i: usize = 0;
    while i < items.len()
        invariant
            i <= items.len(),
            envelope_views(out@) == envelopes_of(items@.take(i as int)),
        decreases items.len() - i,
    {
        assert(items@.take(i + 1).drop_last() =~= items@.take(i as int));
        match summarize_fetch(&items[i]) {
            Some(summary) => {
                let snippet = extract_body_snippet(&items[i]);
                let body = match &items[i].body {
                    Some(b) => Some(b.clone()),
                    None => None,
                };
                let flags = extract_flags(&items[i]);
                let envelope = MessageEnvelope { summary, snippet, body, flags };
                let ghost before = envelope_views(out@);
                out.push(envelope);
                assert(envelope_views(out@) =~= before.push(envelope@));
            },
            None => {},
        }
        i += 1;
    }
    assert(items@.take(items.len() as int) =~= items@);
    out
}

/// The summaries of the items that have one, in their order.
pub open spec fn summaries_of(items: Seq<FetchedItem>) -> Seq<EmailSummaryView>
    decreases items.len(),
{
    if items.len() == 0 {
        Seq::empty()
    } else {
        let rest = summaries_of(items.drop_last());
        match summary_of(items.last()) {
            Some(s) => rest.push(s),
            None => rest,
        }
    }
}

pub open spec fn summary_views(v: Seq<EmailSummary>) -> Seq<EmailSummaryView> {
    v.map_values(|s: EmailSummary| s@)
}

/// Turns the items of one FETCH response into summaries.
pub fn build_summaries(items: &Vec<FetchedItem>) -> (r: Vec<EmailSummary>)
    ensures
        summary_views(r@) == summaries_of(items@),
{
    let mut out: Vec<EmailSummary> = Vec::new();
    let mut i: usize = 0;
    while i < items.len()
        invariant
            i <= items.len(),
            summary_views(out@) == summaries_of(items@.take(i as int)),
        decreases items.len() - i,
    {
        assert(items@.take(i + 1).drop_last() =~= items@.take(i as int));
        match summarize_fetch(&items[i]) {
            Some(summary) => {
                let ghost before = summary_views(out@);
                out.push(summary);
                assert(summary_views(out@) =~= before.push(summary@));
            },
            None => {},
        }
        i += 1;
    }
    assert(items@.take(items.len() as int) =~= items@);
    out
}

/// `a` is no later than `b`: no date before any date, dates in the order
/// of their texts.
pub open spec fn date_le(a: Option<Seq<char>>, b: Option<Seq<char>>) -> bool {
    match (a, b) {
        (None, _) => true,
        (Some(_), None) => false,
        (Some(x), Some(y)) => lex_le(x, y),
    }
}

/// The summaries stand newest first.
pub open spec fn newest_first(list: Seq<EmailSummaryView>) -> bool {
    forall|i: int, j: int| 0 <= i <= j < list.len() ==> date_le(list[j].date, list[i].date)
}

fn date_no_later(a: &Option<String>, b: &Option<String>) -> (r: bool)
    ensures
        r == date_le(opt_text(*a), opt_text(*b)),
{
    match (a, b) {
        (None, _) => true,
        (Some(_), None) => false,
        (Some(x), Some(y)) => text_le(&chars_of(x.as_str()), &chars_of(y.as_str())),
    }
}

fn copy_summary(s: &EmailSummary) -> (r: EmailSummary)
    ensures
        r@ == s@,
{
    EmailSummary {
        uid: s.uid.clone(),
        subject: s.subject.clone(),
        sender: MailAddress {
            display_name: crate::models::clone_opt_string(&s.sender.display_name),
            email: s.sender.email.clone(),
        },
        date: crate::models::clone_opt_string(&s.date),
    }
}

proof fn lemma_date_total(a: Option<Seq<char>>, b: Option<Seq<char>>)
    ensures
        date_le(a, b) || date_le(b, a),
{
    if a is Some && b is Some {
        lemma_lex_total(a->0, b->0);
    }
}

proof fn lemma_date_transitive(a: Option<Seq<char>>, b: Option<Seq<char>>, c: Option<Seq<char>>)
    requires
        date_le(a, b),
        date_le(b, c),
    ensures
        date_le(a, c),
{
    if a is Some && b is Some && c is Some {
        lemma_lex_transitive(a->0, b->0, c->0);
    }
}

/// The summaries newest first; a summary without a date comes last.
pub fn sort_newest_first(summaries: &Vec<EmailSummary>) -> (r: Vec<EmailSummary>)
    ensures
        newest_first(summary_views(r@)),
        summary_views(r@).to_multiset() == summary_views(summaries@).to_multiset(),
{
    let mut out: Vec<EmailSummary> = Vec::new();
    let mut i: usize = 0;
    assert(summary_views(summaries@).take(0) =~= summary_views(out@));
    while i < summaries.len()
        invariant
            i <= summaries.len(),
            newest_first(summary_views(out@)),
            summary_views(out@).to_multiset() == summary_views(summaries@).take(
                i as int,
            ).to_multiset(),
        decreases summaries.len() - i,
    {
        let x = copy_summary(&summaries[i]);
        let mut pos: usize = out.len();
        while pos > 0 && !date_no_later(&x.date, &out[pos - 1].date)
            invariant
                pos <= out.len(),
                forall|k: int|
                    pos <= k < out.len() ==> !date_le(x@.date, (#[trigger] out@[k])@.date),
            decreases pos,
        {
            pos -= 1;
        }
        proof {
            let before = summary_views(out@);
            let all = summary_views(summaries@);
            to_multiset_insert(before, pos as int, x@);
            to_multiset_build(all.take(i as int), x@);
            assert(all.take(i + 1) =~= all.take(i as int).push(x@));
            let after = before.insert(pos as int, x@);
            assert forall|a: int, b: int| 0 <= a <= b < after.len() implies date_le(
                after[b].date,
                after[a].date,
            ) by {
                if a == b {
                    lemma_date_total(after[a].date, after[a].date);
                } else if b < pos {
                } else if a > pos {
                    assert(after[a] == before[a - 1]);
                    assert(after[b] == before[b - 1]);
                } else if a == pos {
                    assert(after[b] == before[b - 1]);
                    assert(before[b - 1] == out@[b - 1]@);
                    lemma_date_total(x@.date, before[b - 1].date);
                } else if b == pos {
                    assert(before[pos - 1] == out@[pos - 1]@);
                    assert(date_le(before[a].date, before[a].date)) by {
                        lemma_date_total(before[a].date, before[a].date);
                    }
                    if a < pos - 1 {
                        lemma_date_transitive(x@.date, before[pos - 1].date, before[a].date);
                    }
                } else {
                    assert(after[b] == before[b - 1]);
                }
            }
        }
        let ghost before_views = summary_views(out@);
        out.insert(pos, x);
        assert(summary_views(out@) =~= before_views.insert(pos as int, x@));
        i += 1;
    }
    assert(summary_views(summaries@).take(summaries.len() as int) =~= summary_views(summaries@));
    out
}

/// The senders of a list that are not empty, in their order.
pub open spec fn non_empty(list: Seq<Seq<char>>) -> Seq<Seq<char>>
    decreases list.len(),
{
    if list.len() == 0 {
        Seq::empty()
    } else if list.last().len() == 0 {
        non_empty(list.drop_last())
    } else {
        non_empty(list.drop_last()).push(list.last())
    }
}

/// The senders whose messages a block filter looks for: an empty address
/// is passed over.
pub fn senders_to_move(senders: &Vec<String>) -> (r: Vec<String>)
    ensures
        texts(r@) == non_empty(texts(senders@)),
{
    let mut out: Vec<String> = Vec::new();
    let mut i: usize = 0;
    while i < senders.len()
        invariant
            i <= senders.len(),
            texts(out@) == non_empty(texts(senders@).take(i as int)),
        decreases senders.len() - i,
    {
        proof {
            let all = texts(senders@);
            assert(all.take(i + 1).drop_last() =~= all.take(i as int));
            assert(all.take(i + 1).last() == senders@[i as int]@);
        }
        if senders[i].as_str().unicode_len() > 0 {
            let ghost before = texts(out@);
            out.push(senders[i].clone());
            assert(texts(out@) =~= before.push(senders@[i as int]@));
        }
        i += 1;
    }
    assert(texts(senders@).take(senders.len() as int) =~= texts(senders@));
    out
}

/// The UIDs that the items of a FETCH response carry, in their order.
pub open spec fn fetched_uids_of(items: Seq<FetchedItem>) -> Seq<u32>
    decreases items.len(),
{
    if items.len() == 0 {
        Seq::empty()
    } else {
        let rest = fetched_uids_of(items.drop_last());
        match items.last().uid {
            Some(u) => rest.push(u),
            None => rest,
        }
    }
}

pub fn fetched_uids(items: &Vec<FetchedItem>) -> (r: Vec<u32>)
    ensures
        r@ == fetched_uids_of(items@),
{
    let mut out: Vec<u32> = Vec::new();
    let mut i: usize = 0;
    while i < items.len()
        invariant
            i <= items.len(),
            out@ == fetched_uids_of(items@.take(i as int)),
        decreases items.len() - i,
    {
        assert(items@.take(i + 1).drop_last() =~= items@.take(i as int));
        match items[i].uid {
            Some(u) => {
                out.push(u);
            },
            None => {},
        }
        i += 1;
    }
    assert(items@.take(items.len() as int) =~= items@);
    out
}

} // verus!
