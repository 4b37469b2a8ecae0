//! Per-rule polling with watermark-based deduplication.
//!
//! Each rule owns a `WatchCursor` holding the timestamp of the most recently
//! observed matching document.  A poll cycle walks the page of documents the
//! backend returned, newest first, emits every document strictly newer than
//! the watermark, stops at the first one that is not, and then raises the
//! watermark to the timestamp of the newest document of the page, where
//! that is newer.  The watermark never moves backwards.

use vstd::prelude::*;

verus! {

/// The instant encoded by an RFC 3339 timestamp string, in microseconds since
/// the Unix epoch, or `None` where the string is not a valid RFC 3339
/// date-and-time.
pub uninterp spec fn rfc3339_instant(s: Seq<char>) -> Option<i64>;

/// Relies on `chrono::DateTime::parse_from_rfc3339` (and `timestamp_micros`
/// to read the parsed instant): the result depends on the string alone.
#[verifier::external_body]
fn parse_rfc3339(s: &str) -> (r: Option<i64>)
    ensures
        r == rfc3339_instant(s@),
{
    chrono::DateTime::parse_from_rfc3339(s).ok().map(|d| d.timestamp_micros())
}

/// One hit of a search result page, as the backend interface hands it over:
/// the text of its timestamp field and the whole document as JSON text.
pub struct RawEntry {
    pub timestamp_text: String,
    pub payload: String,
}

/// A document that passed the watermark test, paired with its instant.
#[derive(Debug)]
pub struct Document {
    pub timestamp: i64,
    pub payload: String,
}

/// Per-rule deduplication state: the watermark.
pub struct WatchCursor {
    pub last_checked_time: i64,
}

/// A fatal error of the watch loop.
#[derive(Debug)]
pub enum WatchError {
    /// A document that had to be examined carried a timestamp field that is
    /// not a valid RFC 3339 date-and-time; the offending text is kept.
    InvalidTimestamp(String),
}

/// Whether the entry's timestamp field parses as RFC 3339.
pub open spec fn entry_parses(e: RawEntry) -> bool {
    rfc3339_instant(e.timestamp_text@) is Some
}

/// The instant of the entry's timestamp field (meaningful only where
/// `entry_parses` holds).
pub open spec fn entry_instant(e: RawEntry) -> i64 {
    rfc3339_instant(e.timestamp_text@)->0
}

/// The watermark after a poll cycle over `page`: the instant of the first
/// (newest) entry of the page where that is newer than the watermark, else
/// the watermark unchanged.  The watermark never moves backwards, even on a
/// page whose newest entry is older than it.
pub open spec fn new_watermark(page: Seq<RawEntry>, watermark: i64) -> i64 {
    if page.len() == 0 {
        watermark
    } else if entry_instant(page[0]) > watermark {
        entry_instant(page[0])
    } else {
        watermark
    }
}

/// `docs` is exactly the prefix of `page` that a poll cycle with the given
/// watermark emits: every entry before the cut is strictly newer than the
/// watermark and kept in order, and the entry at the cut, if any, is not.
pub open spec fn is_emitted_prefix(page: Seq<RawEntry>, watermark: i64, docs: Seq<Document>) -> bool {
    &&& docs.len() <= page.len()
    &&& (forall|i: int|
        0 <= i < docs.len() ==> entry_parses(#[trigger] page[i]) && entry_instant(page[i])
            > watermark)
    &&& (forall|i: int|
        0 <= i < docs.len() ==> (#[trigger] docs[i]).timestamp == entry_instant(page[i])
            && docs[i].payload@ == page[i].payload@)
    &&& (docs.len() < page.len() ==> entry_parses(page[docs.len() as int]) && entry_instant(
        page[docs.len() as int],
    ) <= watermark)
}

/// The entry at `k` is the first one the walk examines that carries an
/// unparseable timestamp: everything before it parses and is strictly newer
/// than the watermark, so the walk reaches `k` and fails there.
pub open spec fn rejected_at(page: Seq<RawEntry>, watermark: i64, k: int) -> bool {
    &&& 0 <= k < page.len()
    &&& !entry_parses(page[k])
    &&& (forall|i: int|
        0 <= i < k ==> entry_parses(#[trigger] page[i]) && entry_instant(page[i]) > watermark)
}

/// A poll cycle over `page` fails: some entry that is walked before any entry
/// at or below the watermark stops the walk carries an unparseable timestamp.
pub open spec fn page_rejected(page: Seq<RawEntry>, watermark: i64) -> bool {
    exists|k: int| rejected_at(page, watermark, k)
}

/// One poll cycle for one rule, over the page of documents the backend
/// returned (newest first, as requested).  Emits the longest prefix of
/// entries strictly newer than the watermark and reports the watermark to
/// carry into the next cycle, which is never below the old one.  Fails only
/// where an entry that had to be examined has an unparseable timestamp, and
/// then reports the first such entry's text.
pub fn poll_page(entries: &Vec<RawEntry>, watermark: i64) -> (r: Result<
    (Vec<Document>, i64),
    WatchError,
>)
    ensures
        r is Ok <==> !page_rejected(entries@, watermark),
        r is Ok ==> is_emitted_prefix(entries@, watermark, r->Ok_0.0@) && r->Ok_0.1
            == new_watermark(entries@, watermark),
        r is Err ==> exists|k: int|
            rejected_at(entries@, watermark, k) && r->Err_0->InvalidTimestamp_0@
                == entries@[k].timestamp_text@,
{
    let ghost pg = entries@;
    let mut docs: Vec<Document> = Vec::new();
    let mut idx: usize = 0;
    let mut cut = false;
    while idx < entries.len() && !cut
        invariant
            pg == entries@,
            idx <= pg.len(),
            docs@.len() == idx,
            forall|i: int|
                0 <= i < idx ==> entry_parses(#[trigger] pg[i]) && entry_instant(pg[i])
                    > watermark,
            forall|i: int|
                0 <= i < idx ==> (#[trigger] docs@[i]).timestamp == entry_instant(pg[i])
                    && docs@[i].payload@ == pg[i].payload@,
            cut ==> idx < pg.len() && entry_parses(pg[idx as int]) && entry_instant(pg[idx as int])
                <= watermark,
        decreases pg.len() - idx, (if cut { 0int } else { 1int }),
    {
        let e = &entries[idx];
        match parse_rfc3339(e.timestamp_text.as_str()) {
            None => {
                proof {
                    assert(rejected_at(pg, watermark, idx as int));
                }
                return Err(WatchError::InvalidTimestamp(e.timestamp_text.clone()));
            },
            Some(t) => {
                if t <= watermark {
                    cut = true;
                } else {
                    docs.push(Document { timestamp: t, payload: e.payload.clone() });
                    idx = idx + 1;
                }
            },
        }
    }
    let next: i64;
    if entries.len() == 0 {
        next = watermark;
    } else {
        match parse_rfc3339(entries[0].timestamp_text.as_str()) {
            Some(t) => {
                next = if t > watermark {
                    t
                } else {
                    watermark
                };
            },
            None => {
                // The first entry was examined by the walk above, so its
                // timestamp is known to parse.
                return unreached();
            },
        }
    }
    Ok((docs, next))
}

/// Hits requested per poll query: one page, newest first.
pub const PAGE_SIZE: u64 = 100;

/// The paging and ordering of every poll query sent to the backend: the
/// first page only, at most `PAGE_SIZE` hits, sorted by the document
/// timestamp field, newest first.
pub struct SearchRequest {
    pub from: u64,
    pub size: u64,
    pub sort_descending_by_timestamp: bool,
}

/// The one request shape the watcher ever sends: offset 0, capped at
/// `PAGE_SIZE`, sorted by timestamp descending.
pub fn search_request() -> (r: SearchRequest)
    ensures
        r.from == 0,
        r.size == PAGE_SIZE,
        r.sort_descending_by_timestamp,
{
    SearchRequest { from: 0, size: PAGE_SIZE, sort_descending_by_timestamp: true }
}

/// The watcher's own state: the index names it queries, the pause between
/// poll cycles, and one cursor per rule.  The backend connection and the
/// timer live with the caller, which feeds each returned page to
/// `poll_rule`.
pub struct Watcher {
    pub indexes: Vec<String>,
    pub interval_secs: u64,
    pub cursors: Vec<WatchCursor>,
}

impl Watcher {
    /// One cursor per rule, each starting at `start_time` (the process start
    /// instant): documents from before the watch began are never replayed.
    pub fn new(indexes: Vec<String>, interval_secs: u64, n_rules: usize, start_time: i64) -> (w:
        Watcher)
        ensures
            w.indexes == indexes,
            w.interval_secs == interval_secs,
            w.cursors@.len() == n_rules,
            forall|i: int|
                0 <= i < n_rules ==> (#[trigger] w.cursors@[i]).last_checked_time == start_time,
    {
        let mut cursors: Vec<WatchCursor> = Vec::new();
        let mut i: usize = 0;
        while i < n_rules
            invariant
                i <= n_rules,
                cursors@.len() == i,
                forall|j: int|
                    0 <= j < i ==> (#[trigger] cursors@[j]).last_checked_time == start_time,
            decreases n_rules - i,
        {
            cursors.push(WatchCursor { last_checked_time: start_time });
            i = i + 1;
        }
        Watcher { indexes, interval_secs, cursors }
    }

    /// One poll cycle for the rule at `rule_index`: emits the documents of
    /// `entries` that are strictly newer than the rule's watermark and
    /// advances that watermark; every other cursor is untouched.  An
    /// unparseable timestamp on an examined entry is fatal and leaves every
    /// cursor unchanged.
    pub fn poll_rule(&mut self, rule_index: usize, entries: &Vec<RawEntry>) -> (r: Result<
        Vec<Document>,
        WatchError,
    >)
        requires
            rule_index < old(self).cursors@.len(),
        ensures
            final(self).indexes == old(self).indexes,
            final(self).interval_secs == old(self).interval_secs,
            final(self).cursors@.len() == old(self).cursors@.len(),
            forall|i: int|
                0 <= i < old(self).cursors@.len() && i != rule_index ==> final(self).cursors@[i]
                    == old(self).cursors@[i],
            r is Ok <==> !page_rejected(
                entries@,
                old(self).cursors@[rule_index as int].last_checked_time,
            ),
            r is Ok ==> is_emitted_prefix(
                entries@,
                old(self).cursors@[rule_index as int].last_checked_time,
                r->Ok_0@,
            ) && final(self).cursors@[rule_index as int].last_checked_time == new_watermark(
                entries@,
                old(self).cursors@[rule_index as int].last_checked_time,
            ),
            r is Err ==> final(self).cursors@ == old(self).cursors@,
    {
        let watermark = self.cursors[rule_index].last_checked_time;
        match poll_page(entries, watermark) {
            Ok((docs, next)) => {
                self.cursors[rule_index] = WatchCursor { last_checked_time: next };
                Ok(docs)
            },
            Err(e) => Err(e),
        }
    }
}

/// Monotonicity: no poll cycle, whatever page the backend returned, ever
/// moves the watermark backwards.
pub proof fn lemma_watermark_monotone(page: Seq<RawEntry>, watermark: i64)
    ensures
        new_watermark(page, watermark) >= watermark,
{
}

/// The watermark after a sequence of poll cycles, each over its page.
pub open spec fn watermark_after(pages: Seq<Seq<RawEntry>>, watermark: i64) -> i64
    decreases pages.len(),
{
    if pages.len() == 0 {
        watermark
    } else {
        watermark_after(pages.drop_first(), new_watermark(pages[0], watermark))
    }
}

/// Monotonicity across cycles: over any sequence of poll cycles, whatever
/// pages the backend returned, the watermark is non-decreasing.
pub proof fn lemma_watermark_monotone_cycles(pages: Seq<Seq<RawEntry>>, watermark: i64)
    ensures
        watermark_after(pages, watermark) >= watermark,
    decreases pages.len(),
{
    if pages.len() > 0 {
        lemma_watermark_monotone(pages[0], watermark);
        lemma_watermark_monotone_cycles(pages.drop_first(), new_watermark(pages[0], watermark));
    }
}

/// The process-start guarantee: in a run whose cursors start at `start`,
/// whatever any cycle emits is strictly newer than `start` — documents from
/// before the watch began are never replayed, in any cycle of the run.
pub proof fn lemma_no_replay_from_start(
    pages: Seq<Seq<RawEntry>>,
    start: i64,
    i: int,
    docs: Seq<Document>,
)
    requires
        0 <= i < pages.len(),
        is_emitted_prefix(pages[i], watermark_after(pages.take(i), start), docs),
    ensures
        forall|j: int| 0 <= j < docs.len() ==> (#[trigger] docs[j]).timestamp > start,
{
    lemma_watermark_monotone_cycles(pages.take(i), start);
    lemma_no_replay(pages[i], watermark_after(pages.take(i), start), docs);
}

/// No-replay: no document whose timestamp is at or below the watermark
/// observed at poll start is ever emitted during that cycle.
pub proof fn lemma_no_replay(page: Seq<RawEntry>, watermark: i64, docs: Seq<Document>)
    requires
        is_emitted_prefix(page, watermark, docs),
    ensures
        forall|i: int| 0 <= i < docs.len() ==> (#[trigger] docs[i]).timestamp > watermark,
{
}

/// Cap behavior: where every entry of the page is strictly newer than the
/// watermark (as when more than a page's worth of new documents arrived and
/// the backend truncated to the newest `PAGE_SIZE`), the whole page is
/// emitted, in order, and the watermark moves to its newest entry; anything
/// older than the page is silently left behind.
pub proof fn lemma_full_page_emitted(page: Seq<RawEntry>, watermark: i64, docs: Seq<Document>)
    requires
        is_emitted_prefix(page, watermark, docs),
        forall|i: int|
            0 <= i < page.len() ==> entry_parses(#[trigger] page[i]) && entry_instant(page[i])
                > watermark,
    ensures
        docs.len() == page.len(),
        page.len() > 0 ==> new_watermark(page, watermark) == entry_instant(page[0]),
{
    if docs.len() < page.len() {
        assert(entry_instant(page[docs.len() as int]) <= watermark);
        assert(entry_instant(page[docs.len() as int]) > watermark);
    }
}

/// Idempotent re-poll: a cycle whose page holds nothing newer than the
/// watermark — as when the backend returns the same page again — emits
/// nothing and leaves the watermark unchanged; so does every further such
/// cycle.
pub proof fn lemma_repoll_idempotent(page: Seq<RawEntry>, watermark: i64, docs: Seq<Document>)
    requires
        is_emitted_prefix(page, watermark, docs),
        page.len() > 0 ==> entry_instant(page[0]) <= watermark,
    ensures
        docs.len() == 0,
        new_watermark(page, watermark) == watermark,
{
    if docs.len() > 0 {
        assert(entry_instant(page[0]) > watermark);
    }
}

} // verus!
