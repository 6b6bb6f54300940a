//! Resolving a track to its Apple Music catalog entry: artwork and links.
//!
//! The lookup runs off the event loop, which posts a request, carries on
//! without artwork, and picks the answer up on a later pass. What is decided
//! here: which requests are still worth making, what is remembered, and what
//! an answer means.
use crate::portable::activity_builder::opt_view;
use crate::portable::itunes::{
    best_candidate_index, candidate_of, catalog_from, pick_best, search_url, search_url_of,
    upscaled_artwork, wanted_of, SearchResult,
};
use crate::portable::models::{catalog_opt_view, catalog_view, CatalogInfo, CatalogView};
use crate::portable::source_selector::MusicSourceId;
use crate::strings::{chars_of, str_eq, string_from, to_owned_string};
use vstd::prelude::*;

verus! {

/// The API is rate limited at roughly 20 requests a minute, so requests are
/// spaced out rather than sent as fast as tracks change.
pub const MIN_REQUEST_INTERVAL_MS: u64 = 3000;

/// Misses are cached too: a locally imported track is in no catalog, and
/// without a negative entry it would be looked up again on every replay.
pub const CACHE_CAPACITY: usize = 300;

/// Storefront used when the machine's region cannot be read.
pub const FALLBACK_COUNTRY: &'static str = "US";

#[derive(Debug, Clone)]
pub struct Request {
    pub source: MusicSourceId,
    /// `TrackInfo::identity`, so a late answer can be matched against
    /// whatever is playing by the time it lands.
    pub key: String,
    pub name: String,
    pub artist: String,
    pub album: String,
}

/// What the lookup came back with. A miss is the final answer for that track;
/// a failure is worth trying again.
#[derive(Debug, Clone, PartialEq)]
pub enum Outcome {
    Found(CatalogInfo),
    /// The catalog was searched and does not have this track.
    Missing,
    /// The lookup never completed: offline, timed out, or the API refused.
    Failed,
}

impl Outcome {
    /// A cached or fresh answer: an entry is found, no entry is missing.
    pub fn from_cached(catalog: Option<CatalogInfo>) -> (o: Self)
        ensures
            match catalog {
                Some(c) => o == Outcome::Found(c),
                None => o == Outcome::Missing,
            },
    {
        match catalog {
            Some(catalog) => Outcome::Found(catalog),
            None => Outcome::Missing,
        }
    }
}

#[derive(Debug, Clone)]
pub struct Resolved {
    pub source: MusicSourceId,
    pub key: String,
    pub outcome: Outcome,
}

// MARK: - The queue

/// At most one outstanding request per source: a burst of skips leaves only
/// the last one still on screen, so the rest are dropped without spending a
/// rate-limit slot.
pub struct Queue {
    pending: Vec<Request>,
}

/// Where a request for `source` waits in `q`, if one does.
pub open spec fn slot_of(q: Seq<Request>, source: MusicSourceId) -> Option<int> {
    if exists|i: int| 0 <= i < q.len() && q[i].source == source {
        Some(choose|i: int| 0 <= i < q.len() && q[i].source == source)
    } else {
        None
    }
}

/// The queue after `request` arrives: it takes the place of the request
/// already waiting for its source, or joins the back.
pub open spec fn pushed(q: Seq<Request>, request: Request) -> Seq<Request> {
    match slot_of(q, request.source) {
        Some(i) => q.update(i, request),
        None => q.push(request),
    }
}

/// No two requests in `q` are for the same source.
pub open spec fn one_per_source(q: Seq<Request>) -> bool {
    forall|i: int, j: int| 0 <= i < j < q.len() ==> #[trigger] q[i].source != #[trigger] q[j].source
}

/// After a request arrives it is the one request waiting for its source, and
/// nothing waiting for another source moved.
pub proof fn lemma_pushed_request_is_the_one_waiting(q: Seq<Request>, request: Request)
    requires
        one_per_source(q),
    ensures
        one_per_source(pushed(q, request)),
        ({
            let p = pushed(q, request);
            exists|i: int| 0 <= i < p.len() && p[i] == request && forall|j: int|
                0 <= j < p.len() && p[j].source == request.source ==> j == i
        }),
        forall|j: int| 0 <= j < q.len() && q[j].source != request.source ==> pushed(q, request)[j] == q[j],
{
    let p = pushed(q, request);
    match slot_of(q, request.source) {
        Some(i) => {
            assert(p[i] == request);
            assert forall|a: int, b: int| 0 <= a < b < p.len() implies #[trigger] p[a].source != #[trigger] p[b].source by {
                if a == i {
                    assert(q[b].source != q[i].source || b == i);
                } else if b == i {
                    assert(q[a].source != q[i].source || a == i);
                }
            }
        },
        None => {
            let last = q.len() as int;
            assert(p[last] == request);
        },
    }
}

impl Queue {
    pub closed spec fn spec_pending(&self) -> Seq<Request> {
        self.pending@
    }

    /// No two waiting requests are for the same source.
    pub open spec fn wf(&self) -> bool {
        one_per_source(self.spec_pending())
    }

    pub fn new() -> (q: Self)
        ensures
            q.wf(),
            q.spec_pending() == Seq::<Request>::empty(),
    {
        Queue { pending: Vec::new() }
    }

    pub fn is_empty(&self) -> (b: bool)
        ensures
            b == (self.spec_pending().len() == 0),
    {
        self.pending.len() == 0
    }

    /// Queues `request`, replacing the one already waiting for its source.
    pub fn push(&mut self, request: Request)
        requires
            old(self).wf(),
        ensures
            final(self).wf(),
            final(self).spec_pending() == pushed(old(self).spec_pending(), request),
    {
        let mut i: usize = 0;
        while i < self.pending.len()
            invariant
                i <= self.pending@.len(),
                self.pending@ == old(self).pending@,
                old(self).wf(),
                forall|j: int| 0 <= j < i ==> self.pending@[j].source != request.source,
            decreases self.pending@.len() - i,
        {
            if self.pending[i].source == request.source {
                proof {
                    assert(forall|k: int| 0 <= k < self.pending@.len() && self.pending@[k].source == request.source ==> k == i);
                }
                self.pending.set(i, request);
                return;
            }
            i = i + 1;
        }
        self.pending.push(request);
    }

    /// The oldest waiting request.
    pub fn pop(&mut self) -> (r: Option<Request>)
        requires
            old(self).wf(),
        ensures
            final(self).wf(),
            old(self).spec_pending().len() == 0 ==> r is None && final(self).spec_pending() == old(self).spec_pending(),
            old(self).spec_pending().len() > 0 ==> r == Some(old(self).spec_pending()[0]) && final(self).spec_pending()
                == old(self).spec_pending().drop_first(),
    {
        if self.pending.len() == 0 {
            None
        } else {
            let first = self.pending.remove(0);
            proof {
                assert(self.pending@ =~= old(self).pending@.drop_first());
            }
            Some(first)
        }
    }

    /// Whether a newer request for this source arrived while one was in hand,
    /// which makes the one in hand not worth a lookup.
    pub fn has_newer_for(&self, source: MusicSourceId) -> (b: bool)
        ensures
            b == slot_of(self.spec_pending(), source) is Some,
    {
        let mut i: usize = 0;
        while i < self.pending.len()
            invariant
                i <= self.pending@.len(),
                forall|j: int| 0 <= j < i ==> self.pending@[j].source != source,
            decreases self.pending@.len() - i,
        {
            if self.pending[i].source == source {
                return true;
            }
            i = i + 1;
        }
        false
    }
}

// MARK: - The cache

/// Answers remembered per track key, least recently used first: a read or a
/// store moves its entry to the back, and past the capacity the front goes.
pub struct Cache {
    entries: Vec<(String, Option<CatalogInfo>)>,
}

/// The entries, least recently used first.
pub type CacheView = Seq<(Seq<char>, Option<CatalogView>)>;

/// Where `key` sits in the cache, if it does.
pub open spec fn index_of_key(v: CacheView, key: Seq<char>) -> Option<int> {
    if exists|i: int| 0 <= i < v.len() && v[i].0 == key {
        Some(choose|i: int| 0 <= i < v.len() && v[i].0 == key)
    } else {
        None
    }
}

/// What the cache answers for `key`: the remembered answer, or `None` for a
/// track never looked up.
pub open spec fn lookup(v: CacheView, key: Seq<char>) -> Option<Option<CatalogView>> {
    match index_of_key(v, key) {
        Some(i) => Some(v[i].1),
        None => None,
    }
}

/// No key is remembered twice.
pub open spec fn distinct_keys(v: CacheView) -> bool {
    forall|i: int, j: int| 0 <= i < j < v.len() ==> #[trigger] v[i].0 != #[trigger] v[j].0
}

/// The cache after `key` is read: a hit becomes the most recently used
/// entry; a miss changes nothing.
pub open spec fn touched(v: CacheView, key: Seq<char>) -> CacheView {
    match index_of_key(v, key) {
        Some(i) => v.remove(i).push(v[i]),
        None => v,
    }
}

/// The cache after remembering `answer` for `key`: the entry, new or not,
/// becomes the most recently used one, and past the capacity the least
/// recently used entries are forgotten.
pub open spec fn stored(v: CacheView, key: Seq<char>, answer: Option<CatalogView>) -> CacheView {
    let updated = match index_of_key(v, key) {
        Some(i) => v.remove(i).push((key, answer)),
        None => v.push((key, answer)),
    };
    if updated.len() > CACHE_CAPACITY {
        updated.skip(updated.len() - CACHE_CAPACITY)
    } else {
        updated
    }
}

/// With distinct keys, the entry holding `key` is the one `index_of_key`
/// finds.
proof fn lemma_index_of_distinct(v: CacheView, key: Seq<char>, i: int)
    requires
        distinct_keys(v),
        0 <= i < v.len(),
        v[i].0 == key,
    ensures
        index_of_key(v, key) == Some(i),
{
    let k = choose|k: int| 0 <= k < v.len() && v[k].0 == key;
    if k < i {
        assert(v[k].0 != v[i].0);
    } else if k > i {
        assert(v[i].0 != v[k].0);
    }
}

/// Moving an entry to the back, with the same key, keeps the keys distinct.
proof fn lemma_to_back_distinct(v: CacheView, i: int, e: (Seq<char>, Option<CatalogView>))
    requires
        distinct_keys(v),
        0 <= i < v.len(),
        e.0 == v[i].0,
    ensures
        distinct_keys(v.remove(i).push(e)),
        v.remove(i).push(e).len() == v.len(),
{
    let w = v.remove(i).push(e);
    assert forall|a: int, b: int| 0 <= a < b < w.len() implies #[trigger] w[a].0 != #[trigger] w[b].0 by {
        let ia = if a < i { a } else { a + 1 };
        assert(w[a] == v[ia]);
        if b == w.len() - 1 {
            assert(ia != i);
            if ia < i {
                assert(v[ia].0 != v[i].0);
            } else {
                assert(v[i].0 != v[ia].0);
            }
        } else {
            let ib = if b < i { b } else { b + 1 };
            assert(w[b] == v[ib]);
            assert(ia < ib);
        }
    }
}

/// Adding a key not yet remembered keeps the keys distinct.
proof fn lemma_push_distinct(v: CacheView, e: (Seq<char>, Option<CatalogView>))
    requires
        distinct_keys(v),
        index_of_key(v, e.0) is None,
    ensures
        distinct_keys(v.push(e)),
{
    let w = v.push(e);
    assert forall|a: int, b: int| 0 <= a < b < w.len() implies #[trigger] w[a].0 != #[trigger] w[b].0 by {
        assert(w[a] == v[a]);
        if b < v.len() {
            assert(w[b] == v[b]);
        }
    }
}

/// Forgetting the front keeps the keys distinct.
proof fn lemma_skip_distinct(v: CacheView, n: int)
    requires
        distinct_keys(v),
        0 <= n <= v.len(),
    ensures
        distinct_keys(v.skip(n)),
{
    let w = v.skip(n);
    assert forall|a: int, b: int| 0 <= a < b < w.len() implies #[trigger] w[a].0 != #[trigger] w[b].0 by {
        assert(w[a] == v[a + n]);
        assert(w[b] == v[b + n]);
    }
}

/// What a store leaves keeps the keys distinct and the capacity.
proof fn lemma_stored_wf(v: CacheView, key: Seq<char>, answer: Option<CatalogView>)
    requires
        distinct_keys(v),
        v.len() <= CACHE_CAPACITY,
    ensures
        distinct_keys(stored(v, key, answer)),
        stored(v, key, answer).len() <= CACHE_CAPACITY,
{
    let updated = match index_of_key(v, key) {
        Some(i) => v.remove(i).push((key, answer)),
        None => v.push((key, answer)),
    };
    match index_of_key(v, key) {
        Some(i) => lemma_to_back_distinct(v, i, (key, answer)),
        None => lemma_push_distinct(v, (key, answer)),
    }
    if updated.len() > CACHE_CAPACITY {
        lemma_skip_distinct(updated, updated.len() - CACHE_CAPACITY);
    }
}

pub open spec fn entry_view(e: (String, Option<CatalogInfo>)) -> (Seq<char>, Option<CatalogView>) {
    (e.0@, catalog_opt_view(e.1))
}

fn copy_answer(answer: &Option<CatalogInfo>) -> (r: Option<CatalogInfo>)
    ensures
        catalog_opt_view(r) == catalog_opt_view(*answer),
{
    match answer {
        Some(c) => Some(c.duplicate()),
        None => None,
    }
}

impl Cache {
    pub closed spec fn spec_entries(&self) -> CacheView {
        self.entries@.map_values(|e: (String, Option<CatalogInfo>)| entry_view(e))
    }

    /// Keys are distinct and the capacity holds.
    pub open spec fn wf(&self) -> bool {
        &&& self.spec_entries().len() <= CACHE_CAPACITY
        &&& distinct_keys(self.spec_entries())
    }

    pub fn new() -> (c: Self)
        ensures
            c.wf(),
            c.spec_entries() == CacheView::empty(),
    {
        let c = Cache { entries: Vec::new() };
        proof {
            assert(c.spec_entries() =~= CacheView::empty());
        }
        c
    }

    fn find(&self, key: &str) -> (r: Option<usize>)
        requires
            self.wf(),
        ensures
            match r {
                Some(i) => index_of_key(self.spec_entries(), key@) == Some(i as int),
                None => index_of_key(self.spec_entries(), key@) is None,
            },
    {
        let ghost v = self.spec_entries();
        let mut i: usize = 0;
        while i < self.entries.len()
            invariant
                i <= self.entries@.len(),
                v == self.spec_entries(),
                v.len() == self.entries@.len(),
                self.wf(),
                forall|j: int| 0 <= j < i ==> v[j].0 != key@,
            decreases self.entries@.len() - i,
        {
            proof {
                assert(v[i as int] == entry_view(self.entries@[i as int]));
            }
            if str_eq(self.entries[i].0.as_str(), key) {
                proof {
                    assert(forall|k: int| 0 <= k < v.len() && v[k].0 == key@ ==> k == i);
                }
                return Some(i);
            }
            i = i + 1;
        }
        None
    }

    /// `Some(answer)` for a track looked up before, a remembered miss
    /// included; `None` for one never looked up. A hit becomes the most
    /// recently used entry.
    pub fn get(&mut self, key: &str) -> (r: Option<Option<CatalogInfo>>)
        requires
            old(self).wf(),
        ensures
            final(self).wf(),
            final(self).spec_entries() == touched(old(self).spec_entries(), key@),
            match r {
                Some(answer) => lookup(old(self).spec_entries(), key@) == Some(catalog_opt_view(answer)),
                None => lookup(old(self).spec_entries(), key@) is None,
            },
    {
        let ghost v = self.spec_entries();
        match self.find(key) {
            Some(i) => {
                proof {
                    assert(v[i as int] == entry_view(self.entries@[i as int]));
                    lemma_to_back_distinct(v, i as int, v[i as int]);
                }
                let entry = self.entries.remove(i);
                let answer = copy_answer(&entry.1);
                self.entries.push(entry);
                proof {
                    assert(self.spec_entries() =~= v.remove(i as int).push(v[i as int]));
                }
                Some(answer)
            },
            None => None,
        }
    }

    /// Remembers `answer` for `key` as the most recently used entry,
    /// forgetting the least recently used one past the capacity.
    pub fn store(&mut self, key: String, answer: Option<CatalogInfo>)
        requires
            old(self).wf(),
        ensures
            final(self).wf(),
            final(self).spec_entries() == stored(old(self).spec_entries(), key@, catalog_opt_view(answer)),
    {
        let ghost v = self.spec_entries();
        let ghost e = (key@, catalog_opt_view(answer));
        proof {
            lemma_stored_wf(v, key@, catalog_opt_view(answer));
        }
        match self.find(key.as_str()) {
            Some(i) => {
                self.entries.remove(i);
                self.entries.push((key, answer));
                proof {
                    assert(self.spec_entries() =~= v.remove(i as int).push(e));
                }
            },
            None => {
                self.entries.push((key, answer));
                proof {
                    assert(self.spec_entries() =~= v.push(e));
                }
            },
        }
        let ghost updated = self.spec_entries();
        if self.entries.len() > CACHE_CAPACITY {
            self.entries.remove(0);
            proof {
                assert(self.spec_entries() =~= updated.skip(updated.len() - CACHE_CAPACITY));
            }
        }
    }
}

/// What is remembered for a key is what was last stored for it.
pub proof fn lemma_cache_reads_back_what_was_stored(v: CacheView, key: Seq<char>, answer: Option<CatalogView>)
    requires
        v.len() <= CACHE_CAPACITY,
        distinct_keys(v),
    ensures
        lookup(stored(v, key, answer), key) == Some(answer),
        stored(v, key, answer).len() <= CACHE_CAPACITY,
{
    lemma_stored_wf(v, key, answer);
    let w = stored(v, key, answer);
    let updated = match index_of_key(v, key) {
        Some(i) => v.remove(i).push((key, answer)),
        None => v.push((key, answer)),
    };
    let last = updated.len() - 1;
    assert(updated[last] == (key, answer));
    let off = updated.len() - w.len();
    assert(w[w.len() - 1] == updated[w.len() - 1 + off]);
    lemma_index_of_distinct(w, key, w.len() - 1);
}

/// Reading an entry changes no answer: it only makes that entry the most
/// recently used one.
pub proof fn lemma_reading_keeps_every_answer(v: CacheView, key: Seq<char>, other: Seq<char>)
    requires
        distinct_keys(v),
    ensures
        lookup(touched(v, key), other) == lookup(v, other),
        distinct_keys(touched(v, key)),
        touched(v, key).len() == v.len(),
{
    match index_of_key(v, key) {
        Some(i) => {
            lemma_to_back_distinct(v, i, v[i]);
            let w = touched(v, key);
            match index_of_key(v, other) {
                Some(j) => {
                    let k = if j == i { w.len() - 1 } else if j < i { j } else { j - 1 };
                    assert(w[k] == v[j]);
                    lemma_index_of_distinct(w, other, k);
                },
                None => {
                    assert forall|k: int| 0 <= k < w.len() implies w[k].0 != other by {
                        if k == w.len() - 1 {
                            assert(w[k] == v[i]);
                        } else if k < i {
                            assert(w[k] == v[k]);
                        } else {
                            assert(w[k] == v[k + 1]);
                        }
                    }
                },
            }
        },
        None => {},
    }
}

/// Eviction goes by use, not by age: on a full cache, an entry read just
/// before another key is stored is still remembered afterwards.
pub proof fn lemma_a_read_entry_outlives_the_next_store(
    v: CacheView,
    key: Seq<char>,
    other: Seq<char>,
    answer: Option<CatalogView>,
)
    requires
        distinct_keys(v),
        v.len() <= CACHE_CAPACITY,
        lookup(v, key) is Some,
        other != key,
    ensures
        lookup(stored(touched(v, key), other, answer), key) == lookup(v, key),
{
    let i = index_of_key(v, key)->0;
    let t = touched(v, key);
    lemma_to_back_distinct(v, i, v[i]);
    assert(t[t.len() - 1] == v[i]);
    let updated = match index_of_key(t, other) {
        Some(j) => t.remove(j).push((other, answer)),
        None => t.push((other, answer)),
    };
    let w = stored(t, other, answer);
    lemma_stored_wf(t, other, answer);
    // The read entry sits just before the stored one at the back.
    let p = updated.len() - 2;
    match index_of_key(t, other) {
        Some(j) => {
            assert(j != t.len() - 1);
            assert(updated[p] == t[t.len() - 1]);
        },
        None => {
            assert(updated[p] == t[t.len() - 1]);
        },
    }
    let off = updated.len() - w.len();
    assert(0 <= off <= 1);
    assert(w[p - off] == updated[p]);
    lemma_index_of_distinct(w, key, p - off);
}

// MARK: - The cache over a run of the lookup thread

/// One thing the lookup thread does to its memory.
pub enum CacheEvent {
    /// A request for this key was looked up in memory, by `step` or
    /// `after_wait`.
    Read(Seq<char>),
    /// A search for this key was handed to `finish`: `Some(answer)` when it
    /// came back readable, with what it found; `None` when it failed.
    Finished(Seq<char>, Option<Option<CatalogView>>),
}

/// Whether `event` remembers an answer for `key`.
pub open spec fn stores_key(event: CacheEvent, key: Seq<char>) -> bool {
    event matches CacheEvent::Finished(k, Some(_)) && k == key
}

/// The cache after one event, as `Cache::get` and `Lookup::finish` leave it.
pub open spec fn after_event(v: CacheView, event: CacheEvent) -> CacheView {
    match event {
        CacheEvent::Read(k) => touched(v, k),
        CacheEvent::Finished(k, Some(answer)) => stored(v, k, answer),
        CacheEvent::Finished(_, None) => v,
    }
}

/// The cache after a run of events, one after another.
pub open spec fn after_run(v: CacheView, run: Seq<CacheEvent>) -> CacheView
    decreases run.len(),
{
    if run.len() == 0 {
        v
    } else {
        after_run(after_event(v, run[0]), run.drop_first())
    }
}

/// An event other than a store of `key` moves the entry holding `key` at
/// most one place away from the most recently used end, and forgets
/// nothing that is not at the least recently used end.
proof fn lemma_event_moves_an_entry_one_place(v: CacheView, event: CacheEvent, key: Seq<char>, j: int) -> (j2: int)
    requires
        distinct_keys(v),
        v.len() <= CACHE_CAPACITY,
        0 <= j < v.len(),
        v[j].0 == key,
        v.len() - 1 - j < CACHE_CAPACITY - 1,
        !stores_key(event, key),
    ensures
        distinct_keys(after_event(v, event)),
        after_event(v, event).len() <= CACHE_CAPACITY,
        0 <= j2 < after_event(v, event).len(),
        after_event(v, event)[j2] == v[j],
        after_event(v, event).len() - 1 - j2 <= v.len() - 1 - j + 1,
{
    match event {
        CacheEvent::Read(k) => {
            lemma_reading_keeps_every_answer(v, k, key);
            match index_of_key(v, k) {
                Some(i) => {
                    let w = touched(v, k);
                    if i == j {
                        assert(w[w.len() - 1] == v[j]);
                        w.len() - 1
                    } else if i < j {
                        assert(w[j - 1] == v[j]);
                        j - 1
                    } else {
                        assert(w[j] == v[j]);
                        j
                    }
                },
                None => j,
            }
        },
        CacheEvent::Finished(k, None) => j,
        CacheEvent::Finished(k, Some(answer)) => {
            lemma_stored_wf(v, k, answer);
            let updated = match index_of_key(v, k) {
                Some(i) => v.remove(i).push((k, answer)),
                None => v.push((k, answer)),
            };
            let ju = match index_of_key(v, k) {
                Some(i) => {
                    assert(v[i].0 == k);
                    if i < j {
                        j - 1
                    } else {
                        j
                    }
                },
                None => j,
            };
            assert(updated[ju] == v[j]);
            let w = stored(v, k, answer);
            if updated.len() > CACHE_CAPACITY {
                let off = updated.len() - CACHE_CAPACITY;
                assert(w[ju - off] == updated[ju]);
                ju - off
            } else {
                ju
            }
        },
    }
}

/// An entry `d` places from the most recently used end stays, with its
/// answer, through any run shorter than the room left behind it that does
/// not store its key again.
proof fn lemma_recent_entry_survives(v: CacheView, run: Seq<CacheEvent>, key: Seq<char>, j: int)
    requires
        distinct_keys(v),
        v.len() <= CACHE_CAPACITY,
        0 <= j < v.len(),
        v[j].0 == key,
        v.len() - 1 - j + run.len() < CACHE_CAPACITY,
        forall|i: int| 0 <= i < run.len() ==> !stores_key(#[trigger] run[i], key),
    ensures
        lookup(after_run(v, run), key) == Some(v[j].1),
    decreases run.len(),
{
    if run.len() == 0 {
        lemma_index_of_distinct(v, key, j);
    } else {
        assert(!stores_key(run[0], key));
        let j2 = lemma_event_moves_an_entry_one_place(v, run[0], key, j);
        let rest = run.drop_first();
        assert forall|i: int| 0 <= i < rest.len() implies !stores_key(#[trigger] rest[i], key) by {
            assert(rest[i] == run[i + 1]);
        }
        lemma_recent_entry_survives(after_event(v, run[0]), rest, key, j2);
    }
}

/// Eviction goes by use over any run: an entry just read, or just stored,
/// is still remembered with the same answer after any `CACHE_CAPACITY - 1`
/// further events that do not store its key again, whatever else is read,
/// stored or forgotten meanwhile.
pub proof fn lemma_a_used_entry_survives_the_next_events(v: CacheView, run: Seq<CacheEvent>, key: Seq<char>)
    requires
        distinct_keys(v),
        v.len() <= CACHE_CAPACITY,
        0 < run.len() <= CACHE_CAPACITY,
        (run[0] == CacheEvent::Read(key) && lookup(v, key) is Some) || stores_key(run[0], key),
        forall|i: int| 1 <= i < run.len() ==> !stores_key(#[trigger] run[i], key),
    ensures
        lookup(after_run(v, run), key) == match run[0] {
            CacheEvent::Finished(_, Some(answer)) => Some(answer),
            _ => lookup(v, key),
        },
{
    let w = after_event(v, run[0]);
    let rest = run.drop_first();
    assert forall|i: int| 0 <= i < rest.len() implies !stores_key(#[trigger] rest[i], key) by {
        assert(rest[i] == run[i + 1]);
    }
    match run[0] {
        CacheEvent::Finished(k, Some(answer)) => {
            lemma_stored_wf(v, k, answer);
            let updated = match index_of_key(v, k) {
                Some(i) => v.remove(i).push((k, answer)),
                None => v.push((k, answer)),
            };
            let off = updated.len() - w.len();
            assert(w[w.len() - 1] == updated[w.len() - 1 + off]);
            lemma_recent_entry_survives(w, rest, key, w.len() - 1);
        },
        _ => {
            let i = index_of_key(v, key)->0;
            lemma_to_back_distinct(v, i, v[i]);
            assert(w[w.len() - 1] == v[i]);
            lemma_recent_entry_survives(w, rest, key, w.len() - 1);
        },
    }
}

/// Over any run of the lookup thread the cache keeps its keys distinct and
/// holds at most `CACHE_CAPACITY` of them, and a key it did not remember
/// before is remembered afterwards only if a search for it came back
/// readable during the run: a failed search is never remembered.
pub proof fn lemma_a_run_keeps_the_cache_bounded(v: CacheView, run: Seq<CacheEvent>, key: Seq<char>)
    requires
        distinct_keys(v),
        v.len() <= CACHE_CAPACITY,
    ensures
        distinct_keys(after_run(v, run)),
        after_run(v, run).len() <= CACHE_CAPACITY,
        lookup(v, key) is None && (forall|i: int| 0 <= i < run.len() ==> !stores_key(#[trigger] run[i], key))
            ==> lookup(after_run(v, run), key) is None,
    decreases run.len(),
{
    if run.len() > 0 {
        let w = after_event(v, run[0]);
        match run[0] {
            CacheEvent::Read(k) => {
                lemma_reading_keeps_every_answer(v, k, key);
            },
            CacheEvent::Finished(k, Some(answer)) => {
                lemma_stored_wf(v, k, answer);
                if lookup(v, key) is None && k != key {
                    let updated = match index_of_key(v, k) {
                        Some(i) => v.remove(i).push((k, answer)),
                        None => v.push((k, answer)),
                    };
                    assert forall|x: int| 0 <= x < updated.len() implies updated[x].0 != key by {
                        match index_of_key(v, k) {
                            Some(i) => {
                                if x < updated.len() - 1 {
                                    if x < i {
                                        assert(updated[x] == v[x]);
                                    } else {
                                        assert(updated[x] == v[x + 1]);
                                    }
                                }
                            },
                            None => {
                                if x < v.len() {
                                    assert(updated[x] == v[x]);
                                }
                            },
                        }
                    }
                    let off = updated.len() - w.len();
                    assert forall|x: int| 0 <= x < w.len() implies w[x].0 != key by {
                        assert(w[x] == updated[x + off]);
                    }
                }
            },
            CacheEvent::Finished(_, None) => {},
        }
        let rest = run.drop_first();
        if lookup(v, key) is None && (forall|i: int| 0 <= i < run.len() ==> !stores_key(#[trigger] run[i], key)) {
            assert(!stores_key(run[0], key));
            assert forall|i: int| 0 <= i < rest.len() implies !stores_key(#[trigger] rest[i], key) by {
                assert(rest[i] == run[i + 1]);
            }
        }
        lemma_a_run_keeps_the_cache_bounded(w, rest, key);
    }
}

// MARK: - Answers

/// The catalog entry a search answers with for a request: the best result's
/// links with its artwork upscaled, or nothing when no result agrees closely
/// enough.
pub open spec fn found_in(results: Seq<SearchResult>, request: Request) -> Option<CatalogView> {
    match best_candidate_index(
        results.map_values(|x: SearchResult| candidate_of(x)),
        wanted_of(request.name@, request.artist@, request.album@),
    ) {
        Some(i) => Some(
            (
                opt_view(results[i].track_view_url),
                opt_view(results[i].artist_view_url),
                opt_view(results[i].collection_view_url),
                upscaled_artwork(opt_view(results[i].artwork_url100)),
            ),
        ),
        None => None,
    }
}

/// What a completed search means for the request it answered.
pub fn found_for(results: &[SearchResult], request: &Request) -> (r: Option<CatalogInfo>)
    ensures
        catalog_opt_view(r) == found_in(results@, *request),
{
    match pick_best(results, request.name.as_str(), request.artist.as_str(), request.album.as_str()) {
        Some(best) => Some(catalog_from(best)),
        None => None,
    }
}

/// Whether a region name is a two-letter storefront.
pub open spec fn is_storefront(name: Seq<char>) -> bool {
    name.len() == 2 && is_ascii_alphabetic(name[0]) && is_ascii_alphabetic(name[1])
}

pub open spec fn is_ascii_alphabetic(c: char) -> bool {
    ('a' <= c && c <= 'z') || ('A' <= c && c <= 'Z')
}

pub open spec fn ascii_upper(c: char) -> char {
    if 'a' <= c && c <= 'z' {
        ((c as u32) - 32) as char
    } else {
        c
    }
}

/// The storefront the search runs against: the machine's region when it is a
/// two-letter one, upper-cased, and the fallback otherwise. A Japanese user
/// should get Japanese links, not US ones.
pub open spec fn storefront_of(name: Seq<char>) -> Seq<char> {
    if is_storefront(name) {
        seq![ascii_upper(name[0]), ascii_upper(name[1])]
    } else {
        FALLBACK_COUNTRY@
    }
}

fn to_ascii_upper(c: char) -> (r: char)
    ensures
        r == ascii_upper(c),
{
    if 'a' <= c && c <= 'z' {
        let b = (c as u32 - 32) as u8;
        b as char
    } else {
        c
    }
}

pub fn storefront_country(region: &str) -> (r: String)
    ensures
        r@ == storefront_of(region@),
{
    let chars = chars_of(region);
    if chars.len() == 2 && (('a' <= chars[0] && chars[0] <= 'z') || ('A' <= chars[0] && chars[0] <= 'Z'))
        && (('a' <= chars[1] && chars[1] <= 'z') || ('A' <= chars[1] && chars[1] <= 'Z')) {
        let upper = vec![to_ascii_upper(chars[0]), to_ascii_upper(chars[1])];
        proof {
            assert(upper@ =~= seq![ascii_upper(region@[0]), ascii_upper(region@[1])]);
        }
        string_from(upper.as_slice())
    } else {
        to_owned_string(FALLBACK_COUNTRY)
    }
}

// MARK: - The lookup thread's decisions

/// An answer as the contracts describe it.
pub enum OutcomeView {
    Found(CatalogView),
    Missing,
    Failed,
}

pub open spec fn outcome_view(o: Outcome) -> OutcomeView {
    match o {
        Outcome::Found(c) => OutcomeView::Found(catalog_view(c)),
        Outcome::Missing => OutcomeView::Missing,
        Outcome::Failed => OutcomeView::Failed,
    }
}

/// What a remembered or fresh answer means: an entry is found, no entry is
/// missing.
pub open spec fn answer_outcome(answer: Option<CatalogView>) -> OutcomeView {
    match answer {
        Some(c) => OutcomeView::Found(c),
        None => OutcomeView::Missing,
    }
}

/// The times searches go out at over a run of lookups that memory could not
/// answer, handed the times `nows`, with the slot first opening at
/// `next_allowed`. As `Lookup::step` decides, a lookup searches only once the
/// slot is open, which moves the slot `MIN_REQUEST_INTERVAL_MS` past that
/// search, and otherwise waits with the slot left where it is; answers from
/// memory leave the slot alone. (`after_wait` follows the wait `step` asked
/// for, which ends when the slot opens, so it is handed an open slot.)
pub open spec fn search_times(next_allowed: int, nows: Seq<u64>) -> Seq<u64>
    decreases nows.len(),
{
    if nows.len() == 0 {
        Seq::empty()
    } else if nows[0] >= next_allowed {
        seq![nows[0]] + search_times(nows[0] + MIN_REQUEST_INTERVAL_MS, nows.drop_first())
    } else {
        search_times(next_allowed, nows.drop_first())
    }
}

/// The catalog is never asked twice within `MIN_REQUEST_INTERVAL_MS`: over
/// any run, each search goes out no earlier than the slot first opened, and
/// at least that interval after the search before it, whatever the clock
/// handed in between.
pub proof fn lemma_searches_are_spaced(next_allowed: int, nows: Seq<u64>)
    ensures
        forall|i: int| 0 <= i < search_times(next_allowed, nows).len() ==> #[trigger] search_times(
            next_allowed,
            nows,
        )[i] >= next_allowed,
        forall|i: int|
            0 <= i < search_times(next_allowed, nows).len() - 1 ==> #[trigger] search_times(next_allowed, nows)[i]
                + MIN_REQUEST_INTERVAL_MS <= search_times(next_allowed, nows)[i + 1],
    decreases nows.len(),
{
    if nows.len() > 0 {
        let rest = nows.drop_first();
        if nows[0] >= next_allowed {
            let later = nows[0] + MIN_REQUEST_INTERVAL_MS;
            lemma_searches_are_spaced(later, rest);
            let t = search_times(next_allowed, nows);
            let tail = search_times(later, rest);
            assert(t == seq![nows[0]] + tail);
            assert forall|i: int| 0 <= i < t.len() - 1 implies #[trigger] t[i] + MIN_REQUEST_INTERVAL_MS <= t[i
                + 1] by {
                assert(t[i + 1] == tail[i]);
                if i > 0 {
                    assert(t[i] == tail[i - 1]);
                }
            }
            assert forall|i: int| 0 <= i < t.len() implies #[trigger] t[i] >= next_allowed by {
                if i > 0 {
                    assert(t[i] == tail[i - 1]);
                }
            }
        } else {
            lemma_searches_are_spaced(next_allowed, rest);
            assert(search_times(next_allowed, nows) == search_times(next_allowed, rest));
        }
    } else {
        assert(search_times(next_allowed, nows).len() == 0);
    }
}

/// The lookup thread's memory: what is waiting, what has been answered, and
/// when the next search may go out.
pub struct Lookup {
    pub queue: Queue,
    pub cache: Cache,
    /// In the same milliseconds as every `now` handed in.
    pub next_allowed_ms: u64,
}

/// What the lookup thread does next.
pub enum LookupStep {
    /// Nothing is waiting: block until a request arrives.
    Idle,
    /// Answered from what is remembered; post it.
    Answer(Resolved),
    /// Too soon after the last search: sleep this long, take in whatever
    /// arrived meanwhile, then ask `after_wait` about this request.
    Wait { ms: u64, request: Request },
    /// Search the catalog at `url` for this request, then hand the answer to
    /// `finish`.
    Search { request: Request, url: String },
    /// A newer request for the same source arrived during the wait; this one
    /// is no longer playing and is dropped without spending a search.
    Superseded,
}

/// The answer `step` or `after_wait` posts for `request` from what is
/// remembered.
pub open spec fn answers(step: LookupStep, request: Request, remembered: Option<CatalogView>) -> bool {
    step matches LookupStep::Answer(res) && res.source == request.source && res.key@ == request.key@
        && outcome_view(res.outcome) == answer_outcome(remembered)
}

/// The search `step` or `after_wait` asks for.
pub open spec fn searches(step: LookupStep, request: Request, country: Seq<char>) -> bool {
    step matches LookupStep::Search { request: r, url } && r == request && url@ == search_url_of(
        request.name@,
        request.artist@,
        country,
    )
}

fn resolved_from(request: &Request, answer: Option<CatalogInfo>) -> (r: Resolved)
    ensures
        r.source == request.source,
        r.key@ == request.key@,
        outcome_view(r.outcome) == answer_outcome(catalog_opt_view(answer)),
{
    Resolved { source: request.source, key: to_owned_string(request.key.as_str()), outcome: Outcome::from_cached(answer) }
}

impl Lookup {
    pub open spec fn wf(&self) -> bool {
        self.queue.wf() && self.cache.wf()
    }

    pub fn new() -> (l: Self)
        ensures
            l.wf(),
            l.queue.spec_pending().len() == 0,
            l.cache.spec_entries().len() == 0,
            l.next_allowed_ms == 0,
    {
        Lookup { queue: Queue::new(), cache: Cache::new(), next_allowed_ms: 0 }
    }

    /// A request from the event loop.
    pub fn enqueue(&mut self, request: Request)
        requires
            old(self).wf(),
        ensures
            final(self).wf(),
            final(self).queue.spec_pending() == pushed(old(self).queue.spec_pending(), request),
            final(self).cache == old(self).cache,
            final(self).next_allowed_ms == old(self).next_allowed_ms,
    {
        self.queue.push(request);
    }

    /// Spends the search slot on `request` at `now`.
    fn search(&mut self, request: Request, now: u64, country: &str) -> (r: LookupStep)
        requires
            now <= u64::MAX - MIN_REQUEST_INTERVAL_MS,
        ensures
            searches(r, request, country@),
            final(self).next_allowed_ms == now + MIN_REQUEST_INTERVAL_MS,
            final(self).queue == old(self).queue,
            final(self).cache == old(self).cache,
    {
        self.next_allowed_ms = now + MIN_REQUEST_INTERVAL_MS;
        let url = search_url(request.name.as_str(), request.artist.as_str(), country);
        LookupStep::Search { request, url }
    }

    /// The next thing to do with the oldest waiting request: answer it from
    /// memory, wait out the rate limit, or search. `country` is the
    /// storefront searched.
    pub fn step(&mut self, now: u64, country: &str) -> (r: LookupStep)
        requires
            old(self).wf(),
            now <= u64::MAX - MIN_REQUEST_INTERVAL_MS,
        ensures
            final(self).wf(),
            old(self).queue.spec_pending().len() == 0 ==> {
                &&& r is Idle
                &&& final(self).cache == old(self).cache
                &&& final(self).queue.spec_pending() == old(self).queue.spec_pending()
                &&& final(self).next_allowed_ms == old(self).next_allowed_ms
            },
            old(self).queue.spec_pending().len() > 0 ==> {
                let request = old(self).queue.spec_pending()[0];
                let remembered = lookup(old(self).cache.spec_entries(), request.key@);
                &&& final(self).queue.spec_pending() == old(self).queue.spec_pending().drop_first()
                &&& final(self).cache.spec_entries() == touched(old(self).cache.spec_entries(), request.key@)
                &&& remembered matches Some(a) ==> answers(r, request, a) && final(self).next_allowed_ms
                    == old(self).next_allowed_ms
                &&& remembered is None && now < old(self).next_allowed_ms ==> {
                    &&& r matches LookupStep::Wait { ms, request: w } && w == request && ms
                        == old(self).next_allowed_ms - now
                    &&& final(self).next_allowed_ms == old(self).next_allowed_ms
                }
                &&& remembered is None && now >= old(self).next_allowed_ms ==> {
                    &&& searches(r, request, country@)
                    &&& final(self).next_allowed_ms == now + MIN_REQUEST_INTERVAL_MS
                }
            },
    {
        let request = match self.queue.pop() {
            Some(request) => request,
            None => return LookupStep::Idle,
        };
        match self.cache.get(request.key.as_str()) {
            Some(answer) => return LookupStep::Answer(resolved_from(&request, answer)),
            None => {},
        }
        if now < self.next_allowed_ms {
            let ms = self.next_allowed_ms - now;
            return LookupStep::Wait { ms, request };
        }
        self.search(request, now, country)
    }

    /// After the wait `step` asked for, with whatever arrived meanwhile
    /// already enqueued: drop the request if a newer one for its source came
    /// in, answer it if it was answered meanwhile, and search otherwise.
    pub fn after_wait(&mut self, request: Request, now: u64, country: &str) -> (r: LookupStep)
        requires
            old(self).wf(),
            now <= u64::MAX - MIN_REQUEST_INTERVAL_MS,
        ensures
            final(self).wf(),
            final(self).queue == old(self).queue,
            ({
                let newer = slot_of(old(self).queue.spec_pending(), request.source) is Some;
                let remembered = lookup(old(self).cache.spec_entries(), request.key@);
                &&& newer ==> r is Superseded && final(self).next_allowed_ms == old(self).next_allowed_ms
                    && final(self).cache == old(self).cache
                &&& !newer ==> final(self).cache.spec_entries() == touched(
                    old(self).cache.spec_entries(),
                    request.key@,
                )
                &&& !newer && remembered is Some ==> answers(r, request, remembered->0)
                    && final(self).next_allowed_ms == old(self).next_allowed_ms
                &&& !newer && remembered is None ==> searches(r, request, country@)
                    && final(self).next_allowed_ms == now + MIN_REQUEST_INTERVAL_MS
            }),
    {
        if self.queue.has_newer_for(request.source) {
            return LookupStep::Superseded;
        }
        match self.cache.get(request.key.as_str()) {
            Some(answer) => return LookupStep::Answer(resolved_from(&request, answer)),
            None => {},
        }
        self.search(request, now, country)
    }

    /// What a search came to. `results` is the search's result list, or
    /// `None` when the request failed or its answer could not be read. Only
    /// a real answer is remembered: a temporary failure must not become this
    /// track's permanent one.
    pub fn finish(&mut self, request: &Request, results: Option<&[SearchResult]>) -> (r: Resolved)
        requires
            old(self).wf(),
        ensures
            final(self).wf(),
            final(self).queue == old(self).queue,
            final(self).next_allowed_ms == old(self).next_allowed_ms,
            r.source == request.source,
            r.key@ == request.key@,
            match results {
                Some(list) => {
                    let found = found_in(list@, *request);
                    &&& outcome_view(r.outcome) == answer_outcome(found)
                    &&& final(self).cache.spec_entries() == stored(old(self).cache.spec_entries(), request.key@, found)
                },
                None => {
                    &&& r.outcome == Outcome::Failed
                    &&& final(self).cache == old(self).cache
                },
            },
    {
        match results {
            Some(list) => {
                let found = found_for(list, request);
                let remembered = match &found {
                    Some(c) => Some(c.duplicate()),
                    None => None,
                };
                self.cache.store(to_owned_string(request.key.as_str()), remembered);
                resolved_from(request, found)
            },
            None => Resolved {
                source: request.source,
                key: to_owned_string(request.key.as_str()),
                outcome: Outcome::Failed,
            },
        }
    }
}

} // verus!
