//! GitHub API response cache.
//!
//! Responses are kept with the time they were stored and their ETag; an entry
//! is fresh for `ttl_seconds` (20 minutes by default). Stale entries are still
//! returned so that their ETag can be revalidated. Persisting the cache to
//! disk is left to the caller.
use crate::sort::{key_order, lemma_sorted_map, lex_le, sorted_by, stable_sort, str_le, SortKey};
use crate::text::{contains, contains_seq, from_chars, to_chars};
use vstd::prelude::*;

verus! {

/// A stored response.
#[derive(Debug)]
pub struct CacheEntry {
    pub response_body: String,
    /// Unix time (seconds) at which the entry was stored or last confirmed
    pub timestamp: u64,
    pub etag: Option<String>,
    pub status_code: u16,
}

pub struct CacheEntryView {
    pub body: Seq<char>,
    pub timestamp: u64,
    pub etag: Option<Seq<char>>,
    pub status_code: u16,
}

impl View for CacheEntry {
    type V = CacheEntryView;

    open spec fn view(&self) -> CacheEntryView {
        CacheEntryView {
            body: self.response_body@,
            timestamp: self.timestamp,
            etag: crate::log_types::opt_string_view(self.etag),
            status_code: self.status_code,
        }
    }
}

impl Clone for CacheEntry {
    fn clone(&self) -> (r: Self)
        ensures
            r@ == self@,
    {
        CacheEntry {
            response_body: self.response_body.clone(),
            timestamp: self.timestamp,
            etag: crate::log_types::clone_opt_string(&self.etag),
            status_code: self.status_code,
        }
    }
}

/// A response as handed to and returned by the cache.
#[derive(Debug)]
pub struct CachedResponse {
    pub body: String,
    pub etag: Option<String>,
    pub status_code: u16,
}

pub struct CachedResponseView {
    pub body: Seq<char>,
    pub etag: Option<Seq<char>>,
    pub status_code: u16,
}

impl View for CachedResponse {
    type V = CachedResponseView;

    open spec fn view(&self) -> CachedResponseView {
        CachedResponseView {
            body: self.body@,
            etag: crate::log_types::opt_string_view(self.etag),
            status_code: self.status_code,
        }
    }
}

impl Clone for CachedResponse {
    fn clone(&self) -> (r: Self)
        ensures
            r@ == self@,
    {
        CachedResponse {
            body: self.body.clone(),
            etag: crate::log_types::clone_opt_string(&self.etag),
            status_code: self.status_code,
        }
    }
}

/// Cache statistics for debugging.
#[derive(Debug, Clone, Copy, PartialEq, Eq, Structural)]
pub struct CacheStats {
    pub total_entries: usize,
    pub fresh_entries: usize,
    pub stale_entries: usize,
    pub ttl_seconds: u64,
}

/// GitHub API response cache: a list of keyed entries, each key at most once.
#[derive(Debug)]
pub struct ApiCache {
    ttl_seconds: u64,
    entries: Vec<(String, CacheEntry)>,
}

pub open spec fn entries_view(v: Seq<(String, CacheEntry)>) -> Seq<(Seq<char>, CacheEntryView)> {
    v.map_values(|p: (String, CacheEntry)| (p.0@, p.1@))
}

/// No key occurs twice.
pub open spec fn keys_distinct(s: Seq<(Seq<char>, CacheEntryView)>) -> bool {
    forall|i: int, j: int| 0 <= i < j < s.len() ==> s[i].0 != s[j].0
}

/// The entries as a map from key to entry.
pub open spec fn entry_map(s: Seq<(Seq<char>, CacheEntryView)>) -> Map<Seq<char>, CacheEntryView>
    decreases s.len(),
{
    if s.len() == 0 {
        Map::empty()
    } else {
        entry_map(s.drop_last()).insert(s.last().0, s.last().1)
    }
}

/// Age of an entry, as unsigned 64-bit arithmetic computes it.
pub open spec fn entry_age(now: u64, e: CacheEntryView) -> u64 {
    now.wrapping_sub(e.timestamp)
}

/// The entry is within its time to live.
pub open spec fn is_fresh(now: u64, ttl: u64, e: CacheEntryView) -> bool {
    entry_age(now, e) < ttl
}

/// What `get` returns for an entry: a fresh entry as stored, a stale one with
/// status 200 (a candidate for a 304 revalidation).
pub open spec fn response_of(now: u64, ttl: u64, e: CacheEntryView) -> CachedResponseView {
    CachedResponseView {
        body: e.body,
        etag: e.etag,
        status_code: if is_fresh(now, ttl, e) { e.status_code } else { 200 },
    }
}

/// The entry that storing `r` at time `now` creates.
pub open spec fn entry_of(r: CachedResponseView, now: u64) -> CacheEntryView {
    CacheEntryView { body: r.body, timestamp: now, etag: r.etag, status_code: r.status_code }
}

/// The keys of `m` whose entries are fresh at `now`.
pub open spec fn fresh_keys(m: Map<Seq<char>, CacheEntryView>, now: u64, ttl: u64) -> Set<Seq<char>> {
    m.dom().filter(|k: Seq<char>| is_fresh(now, ttl, m[k]))
}

/// `m` without the keys that contain `pattern`.
pub open spec fn without_pattern(m: Map<Seq<char>, CacheEntryView>, pattern: Seq<char>) -> Map<Seq<char>, CacheEntryView> {
    Map::new(|k: Seq<char>| m.contains_key(k) && !contains_seq(k, pattern), |k: Seq<char>| m[k])
}

/// Number of fresh entries of a list.
pub open spec fn count_fresh(s: Seq<(Seq<char>, CacheEntryView)>, now: u64, ttl: u64) -> nat
    decreases s.len(),
{
    if s.len() == 0 {
        0
    } else {
        count_fresh(s.drop_last(), now, ttl) + if is_fresh(now, ttl, s.last().1) { 1nat } else { 0nat }
    }
}

proof fn lemma_distinct_drop_last(s: Seq<(Seq<char>, CacheEntryView)>)
    requires
        keys_distinct(s),
        s.len() > 0,
    ensures
        keys_distinct(s.drop_last()),
        forall|i: int| 0 <= i < s.len() - 1 ==> s.drop_last()[i].0 != s.last().0,
{
}

/// A key that no item has is not in the map.
proof fn lemma_map_lacks(s: Seq<(Seq<char>, CacheEntryView)>, k: Seq<char>)
    requires
        forall|i: int| 0 <= i < s.len() ==> s[i].0 != k,
    ensures
        !entry_map(s).contains_key(k),
    decreases s.len(),
{
    if s.len() > 0 {
        lemma_map_lacks(s.drop_last(), k);
    }
}

/// Each item is in the map under its key.
proof fn lemma_map_has(s: Seq<(Seq<char>, CacheEntryView)>, i: int)
    requires
        keys_distinct(s),
        0 <= i < s.len(),
    ensures
        entry_map(s).contains_key(s[i].0),
        entry_map(s)[s[i].0] == s[i].1,
    decreases s.len(),
{
    if i < s.len() - 1 {
        lemma_distinct_drop_last(s);
        lemma_map_has(s.drop_last(), i);
    }
}

/// The map's keys are exactly the items' keys.
proof fn lemma_map_len(s: Seq<(Seq<char>, CacheEntryView)>)
    requires
        keys_distinct(s),
    ensures
        entry_map(s).dom().finite(),
        entry_map(s).len() == s.len(),
    decreases s.len(),
{
    if s.len() > 0 {
        lemma_distinct_drop_last(s);
        lemma_map_len(s.drop_last());
        lemma_map_lacks(s.drop_last(), s.last().0);
    }
}

proof fn lemma_map_update(s: Seq<(Seq<char>, CacheEntryView)>, i: int, e: CacheEntryView)
    requires
        keys_distinct(s),
        0 <= i < s.len(),
    ensures
        keys_distinct(s.update(i, (s[i].0, e))),
        entry_map(s.update(i, (s[i].0, e))) == entry_map(s).insert(s[i].0, e),
    decreases s.len(),
{
    let t = s.update(i, (s[i].0, e));
    lemma_distinct_drop_last(s);
    if i == s.len() - 1 {
        assert(t.drop_last() =~= s.drop_last());
        assert(entry_map(t) =~= entry_map(s).insert(s[i].0, e));
    } else {
        lemma_map_update(s.drop_last(), i, e);
        assert(t.drop_last() =~= s.drop_last().update(i, (s[i].0, e)));
        assert(entry_map(t) =~= entry_map(s).insert(s[i].0, e));
    }
}

proof fn lemma_map_remove(s: Seq<(Seq<char>, CacheEntryView)>, i: int)
    requires
        keys_distinct(s),
        0 <= i < s.len(),
    ensures
        keys_distinct(s.remove(i)),
        entry_map(s.remove(i)) == entry_map(s).remove(s[i].0),
    decreases s.len(),
{
    let t = s.remove(i);
    lemma_distinct_drop_last(s);
    if i == s.len() - 1 {
        assert(t =~= s.drop_last());
        lemma_map_lacks(s.drop_last(), s[i].0);
        assert(entry_map(t) =~= entry_map(s).remove(s[i].0));
    } else {
        lemma_map_remove(s.drop_last(), i);
        assert(t.drop_last() =~= s.drop_last().remove(i));
        assert(t.last() == s.last());
        assert(entry_map(t) =~= entry_map(s).remove(s[i].0));
    }
}

proof fn lemma_fresh_count(s: Seq<(Seq<char>, CacheEntryView)>, now: u64, ttl: u64)
    requires
        keys_distinct(s),
    ensures
        fresh_keys(entry_map(s), now, ttl).finite(),
        fresh_keys(entry_map(s), now, ttl).len() == count_fresh(s, now, ttl),
        count_fresh(s, now, ttl) <= s.len(),
    decreases s.len(),
{
    let m = entry_map(s);
    if s.len() == 0 {
        assert(fresh_keys(m, now, ttl) =~= Set::<Seq<char>>::empty());
    } else {
        let d = s.drop_last();
        let k = s.last().0;
        let e = s.last().1;
        lemma_distinct_drop_last(s);
        lemma_fresh_count(d, now, ttl);
        lemma_map_lacks(d, k);
        let md = entry_map(d);
        if is_fresh(now, ttl, e) {
            assert(fresh_keys(m, now, ttl) =~= fresh_keys(md, now, ttl).insert(k));
        } else {
            assert(fresh_keys(m, now, ttl) =~= fresh_keys(md, now, ttl));
        }
    }
}

/// A response stored at time `now` reads back unchanged at that time, and
/// with status 200 once its time to live has passed, whatever the response.
pub proof fn law_read_back_stored(r: CachedResponseView, stored: u64, now: u64, ttl: u64)
    requires
        stored <= now,
    ensures
        now - stored < ttl ==> response_of(now, ttl, entry_of(r, stored)) == r,
        now - stored >= ttl ==> response_of(now, ttl, entry_of(r, stored)) == (CachedResponseView { status_code: 200, ..r }),
{
    assert(entry_age(now, entry_of(r, stored)) == now - stored);
}

// ---------------------------------------------------------------------------
// Cache keys

/// A query parameter.
#[derive(Debug, Clone, Copy)]
pub struct QueryParam<'a> {
    pub key: &'a str,
    pub value: &'a str,
}

impl<'a> SortKey for QueryParam<'a> {
    open spec fn key_le(&self, other: &Self) -> bool {
        lex_le(self.key@, other.key@)
    }

    fn le(&self, other: &Self) -> (r: bool) {
        str_le(self.key, other.key)
    }
}

pub open spec fn params_view(p: Seq<(&str, &str)>) -> Seq<(Seq<char>, Seq<char>)> {
    p.map_values(|x: (&str, &str)| (x.0@, x.1@))
}

pub open spec fn param_key_le() -> spec_fn((Seq<char>, Seq<char>), (Seq<char>, Seq<char>)) -> bool {
    |a: (Seq<char>, Seq<char>), b: (Seq<char>, Seq<char>)| lex_le(a.0, b.0)
}

/// `k=v` items joined by `&`.
pub open spec fn join_query(p: Seq<(Seq<char>, Seq<char>)>) -> Seq<char>
    decreases p.len(),
{
    if p.len() == 0 {
        Seq::empty()
    } else if p.len() == 1 {
        p[0].0 + seq!['='] + p[0].1
    } else {
        join_query(p.drop_last()) + seq!['&'] + p.last().0 + seq!['='] + p.last().1
    }
}

/// `METHOD:url`, followed by `?` and the parameters sorted by key (stably) when there are any.
pub open spec fn spec_cache_key(method: Seq<char>, url: Seq<char>, params: Seq<(Seq<char>, Seq<char>)>) -> Seq<char> {
    if params.len() == 0 {
        method + seq![':'] + url
    } else {
        method + seq![':'] + url + seq!['?'] + join_query(sorted_by(params, param_key_le()))
    }
}

/// Deterministic cache key for a request.
pub fn cache_key(method: &str, url: &str, params: &[(&str, &str)]) -> (r: String)
    ensures
        r@ == spec_cache_key(method@, url@, params_view(params@)),
{
    let mut acc: Vec<char> = Vec::new();
    crate::text::push_str(&mut acc, method);
    acc.push(':');
    crate::text::push_str(&mut acc, url);
    if params.len() == 0 {
        proof {
            assert(acc@ =~= method@ + seq![':'] + url@);
        }
        return from_chars(acc.as_slice());
    }
    acc.push('?');
    let ghost head = acc@;
    let mut ps: Vec<QueryParam> = Vec::new();
    let mut i: usize = 0;
    while i < params.len()
        invariant
            i <= params@.len(),
            ps@.len() == i,
            forall|k: int| 0 <= k < i ==> (#[trigger] ps@[k]).key == params@[k].0 && ps@[k].value == params@[k].1,
        decreases params@.len() - i,
    {
        ps.push(QueryParam { key: params[i].0, value: params[i].1 });
        i = i + 1;
    }
    let ghost pv = ps@;
    let ghost f = |q: QueryParam| (q.key@, q.value@);
    proof {
        assert(pv.map_values(f) =~= params_view(params@));
        assert forall|a: QueryParam, b: QueryParam| #[trigger] key_order::<QueryParam>()(a, b) == param_key_le()(f(a), f(b)) by {}
        lemma_sorted_map(pv, f, key_order::<QueryParam>(), param_key_le());
    }
    let sorted = stable_sort(ps);
    let ghost sv = sorted@.map_values(f);
    assert(sv == sorted_by(params_view(params@), param_key_le()));
    let mut k: usize = 0;
    while k < sorted.len()
        invariant
            k <= sorted@.len(),
            sv == sorted@.map_values(f),
            forall|q: QueryParam| #[trigger] f(q) == (q.key@, q.value@),
            sv.len() > 0,
            acc@ == head + join_query(sv.take(k as int)),
        decreases sorted@.len() - k,
    {
        let ghost before = acc@;
        let ghost item = sv[k as int];
        if k > 0 {
            acc.push('&');
        }
        crate::text::push_str(&mut acc, sorted[k].key);
        acc.push('=');
        crate::text::push_str(&mut acc, sorted[k].value);
        proof {
            assert(sv[k as int] == (sorted@[k as int].key@, sorted@[k as int].value@));
            assert(sv.take(k + 1).drop_last() =~= sv.take(k as int));
            assert(sv.take(k + 1).last() == sv[k as int]);
            assert(sv.take(k + 1)[0] == sv[0]);
            if k == 0 {
                assert(sv.take(0) =~= Seq::<(Seq<char>, Seq<char>)>::empty());
                assert(acc@ =~= head + join_query(sv.take(1)));
            } else {
                assert(acc@ =~= head + join_query(sv.take(k + 1)));
            }
        }
        k = k + 1;
    }
    proof {
        assert(sv.take(k as int) =~= sv);
        assert(acc@ =~= method@ + seq![':'] + url@ + seq!['?'] + join_query(sv));
    }
    from_chars(acc.as_slice())
}

} // verus!

verus! {

/// The abstract state of a cache: its time to live and its entries by key.
pub struct ApiCacheView {
    pub ttl_seconds: u64,
    pub entries: Map<Seq<char>, CacheEntryView>,
}

impl View for ApiCache {
    type V = ApiCacheView;

    closed spec fn view(&self) -> ApiCacheView {
        ApiCacheView { ttl_seconds: self.ttl_seconds, entries: entry_map(entries_view(self.entries@)) }
    }
}

/// Time to live of a new cache: 20 minutes.
pub const DEFAULT_TTL_SECONDS: u64 = 1200;

/// Reads the system clock: seconds since the Unix epoch, as
/// `std::time::SystemTime::now().duration_since(UNIX_EPOCH)` gives them, or 0
/// where the clock reads earlier than the epoch. Nothing is stated of the
/// value: it is the current time.
#[verifier::external_body]
fn unix_now() -> (r: u64) {
    match std::time::SystemTime::now().duration_since(std::time::UNIX_EPOCH) {
        Ok(d) => d.as_secs(),
        Err(_) => 0,
    }
}

impl ApiCache {
    /// The cache keeps each key at most once.
    pub closed spec fn wf(&self) -> bool {
        keys_distinct(entries_view(self.entries@))
    }

    /// An empty cache with the default time to live of 20 minutes.
    pub fn new() -> (r: Self)
        ensures
            r.wf(),
            r@.ttl_seconds == DEFAULT_TTL_SECONDS,
            r@.entries == Map::<Seq<char>, CacheEntryView>::empty(),
    {
        Self::with_ttl(DEFAULT_TTL_SECONDS)
    }

    /// An empty cache whose entries stay fresh for `ttl_seconds`.
    pub fn with_ttl(ttl_seconds: u64) -> (r: Self)
        ensures
            r.wf(),
            r@.ttl_seconds == ttl_seconds,
            r@.entries == Map::<Seq<char>, CacheEntryView>::empty(),
    {
        let r = ApiCache { ttl_seconds, entries: Vec::new() };
        assert(entries_view(r.entries@) =~= Seq::<(Seq<char>, CacheEntryView)>::empty());
        r
    }

    /// Seconds each entry stays fresh.
    pub fn ttl_seconds(&self) -> (r: u64)
        ensures
            r == self@.ttl_seconds,
    {
        self.ttl_seconds
    }

    /// Number of entries.
    pub fn len(&self) -> (r: usize)
        requires
            self.wf(),
        ensures
            r == self@.entries.len(),
    {
        proof {
            lemma_map_len(entries_view(self.entries@));
        }
        self.entries.len()
    }

    /// The entries, each key once, in no particular order.
    pub fn entries(&self) -> (r: &Vec<(String, CacheEntry)>)
        requires
            self.wf(),
        ensures
            keys_distinct(entries_view(r@)),
            entry_map(entries_view(r@)) == self@.entries,
    {
        &self.entries
    }

    /// The current Unix time in seconds.
    pub fn current_timestamp(&self) -> u64 {
        unix_now()
    }

    /// Deterministic key for a request: `METHOD:url`, then `?` and the
    /// parameters sorted by name where there are any.
    pub fn cache_key(&self, method: &str, url: &str, params: &[(&str, &str)]) -> (r: String)
        ensures
            r@ == spec_cache_key(method@, url@, params_view(params@)),
    {
        cache_key(method, url, params)
    }

    /// Position of `key` among the entries.
    fn find(&self, key: &String) -> (r: Option<usize>)
        requires
            self.wf(),
        ensures
            match r {
                Some(i) => i < self.entries@.len() && self.entries@[i as int].0@ == key@,
                None => !self@.entries.contains_key(key@),
            },
    {
        let ghost s = entries_view(self.entries@);
        let mut i: usize = 0;
        while i < self.entries.len()
            invariant
                i <= self.entries@.len(),
                s == entries_view(self.entries@),
                forall|j: int| 0 <= j < i ==> s[j].0 != key@,
            decreases self.entries@.len() - i,
        {
            if self.entries[i].0 == *key {
                return Some(i);
            }
            i = i + 1;
        }
        proof {
            lemma_map_lacks(s, key@);
        }
        None
    }

    /// The stored entry under `key`, as `get` returns it at time `now`.
    pub fn get_by_key_at(&self, key: &String, now: u64) -> (r: Option<CachedResponse>)
        requires
            self.wf(),
        ensures
            match r {
                Some(c) => self@.entries.contains_key(key@) && c@ == response_of(now, self@.ttl_seconds, self@.entries[key@]),
                None => !self@.entries.contains_key(key@),
            },
    {
        match self.find(key) {
            None => None,
            Some(i) => {
                proof {
                    lemma_map_has(entries_view(self.entries@), i as int);
                }
                let e = &self.entries[i].1;
                let age = now.wrapping_sub(e.timestamp);
                let status_code = if age < self.ttl_seconds { e.status_code } else { 200 };
                Some(CachedResponse {
                    body: e.response_body.clone(),
                    etag: crate::log_types::clone_opt_string(&e.etag),
                    status_code,
                })
            },
        }
    }

    /// The cached response for a request at time `now`: `None` where nothing
    /// is stored; a fresh entry as stored; a stale entry with status 200, for
    /// revalidation by its ETag.
    pub fn get_at(&self, method: &str, url: &str, params: &[(&str, &str)], now: u64) -> (r: Option<CachedResponse>)
        requires
            self.wf(),
        ensures
            ({
                let key = spec_cache_key(method@, url@, params_view(params@));
                match r {
                    Some(c) => self@.entries.contains_key(key) && c@ == response_of(now, self@.ttl_seconds, self@.entries[key]),
                    None => !self@.entries.contains_key(key),
                }
            }),
    {
        let key = cache_key(method, url, params);
        self.get_by_key_at(&key, now)
    }

    /// The cached response for a request, at the current time (see `get_at`).
    pub fn get(&self, method: &str, url: &str, params: &[(&str, &str)]) -> (r: Option<CachedResponse>)
        requires
            self.wf(),
        ensures
            ({
                let key = spec_cache_key(method@, url@, params_view(params@));
                match r {
                    Some(c) => {
                        &&& self@.entries.contains_key(key)
                        &&& c@.body == self@.entries[key].body
                        &&& c@.etag == self@.entries[key].etag
                        &&& (c@.status_code == self@.entries[key].status_code || c@.status_code == 200)
                    },
                    None => !self@.entries.contains_key(key),
                }
            }),
    {
        let now = unix_now();
        self.get_at(method, url, params, now)
    }

    /// Stores `entry` under `key`, replacing what was there.
    pub fn insert_entry(&mut self, key: String, entry: CacheEntry)
        requires
            old(self).wf(),
        ensures
            final(self).wf(),
            final(self)@.ttl_seconds == old(self)@.ttl_seconds,
            final(self)@.entries == old(self)@.entries.insert(key@, entry@),
    {
        let ghost s = entries_view(self.entries@);
        let ghost k = key@;
        let ghost ev = entry@;
        match self.find(&key) {
            Some(i) => {
                proof {
                    lemma_map_update(s, i as int, ev);
                }
                self.entries.set(i, (key, entry));
                assert(entries_view(self.entries@) =~= s.update(i as int, (s[i as int].0, ev)));
            },
            None => {
                self.entries.push((key, entry));
                proof {
                    assert(entries_view(self.entries@) =~= s.push((k, ev)));
                    assert(entries_view(self.entries@).drop_last() =~= s);
                    if exists|j: int| 0 <= j < s.len() && s[j].0 == k {
                        let j = choose|j: int| 0 <= j < s.len() && s[j].0 == k;
                        lemma_map_has(s, j);
                    }
                }
            },
        }
    }

    /// Stores `response` under the request's key, stamped with time `now`.
    pub fn set_at(&mut self, method: &str, url: &str, params: &[(&str, &str)], response: &CachedResponse, now: u64)
        requires
            old(self).wf(),
        ensures
            final(self).wf(),
            final(self)@.ttl_seconds == old(self)@.ttl_seconds,
            final(self)@.entries == old(self)@.entries.insert(
                spec_cache_key(method@, url@, params_view(params@)),
                entry_of(response@, now),
            ),
    {
        let key = cache_key(method, url, params);
        let entry = CacheEntry {
            response_body: response.body.clone(),
            timestamp: now,
            etag: crate::log_types::clone_opt_string(&response.etag),
            status_code: response.status_code,
        };
        self.insert_entry(key, entry);
    }

    /// Stores `response` under the request's key, stamped with the current time.
    pub fn set(&mut self, method: &str, url: &str, params: &[(&str, &str)], response: &CachedResponse)
        requires
            old(self).wf(),
        ensures
            final(self).wf(),
            final(self)@.ttl_seconds == old(self)@.ttl_seconds,
            exists|now: u64|
                final(self)@.entries == old(self)@.entries.insert(
                    spec_cache_key(method@, url@, params_view(params@)),
                    #[trigger] entry_of(response@, now),
                ),
    {
        let now = unix_now();
        self.set_at(method, url, params, response, now);
    }
}

} // verus!

verus! {

impl ApiCache {
    /// Restamps the entry under the request's key with time `now` (after a
    /// 304 Not Modified); nothing changes where there is no such entry.
    pub fn touch_at(&mut self, method: &str, url: &str, params: &[(&str, &str)], now: u64)
        requires
            old(self).wf(),
        ensures
            final(self).wf(),
            final(self)@.ttl_seconds == old(self)@.ttl_seconds,
            ({
                let key = spec_cache_key(method@, url@, params_view(params@));
                if old(self)@.entries.contains_key(key) {
                    final(self)@.entries == old(self)@.entries.insert(
                        key,
                        CacheEntryView { timestamp: now, ..old(self)@.entries[key] },
                    )
                } else {
                    final(self)@.entries == old(self)@.entries
                }
            }),
    {
        let key = cache_key(method, url, params);
        let ghost s = entries_view(self.entries@);
        match self.find(&key) {
            Some(i) => {
                proof {
                    lemma_map_has(s, i as int);
                }
                let mut entry = self.entries[i].1.clone();
                entry.timestamp = now;
                let ghost ev = entry@;
                proof {
                    lemma_map_update(s, i as int, ev);
                }
                self.entries.set(i, (key, entry));
                assert(entries_view(self.entries@) =~= s.update(i as int, (s[i as int].0, ev)));
            },
            None => {},
        }
    }

    /// Restamps the entry under the request's key with the current time.
    pub fn touch(&mut self, method: &str, url: &str, params: &[(&str, &str)])
        requires
            old(self).wf(),
        ensures
            final(self).wf(),
            final(self)@.ttl_seconds == old(self)@.ttl_seconds,
            ({
                let key = spec_cache_key(method@, url@, params_view(params@));
                if old(self)@.entries.contains_key(key) {
                    exists|now: u64|
                        final(self)@.entries == old(self)@.entries.insert(
                            key,
                            #[trigger] entry_with_time(old(self)@.entries[key], now),
                        )
                } else {
                    final(self)@.entries == old(self)@.entries
                }
            }),
    {
        let now = unix_now();
        self.touch_at(method, url, params, now);
        assert(entry_with_time(old(self)@.entries[spec_cache_key(method@, url@, params_view(params@))], now)
            == CacheEntryView { timestamp: now, ..old(self)@.entries[spec_cache_key(method@, url@, params_view(params@))] });
    }

    /// Removes the entry under the request's key, if any.
    pub fn invalidate(&mut self, method: &str, url: &str, params: &[(&str, &str)])
        requires
            old(self).wf(),
        ensures
            final(self).wf(),
            final(self)@.ttl_seconds == old(self)@.ttl_seconds,
            final(self)@.entries == old(self)@.entries.remove(spec_cache_key(method@, url@, params_view(params@))),
    {
        let key = cache_key(method, url, params);
        let ghost s = entries_view(self.entries@);
        match self.find(&key) {
            Some(i) => {
                proof {
                    lemma_map_remove(s, i as int);
                }
                self.entries.remove(i);
                assert(entries_view(self.entries@) =~= s.remove(i as int));
            },
            None => {
                assert(self@.entries.remove(key@) =~= self@.entries);
            },
        }
    }

    /// Removes every entry whose key contains `pattern` (such as all the
    /// requests about one repository).
    pub fn invalidate_pattern(&mut self, pattern: &str)
        requires
            old(self).wf(),
        ensures
            final(self).wf(),
            final(self)@.ttl_seconds == old(self)@.ttl_seconds,
            final(self)@.entries == without_pattern(old(self)@.entries, pattern@),
    {
        let p = to_chars(pattern);
        let mut old_entries: Vec<(String, CacheEntry)> = Vec::new();
        std::mem::swap(&mut old_entries, &mut self.entries);
        let ghost s = entries_view(old_entries@);
        let ghost m = entry_map(s);
        assert(entries_view(self.entries@) =~= Seq::<(Seq<char>, CacheEntryView)>::empty());
        assert(s.take(0) =~= Seq::<(Seq<char>, CacheEntryView)>::empty());
        assert(without_pattern(entry_map(s.take(0)), p@) =~= Map::<Seq<char>, CacheEntryView>::empty());
        let mut i: usize = 0;
        while i < old_entries.len()
            invariant
                i <= old_entries@.len(),
                s == entries_view(old_entries@),
                keys_distinct(s),
                p@ == pattern@,
                keys_distinct(entries_view(self.entries@)),
                entry_map(entries_view(self.entries@)) == without_pattern(entry_map(s.take(i as int)), p@),
                self.ttl_seconds == old(self).ttl_seconds,
            decreases old_entries@.len() - i,
        {
            let ghost kept = entries_view(self.entries@);
            let ghost k = s[i as int].0;
            let key_chars = to_chars(old_entries[i].0.as_str());
            assert(s.take(i + 1).drop_last() =~= s.take(i as int));
            assert(s.take(i + 1).last() == s[i as int]);
            proof {
                assert(keys_distinct(s.take(i as int)));
                assert forall|j: int| 0 <= j < i implies s.take(i as int)[j].0 != k by {}
                lemma_map_lacks(s.take(i as int), k);
            }
            if !contains(key_chars.as_slice(), p.as_slice()) {
                let item = (old_entries[i].0.clone(), old_entries[i].1.clone());
                self.entries.push(item);
                proof {
                    assert(entries_view(self.entries@) =~= kept.push((k, s[i as int].1)));
                    assert(entries_view(self.entries@).drop_last() =~= kept);
                    if exists|j: int| 0 <= j < kept.len() && kept[j].0 == k {
                        let j = choose|j: int| 0 <= j < kept.len() && kept[j].0 == k;
                        lemma_map_has(kept, j);
                    }
                    assert(entry_map(entries_view(self.entries@)) =~= without_pattern(entry_map(s.take(i + 1)), p@));
                }
            } else {
                assert(entry_map(entries_view(self.entries@)) =~= without_pattern(entry_map(s.take(i + 1)), p@));
            }
            i = i + 1;
        }
        assert(s.take(i as int) =~= s);
    }

    /// Removes every entry.
    pub fn clear(&mut self)
        requires
            old(self).wf(),
        ensures
            final(self).wf(),
            final(self)@.ttl_seconds == old(self)@.ttl_seconds,
            final(self)@.entries == Map::<Seq<char>, CacheEntryView>::empty(),
    {
        self.entries = Vec::new();
        assert(entries_view(self.entries@) =~= Seq::<(Seq<char>, CacheEntryView)>::empty());
    }

    /// Counts of all, fresh and stale entries at time `now`.
    pub fn stats_at(&self, now: u64) -> (r: CacheStats)
        requires
            self.wf(),
        ensures
            r.total_entries == self@.entries.len(),
            r.fresh_entries == fresh_keys(self@.entries, now, self@.ttl_seconds).len(),
            r.stale_entries == r.total_entries - r.fresh_entries,
            r.ttl_seconds == self@.ttl_seconds,
    {
        let ghost s = entries_view(self.entries@);
        let mut fresh: usize = 0;
        let mut i: usize = 0;
        assert(s.take(0) =~= Seq::<(Seq<char>, CacheEntryView)>::empty());
        while i < self.entries.len()
            invariant
                i <= self.entries@.len(),
                s == entries_view(self.entries@),
                fresh == count_fresh(s.take(i as int), now, self.ttl_seconds),
                fresh <= i,
            decreases self.entries@.len() - i,
        {
            assert(s.take(i + 1).drop_last() =~= s.take(i as int));
            if now.wrapping_sub(self.entries[i].1.timestamp) < self.ttl_seconds {
                fresh = fresh + 1;
            }
            i = i + 1;
        }
        proof {
            assert(s.take(i as int) =~= s);
            lemma_fresh_count(s, now, self.ttl_seconds);
            lemma_map_len(s);
        }
        CacheStats {
            total_entries: self.entries.len(),
            fresh_entries: fresh,
            stale_entries: self.entries.len() - fresh,
            ttl_seconds: self.ttl_seconds,
        }
    }

    /// Counts of all, fresh and stale entries at the current time.
    pub fn stats(&self) -> (r: CacheStats)
        requires
            self.wf(),
        ensures
            r.total_entries == self@.entries.len(),
            r.stale_entries == r.total_entries - r.fresh_entries,
            r.fresh_entries <= r.total_entries,
            r.ttl_seconds == self@.ttl_seconds,
            exists|now: u64| r.fresh_entries == #[trigger] fresh_keys(self@.entries, now, self@.ttl_seconds).len(),
    {
        let now = unix_now();
        self.stats_at(now)
    }
}

/// `e` restamped with time `now`.
pub open spec fn entry_with_time(e: CacheEntryView, now: u64) -> CacheEntryView {
    CacheEntryView { timestamp: now, ..e }
}

} // verus!

verus! {

impl Default for ApiCache {
    /// An empty cache with the default time to live.
    fn default() -> (r: Self)
        ensures
            r.wf(),
            r@.ttl_seconds == DEFAULT_TTL_SECONDS,
            r@.entries == Map::<Seq<char>, CacheEntryView>::empty(),
    {
        ApiCache::new()
    }
}

} // verus!

verus! {

/// Two query parameters with the same name also have the same value.
pub open spec fn names_determine_values(p: Seq<(Seq<char>, Seq<char>)>) -> bool {
    forall|i: int, j: int| 0 <= i < p.len() && 0 <= j < p.len() && (#[trigger] p[i]).0 == (#[trigger] p[j]).0 ==> p[i] == p[j]
}

/// The cache key does not depend on the order in which the query parameters
/// are given, where no name comes with two different values.
pub proof fn law_cache_key_ignores_param_order(
    method: Seq<char>,
    url: Seq<char>,
    p1: Seq<(Seq<char>, Seq<char>)>,
    p2: Seq<(Seq<char>, Seq<char>)>,
)
    requires
        p1.to_multiset() == p2.to_multiset(),
        names_determine_values(p1),
    ensures
        spec_cache_key(method, url, p1) == spec_cache_key(method, url, p2),
{
    broadcast use vstd::seq_lib::group_to_multiset_ensures;

    vstd::seq_lib::to_multiset_len(p1);
    vstd::seq_lib::to_multiset_len(p2);
    let le = param_key_le();
    assert forall|a: (Seq<char>, Seq<char>), b: (Seq<char>, Seq<char>)| #[trigger] le(a, b) || le(b, a) by {
        crate::sort::lemma_lex_total(a.0, b.0);
    }
    assert forall|a: (Seq<char>, Seq<char>), b: (Seq<char>, Seq<char>), c: (Seq<char>, Seq<char>)| #[trigger] le(a, b) && #[trigger] le(b, c) implies le(a, c) by {
        crate::sort::lemma_lex_transitive(a.0, b.0, c.0);
    }
    let s1 = sorted_by(p1, le);
    let s2 = sorted_by(p2, le);
    crate::sort::lemma_sorted_by_is_sorted(p1, le);
    crate::sort::lemma_sorted_by_is_sorted(p2, le);
    crate::sort::lemma_sorted_multiset(p1, le);
    crate::sort::lemma_sorted_multiset(p2, le);
    assert forall|x: (Seq<char>, Seq<char>), y: (Seq<char>, Seq<char>)| s1.contains(x) && s1.contains(y) && le(x, y) && le(y, x) implies x == y by {
        assert(s1.to_multiset().count(x) > 0);
        assert(s1.to_multiset().count(y) > 0);
        assert(p1.contains(x));
        assert(p1.contains(y));
        let i = choose|i: int| 0 <= i < p1.len() && p1[i] == x;
        let j = choose|j: int| 0 <= j < p1.len() && p1[j] == y;
        crate::sort::lemma_lex_antisymmetric(x.0, y.0);
        assert(p1[i].0 == p1[j].0);
    }
    crate::sort::lemma_sorted_unique(s1, s2, le);
}

} // verus!

verus! {

/// What a read gives back of a write: right after storing a response under a
/// key, reading that key at the same time gives the response back (with any
/// time to live above zero); other keys keep what they had; and after an
/// invalidation the key is missing.
pub proof fn law_read_after_write(
    m: Map<Seq<char>, CacheEntryView>,
    key: Seq<char>,
    other: Seq<char>,
    r: CachedResponseView,
    now: u64,
    ttl: u64,
)
    requires
        ttl > 0,
        other != key,
    ensures
        m.insert(key, entry_of(r, now)).contains_key(key),
        response_of(now, ttl, m.insert(key, entry_of(r, now))[key]) == r,
        m.insert(key, entry_of(r, now)).contains_key(other) == m.contains_key(other),
        m.contains_key(other) ==> m.insert(key, entry_of(r, now))[other] == m[other],
        !m.remove(key).contains_key(key),
{
    law_read_back_stored(r, now, now, ttl);
}


// ---------------------------------------------------------------------------
// The cache file and the switch

/// Version of the cache file's format; a file of another version is ignored.
pub const CACHE_FILE_VERSION: u8 = 1;

/// Whether a cache file of `version` can be read.
pub fn accepts_version(version: u8) -> (r: bool)
    ensures
        r == (version == CACHE_FILE_VERSION),
{
    version == CACHE_FILE_VERSION
}

/// Whether the cache is used, given the value of the setting that turns it
/// off (`None` where it is not set): it is on unless the setting is `1` or,
/// in any case, `true`.
pub fn cache_enabled(setting: Option<&str>) -> (r: bool)
    ensures
        match setting {
            None => r,
            Some(v) => r == !(v@ == "1"@ || crate::text::spec_to_lowercase(v@) == "true"@),
        },
{
    match setting {
        None => true,
        Some(v) => {
            let chars = to_chars(v);
            let one = to_chars("1");
            if crate::text::eq_chars(chars.as_slice(), one.as_slice()) {
                return false;
            }
            let lower = crate::text::lowercase(v);
            let lower_chars = to_chars(lower.as_str());
            let t = to_chars("true");
            !crate::text::eq_chars(lower_chars.as_slice(), t.as_slice())
        },
    }
}

} // verus!
