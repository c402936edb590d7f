//! HTTP response cache keyed by request path and query, with a time-to-live
//! and content-derived ETags.

use std::hash::{Hash, Hasher};

use vstd::prelude::*;
use vstd::string::*;

use crate::text::{push_decimal, nat_decimal, str_eq};

verus! {

/// Cache key: request path and query string (empty when absent).
#[derive(Debug, Clone)]
pub struct CacheKey {
    pub path: String,
    pub query: String,
}

impl CacheKey {
    pub fn new(path: &str, query: Option<&str>) -> (r: Self)
        ensures
            r.path@ == path@,
            r.query@ == (match query {
                Some(q) => q@,
                None => Seq::<char>::empty(),
            }),
    {
        let q = match query {
            Some(q) => String::from_str(q),
            None => String::new(),
        };
        CacheKey { path: String::from_str(path), query: q }
    }
}

/// A cached response.
#[derive(Debug)]
pub struct CachedResponse {
    pub body: Vec<u8>,
    pub etag: String,
    /// Storage time, nanoseconds since the Unix epoch (negative before it)
    pub timestamp: i128,
}

/// The 64-bit digest of `DefaultHasher::new()` over a byte slice (length
/// prefix, then the bytes, as `<[u8] as Hash>` writes them). `DefaultHasher::new()`
/// is not randomly seeded, so the digest depends on the bytes alone for a
/// given standard library.
pub uninterp spec fn default_hash(data: Seq<u8>) -> u64;

/// `DefaultHasher` digest of a byte slice; the contract names the result.
#[verifier::external_body]
fn hash_bytes(data: &[u8]) -> (h: u64)
    ensures
        h == default_hash(data@),
{
    let mut hasher = std::collections::hash_map::DefaultHasher::new();
    data.hash(&mut hasher);
    hasher.finish()
}

/// `SystemTime::now()` as signed nanoseconds since the Unix epoch. The value
/// depends on the clock; nothing is stated about it.
#[verifier::external_body]
pub(crate) fn system_time_nanos() -> (t: i128) {
    match std::time::SystemTime::now().duration_since(std::time::UNIX_EPOCH) {
        Ok(d) => d.as_nanos() as i128,
        Err(e) => -(e.duration().as_nanos() as i128),
    }
}

/// ETag of a body: its digest in decimal, between double quotes.
pub open spec fn spec_etag(body: Seq<u8>) -> Seq<char> {
    seq!['"'] + nat_decimal(default_hash(body) as nat) + seq!['"']
}

/// An entry stored at `ts` is still fresh at `now`: the clock has not gone
/// back and less than the time-to-live has elapsed.
pub open spec fn is_fresh(ts: i128, now: i128, ttl_seconds: u64) -> bool {
    ts <= now && now - ts < ttl_seconds * 1_000_000_000
}

/// `now - ts < ttl_nanos`, for `ts <= now`, without overflow.
fn fresh_gap(now: i128, ts: i128, ttl_nanos: i128) -> (b: bool)
    requires
        ts <= now,
        ttl_nanos >= 0,
    ensures
        b == (now - ts < ttl_nanos),
{
    if ts >= 0 || now < 0 {
        now - ts < ttl_nanos
    } else {
        now < ttl_nanos + ts
    }
}

/// One cached entry, flattened.
pub struct CacheEntry {
    pub path: String,
    pub query: String,
    pub body: Vec<u8>,
    pub etag: String,
    pub timestamp: i128,
}

/// The abstract value of an entry.
pub struct EntryView {
    pub body: Seq<u8>,
    pub etag: Seq<char>,
    pub timestamp: i128,
}

pub open spec fn entry_key(e: CacheEntry) -> (Seq<char>, Seq<char>) {
    (e.path@, e.query@)
}

pub open spec fn entry_view(e: CacheEntry) -> EntryView {
    EntryView { body: e.body@, etag: e.etag@, timestamp: e.timestamp }
}

/// Keys of the entries are pairwise distinct.
pub open spec fn entry_keys_unique(s: Seq<CacheEntry>) -> bool {
    forall|i: int, j: int| 0 <= i < j < s.len() ==> entry_key(#[trigger] s[i]) != entry_key(#[trigger] s[j])
}

/// The entry stored under `k`, if any.
pub open spec fn spec_entry(s: Seq<CacheEntry>, k: (Seq<char>, Seq<char>)) -> Option<EntryView> {
    if exists|i: int| 0 <= i < s.len() && entry_key(#[trigger] s[i]) == k {
        Some(entry_view(s[choose|i: int| 0 <= i < s.len() && entry_key(#[trigger] s[i]) == k]))
    } else {
        None
    }
}

/// Number of fresh entries.
pub open spec fn count_fresh(s: Seq<CacheEntry>, now: i128, ttl: u64) -> nat
    decreases s.len(),
{
    if s.len() == 0 {
        0
    } else {
        count_fresh(s.drop_last(), now, ttl) + if is_fresh(s.last().timestamp, now, ttl) { 1nat } else { 0nat }
    }
}

proof fn lemma_entry_at(s: Seq<CacheEntry>, i: int)
    requires
        entry_keys_unique(s),
        0 <= i < s.len(),
    ensures
        spec_entry(s, entry_key(s[i])) == Some(entry_view(s[i])),
{
    let k = entry_key(s[i]);
    assert(exists|j: int| 0 <= j < s.len() && entry_key(#[trigger] s[j]) == k);
    let c = choose|j: int| 0 <= j < s.len() && entry_key(#[trigger] s[j]) == k;
    if c != i {
        if c < i {
            assert(entry_key(s[c]) != entry_key(s[i]));
        } else {
            assert(entry_key(s[i]) != entry_key(s[c]));
        }
    }
}

proof fn lemma_entry_via(s: Seq<CacheEntry>, k: (Seq<char>, Seq<char>))
    requires
        entry_keys_unique(s),
    ensures
        spec_entry(s, k) is Some <==> exists|j: int| 0 <= j < s.len() && entry_key(#[trigger] s[j]) == k,
        forall|j: int| 0 <= j < s.len() && entry_key(#[trigger] s[j]) == k ==> spec_entry(s, k) == Some(
            entry_view(s[j]),
        ),
{
    assert forall|j: int| 0 <= j < s.len() && entry_key(#[trigger] s[j]) == k implies spec_entry(s, k)
        == Some(entry_view(s[j])) by {
        lemma_entry_at(s, j);
    }
}

/// Generic HTTP response cache with time-to-live invalidation.
pub struct ResponseCache {
    entries: Vec<CacheEntry>,
    ttl_seconds: u64,
}

impl ResponseCache {
    /// One entry per key.
    pub closed spec fn wf(&self) -> bool {
        entry_keys_unique(self.entries@)
    }

    /// What is stored under a key, fresh or not.
    pub closed spec fn stored(&self, path: Seq<char>, query: Seq<char>) -> Option<EntryView> {
        spec_entry(self.entries@, (path, query))
    }

    /// Time-to-live in seconds.
    pub closed spec fn ttl(&self) -> u64 {
        self.ttl_seconds
    }

    /// Number of stored entries.
    pub closed spec fn size(&self) -> nat {
        self.entries@.len()
    }

    /// Number of entries fresh at `now`.
    pub closed spec fn fresh_count(&self, now: i128) -> nat {
        count_fresh(self.entries@, now, self.ttl_seconds)
    }

    /// An empty cache whose entries live `ttl_seconds`.
    pub fn new(ttl_seconds: u64) -> (r: Self)
        ensures
            r.wf(),
            r.ttl() == ttl_seconds,
            r.size() == 0,
            forall|p: Seq<char>, q: Seq<char>| r.stored(p, q) is None,
    {
        ResponseCache { entries: Vec::new(), ttl_seconds }
    }

    fn position(&self, key: &CacheKey) -> (r: Option<usize>)
        ensures
            match r {
                Some(i) => i < self.entries@.len() && entry_key(self.entries@[i as int]) == (key.path@, key.query@),
                None => forall|j: int| 0 <= j < self.entries@.len() ==> entry_key(#[trigger] self.entries@[j]) != (key.path@, key.query@),
            },
    {
        let mut i: usize = 0;
        while i < self.entries.len()
            invariant
                i <= self.entries.len(),
                forall|j: int| 0 <= j < i ==> entry_key(#[trigger] self.entries@[j]) != (key.path@, key.query@),
            decreases self.entries.len() - i,
        {
            let e = &self.entries[i];
            if str_eq(e.path.as_str(), key.path.as_str()) && str_eq(e.query.as_str(), key.query.as_str()) {
                return Some(i);
            }
            i = i + 1;
        }
        None
    }

    /// The cached response for a request at time `now`, if stored and fresh.
    pub fn get_at(&self, path: &str, query: Option<&str>, now: i128) -> (r: Option<CachedResponse>)
        requires
            self.wf(),
        ensures
            ({
                let q = match query { Some(q) => q@, None => Seq::<char>::empty() };
                match self.stored(path@, q) {
                    Some(e) => if is_fresh(e.timestamp, now, self.ttl()) {
                        r matches Some(c) && c.body@ == e.body && c.etag@ == e.etag && c.timestamp == e.timestamp
                    } else {
                        r is None
                    },
                    None => r is None,
                }
            }),
    {
        let key = CacheKey::new(path, query);
        proof {
            lemma_entry_via(self.entries@, (key.path@, key.query@));
        }
        match self.position(&key) {
            None => None,
            Some(i) => {
                let e = &self.entries[i];
                let ttl_nanos: i128 = (self.ttl_seconds as i128) * 1_000_000_000;
                if e.timestamp <= now && fresh_gap(now, e.timestamp, ttl_nanos) {
                    Some(CachedResponse {
                        body: vstd::slice::slice_to_vec(e.body.as_slice()),
                        etag: e.etag.clone(),
                        timestamp: e.timestamp,
                    })
                } else {
                    None
                }
            },
        }
    }

    /// The cached response for a request, if stored and fresh now.
    pub fn get(&self, path: &str, query: Option<&str>) -> (r: Option<CachedResponse>)
        requires
            self.wf(),
        ensures
            ({
                let q = match query { Some(q) => q@, None => Seq::<char>::empty() };
                r matches Some(c) ==> self.stored(path@, q) == Some(
                    EntryView { body: c.body@, etag: c.etag@, timestamp: c.timestamp },
                )
            }),
            r matches Some(c) ==> exists|now: i128| is_fresh(c.timestamp, now, self.ttl()),
    {
        let now = system_time_nanos();
        let r = self.get_at(path, query, now);
        proof {
            if r is Some {
                assert(is_fresh(r->0.timestamp, now, self.ttl()));
            }
        }
        r
    }

    /// The ETag of a body.
    pub fn generate_etag(body: &[u8]) -> (r: String)
        ensures
            r@ == spec_etag(body@),
    {
        let h = hash_bytes(body);
        let mut s = String::from_str("\"");
        proof {
            reveal_strlit("\"");
        }
        push_decimal(&mut s, h as u128);
        s.append("\"");
        assert(s@ =~= spec_etag(body@));
        s
    }

    /// Store a body under a request at time `now`; returns its ETag.
    pub fn put_at(&mut self, path: &str, query: Option<&str>, body: Vec<u8>, now: i128) -> (etag: String)
        requires
            old(self).wf(),
        ensures
            final(self).wf(),
            final(self).ttl() == old(self).ttl(),
            etag@ == spec_etag(body@),
            ({
                let q = match query { Some(q) => q@, None => Seq::<char>::empty() };
                &&& final(self).stored(path@, q) == Some(EntryView { body: body@, etag: etag@, timestamp: now })
                &&& forall|p2: Seq<char>, q2: Seq<char>| (p2, q2) != (path@, q) ==> final(self).stored(p2, q2)
                    == old(self).stored(p2, q2)
            }),
    {
        let key = CacheKey::new(path, query);
        let etag = Self::generate_etag(body.as_slice());
        let ghost k = (key.path@, key.query@);
        let ghost old_entries = self.entries@;
        let entry = CacheEntry {
            path: key.path.clone(),
            query: key.query.clone(),
            body,
            etag: etag.clone(),
            timestamp: now,
        };
        assert(entry_key(entry) == k);
        match self.position(&key) {
            Some(i) => {
                self.entries.set(i, entry);
                proof {
                    let s = self.entries@;
                    assert(entry_keys_unique(s)) by {
                        assert forall|a: int, b: int| 0 <= a < b < s.len() implies entry_key(#[trigger] s[a])
                            != entry_key(#[trigger] s[b]) by {
                            assert(entry_key(old_entries[a]) != entry_key(old_entries[b]));
                        }
                    }
                    lemma_entry_at(s, i as int);
                    assert forall|p2: Seq<char>, q2: Seq<char>| (p2, q2) != k implies spec_entry(s, (p2, q2))
                        == spec_entry(old_entries, (p2, q2)) by {
                        let k2 = (p2, q2);
                        lemma_entry_via(s, k2);
                        lemma_entry_via(old_entries, k2);
                        if exists|j: int| 0 <= j < s.len() && entry_key(#[trigger] s[j]) == k2 {
                            let j = choose|j: int| 0 <= j < s.len() && entry_key(#[trigger] s[j]) == k2;
                            assert(entry_key(old_entries[j]) == k2);
                        }
                        if exists|j: int| 0 <= j < old_entries.len() && entry_key(#[trigger] old_entries[j]) == k2 {
                            let j = choose|j: int| 0 <= j < old_entries.len() && entry_key(#[trigger] old_entries[j]) == k2;
                            assert(entry_key(s[j]) == k2);
                        }
                    }
                }
            },
            None => {
                self.entries.push(entry);
                proof {
                    let s = self.entries@;
                    let n = old_entries.len() as int;
                    assert(entry_keys_unique(s)) by {
                        assert forall|a: int, b: int| 0 <= a < b < s.len() implies entry_key(#[trigger] s[a])
                            != entry_key(#[trigger] s[b]) by {
                            if b < n {
                                assert(entry_key(old_entries[a]) != entry_key(old_entries[b]));
                            } else {
                                assert(entry_key(old_entries[a]) != k);
                            }
                        }
                    }
                    lemma_entry_at(s, n);
                    assert forall|p2: Seq<char>, q2: Seq<char>| (p2, q2) != k implies spec_entry(s, (p2, q2))
                        == spec_entry(old_entries, (p2, q2)) by {
                        let k2 = (p2, q2);
                        lemma_entry_via(s, k2);
                        lemma_entry_via(old_entries, k2);
                        if exists|j: int| 0 <= j < s.len() && entry_key(#[trigger] s[j]) == k2 {
                            let j = choose|j: int| 0 <= j < s.len() && entry_key(#[trigger] s[j]) == k2;
                            assert(j < n);
                            assert(entry_key(old_entries[j]) == k2);
                        }
                        if exists|j: int| 0 <= j < old_entries.len() && entry_key(#[trigger] old_entries[j]) == k2 {
                            let j = choose|j: int| 0 <= j < old_entries.len() && entry_key(#[trigger] old_entries[j]) == k2;
                            assert(entry_key(s[j]) == k2);
                        }
                    }
                }
            },
        }
        etag
    }

    /// Store a body under a request now; returns its ETag.
    pub fn put(&mut self, path: &str, query: Option<&str>, body: Vec<u8>) -> (etag: String)
        requires
            old(self).wf(),
        ensures
            final(self).wf(),
            final(self).ttl() == old(self).ttl(),
            etag@ == spec_etag(body@),
            ({
                let q = match query { Some(q) => q@, None => Seq::<char>::empty() };
                &&& exists|now: i128| final(self).stored(path@, q) == Some(EntryView { body: body@, etag: etag@, timestamp: now })
                &&& forall|p2: Seq<char>, q2: Seq<char>| (p2, q2) != (path@, q) ==> final(self).stored(p2, q2)
                    == old(self).stored(p2, q2)
            }),
    {
        let now = system_time_nanos();
        self.put_at(path, query, body, now)
    }

    /// Remove every entry.
    pub fn clear(&mut self)
        ensures
            final(self).wf(),
            final(self).ttl() == old(self).ttl(),
            final(self).size() == 0,
            forall|p: Seq<char>, q: Seq<char>| final(self).stored(p, q) is None,
    {
        self.entries = Vec::new();
    }

    /// `(total entries, entries fresh at now)`.
    pub fn stats_at(&self, now: i128) -> (r: (usize, usize))
        ensures
            r.0 == self.size(),
            r.1 == self.fresh_count(now),
    {
        let ttl_nanos: i128 = (self.ttl_seconds as i128) * 1_000_000_000;
        let mut fresh: usize = 0;
        let mut i: usize = 0;
        while i < self.entries.len()
            invariant
                i <= self.entries.len(),
                ttl_nanos == self.ttl_seconds * 1_000_000_000,
                fresh == count_fresh(self.entries@.take(i as int), now, self.ttl_seconds),
                fresh <= i,
            decreases self.entries.len() - i,
        {
            assert(self.entries@.take(i + 1).drop_last() =~= self.entries@.take(i as int));
            let t = self.entries[i].timestamp;
            if t <= now && fresh_gap(now, t, ttl_nanos) {
                fresh = fresh + 1;
            }
            i = i + 1;
        }
        assert(self.entries@.take(i as int) =~= self.entries@);
        (self.entries.len(), fresh)
    }

    /// `(total entries, entries fresh now)`.
    pub fn stats(&self) -> (r: (usize, usize))
        ensures
            r.0 == self.size(),
            exists|now: i128| r.1 == self.fresh_count(now),
    {
        let now = system_time_nanos();
        self.stats_at(now)
    }
}

/// Within the time-to-live, a lookup gives back exactly what the last store
/// under the same key wrote.
pub proof fn law_read_after_write(e: EntryView, body: Seq<u8>, now: i128, later: i128, ttl: u64)
    requires
        e == (EntryView { body, etag: spec_etag(body), timestamp: now }),
        now <= later,
        later - now < ttl * 1_000_000_000,
    ensures
        is_fresh(e.timestamp, later, ttl),
        e.body == body,
        e.etag == spec_etag(body),
{
}

/// Equal bodies get equal ETags.
pub proof fn law_etag_deterministic(a: Seq<u8>, b: Seq<u8>)
    requires
        a == b,
    ensures
        spec_etag(a) == spec_etag(b),
{
}

} // verus!
