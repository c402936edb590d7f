//! Query-string and path parameter extraction for the HTTP API.

use vstd::prelude::*;
use vstd::string::*;

use crate::text::{
    chars_of, chars_range_eq, ends_with, find_char, find_from, lemma_find_from, lemma_find_from_bounds, parse_i64,
    parse_usize, spec_parse_i64, spec_parse_usize, starts_with, str_ends_with, str_starts_with,
};

verus! {

/// View of an optional string slice.
pub open spec fn opt_str_view(o: Option<&str>) -> Option<Seq<char>> {
    match o {
        Some(s) => Some(s@),
        None => None,
    }
}

/// Value of the first `key=value` pair named `key` among the `&`-separated
/// segments of `q` that start at or after index `p` (`p` is a segment start).
/// A segment without `=` is skipped; the value runs from the first `=` to the
/// end of the segment.
pub open spec fn spec_get_from(q: Seq<char>, p: int, key: Seq<char>) -> Option<Seq<char>>
    decreases q.len() - p,
{
    if p < 0 || p > q.len() {
        None
    } else {
        let end = find_from(q, p, '&', q.len() as int);
        let e = find_from(q, p, '=', end);
        if e < end && q.subrange(p, e) == key {
            Some(q.subrange(e + 1, end))
        } else if end < q.len() {
            proof {
                lemma_find_from_bounds(q, p, '&', q.len() as int);
            }
            spec_get_from(q, end + 1, key)
        } else {
            None
        }
    }
}

/// The value that `QueryParams::get` finds for `key` in an optional query.
pub open spec fn spec_query_get(q: Option<Seq<char>>, key: Seq<char>) -> Option<Seq<char>> {
    match q {
        Some(s) => spec_get_from(s, 0, key),
        None => None,
    }
}

/// `get(key).and_then(|v| v.parse::<i64>().ok())`.
pub open spec fn spec_query_i64(q: Option<Seq<char>>, key: Seq<char>) -> Option<i64> {
    match spec_query_get(q, key) {
        Some(v) => spec_parse_i64(v),
        None => None,
    }
}

/// `get(key).and_then(|v| v.parse::<usize>().ok())`.
pub open spec fn spec_query_usize(q: Option<Seq<char>>, key: Seq<char>) -> Option<usize> {
    match spec_query_get(q, key) {
        Some(v) => spec_parse_usize(v),
        None => None,
    }
}

/// The `&`-separated segments of `q` from index `p` on (`str::split('&')`).
pub open spec fn amp_segments_from(q: Seq<char>, p: int) -> Seq<Seq<char>>
    decreases q.len() - p,
{
    if p < 0 || p > q.len() {
        Seq::empty()
    } else {
        let end = find_from(q, p, '&', q.len() as int);
        if end < q.len() {
            proof {
                lemma_find_from_bounds(q, p, '&', q.len() as int);
            }
            seq![q.subrange(p, end)] + amp_segments_from(q, end + 1)
        } else {
            seq![q.subrange(p, q.len() as int)]
        }
    }
}

/// `seg.split_once('=')`: the text before the first `=` and the rest after it.
pub open spec fn split_once_eq(seg: Seq<char>) -> Option<(Seq<char>, Seq<char>)> {
    let e = find_from(seg, 0, '=', seg.len() as int);
    if e < seg.len() {
        Some((seg.subrange(0, e), seg.subrange(e + 1, seg.len() as int)))
    } else {
        None
    }
}

/// The value of the first segment that splits at `=` into `key` and a value.
pub open spec fn first_value(segs: Seq<Seq<char>>, key: Seq<char>) -> Option<Seq<char>>
    decreases segs.len(),
{
    if segs.len() == 0 {
        None
    } else {
        match split_once_eq(segs[0]) {
            Some((k, v)) => if k == key {
                Some(v)
            } else {
                first_value(segs.drop_first(), key)
            },
            None => first_value(segs.drop_first(), key),
        }
    }
}

/// `find_from` within a slice of a sequence is `find_from` on the sequence,
/// shifted.
proof fn lemma_find_in_subrange(q: Seq<char>, p: int, end: int, c: char)
    requires
        0 <= p <= end <= q.len(),
    ensures
        find_from(q.subrange(p, end), 0, c, end - p) == find_from(q, p, c, end) - p,
{
    lemma_find_from_bounds(q, p, c, end);
    let f = find_from(q, p, c, end);
    let seg = q.subrange(p, end);
    assert forall|k: int| 0 <= k < f - p implies seg[k] != c by {
        assert(seg[k] == q[p + k]);
    }
    if f < end {
        assert(seg[f - p] == q[f]);
    }
    lemma_find_from(seg, 0, c, end - p, f - p);
}

/// A query holds, for a key, the value of its first `&`-separated segment
/// that splits at the first `=` into that key and a value; the value is
/// given verbatim (not decoded, and it may hold further `=`). Without such
/// a segment, or without a query, there is no value.
pub proof fn law_query_get_first_match(q: Option<Seq<char>>, key: Seq<char>)
    ensures
        spec_query_get(q, key) == match q {
            Some(s) => first_value(amp_segments_from(s, 0), key),
            None => None,
        },
{
    if let Some(s) = q {
        lemma_get_from_segments(s, 0, key);
    }
}

proof fn lemma_get_from_segments(q: Seq<char>, p: int, key: Seq<char>)
    requires
        0 <= p <= q.len(),
    ensures
        spec_get_from(q, p, key) == first_value(amp_segments_from(q, p), key),
    decreases q.len() - p,
{
    let end = find_from(q, p, '&', q.len() as int);
    lemma_find_from_bounds(q, p, '&', q.len() as int);
    let seg = q.subrange(p, end);
    let e = find_from(q, p, '=', end);
    lemma_find_from_bounds(q, p, '=', end);
    lemma_find_in_subrange(q, p, end, '=');
    let segs = amp_segments_from(q, p);
    assert(segs[0] == seg);
    if e < end {
        assert(seg.subrange(0, e - p) =~= q.subrange(p, e));
        assert(seg.subrange(e - p + 1, seg.len() as int) =~= q.subrange(e + 1, end));
    }
    if end < q.len() {
        lemma_get_from_segments(q, end + 1, key);
        assert(segs.drop_first() =~= amp_segments_from(q, end + 1));
    } else {
        assert(segs.drop_first() =~= Seq::<Seq<char>>::empty());
    }
}

/// Simple parser over an optional raw query string (`a=1&b=2`).
pub struct QueryParams<'a> {
    query: Option<&'a str>,
}

impl<'a> View for QueryParams<'a> {
    type V = Option<Seq<char>>;

    closed spec fn view(&self) -> Option<Seq<char>> {
        opt_str_view(self.query)
    }
}

impl<'a> QueryParams<'a> {
    pub fn new(query: Option<&'a str>) -> (r: Self)
        ensures
            r@ == opt_str_view(query),
    {
        Self { query }
    }

    /// Value of the first `key=value` segment named `key`.
    pub fn get(&self, key: &str) -> (r: Option<&'a str>)
        ensures
            opt_str_view(r) == spec_query_get(self@, key@),
    {
        match self.query {
            None => None,
            Some(q) => get_in(q, key),
        }
    }

    /// The value for `key` parsed as `i64`, or `default`.
    pub fn get_i64(&self, key: &str, default: i64) -> (r: i64)
        ensures
            r == (match spec_query_i64(self@, key@) {
                Some(v) => v,
                None => default,
            }),
    {
        match self.get_optional_i64(key) {
            Some(v) => v,
            None => default,
        }
    }

    /// The value for `key` parsed as `usize`, or `default`.
    pub fn get_usize(&self, key: &str, default: usize) -> (r: usize)
        ensures
            r == (match spec_query_usize(self@, key@) {
                Some(v) => v,
                None => default,
            }),
    {
        match self.get_optional_usize(key) {
            Some(v) => v,
            None => default,
        }
    }

    /// The value for `key` parsed as `i64`, if present and well-formed.
    pub fn get_optional_i64(&self, key: &str) -> (r: Option<i64>)
        ensures
            r == spec_query_i64(self@, key@),
    {
        match self.get(key) {
            Some(v) => parse_i64(v),
            None => None,
        }
    }

    /// The value for `key` parsed as `usize`, if present and well-formed.
    pub fn get_optional_usize(&self, key: &str) -> (r: Option<usize>)
        ensures
            r == spec_query_usize(self@, key@),
    {
        match self.get(key) {
            Some(v) => parse_usize(v),
            None => None,
        }
    }
}

/// Scan of the segments of `q` for `key`.
fn get_in<'b>(q: &'b str, key: &str) -> (r: Option<&'b str>)
    ensures
        opt_str_view(r) == spec_get_from(q@, 0, key@),
{
    let v = chars_of(q);
    let k = chars_of(key);
    let len = v.len();
    let mut p: usize = 0;
    loop
        invariant
            v@ == q@,
            k@ == key@,
            len == v.len(),
            p <= len,
            spec_get_from(q@, 0, key@) == spec_get_from(q@, p as int, key@),
        decreases len - p,
    {
        let end = find_char(&v, p, '&', len);
        let e = find_char(&v, p, '=', end);
        if e < end && chars_range_eq(&v, p, e, &k) {
            return Some(q.substring_char(e + 1, end));
        }
        if end < len {
            p = end + 1;
        } else {
            return None;
        }
    }
}

/// Path prefix of the device-state route.
pub const DEVICE_STATE_PREFIX: &'static str = "/api/devices/";

/// Path suffix of the device-state route.
pub const DEVICE_STATE_SUFFIX: &'static str = "/state";

/// The device id of `/api/devices/{id}/state`, when a non-empty `id` lies
/// between the prefix and the suffix; `None` for every other path (also
/// where prefix and suffix overlap, as in `/api/devices/state`).
pub open spec fn spec_device_state_id(p: Seq<char>) -> Option<Seq<char>> {
    if starts_with(p, DEVICE_STATE_PREFIX@) && ends_with(p, DEVICE_STATE_SUFFIX@) && p.len()
        > DEVICE_STATE_PREFIX@.len() + DEVICE_STATE_SUFFIX@.len() {
        Some(p.subrange(DEVICE_STATE_PREFIX@.len() as int, p.len() - DEVICE_STATE_SUFFIX@.len()))
    } else {
        None
    }
}

/// Typed extractor for device state routes: `/api/devices/{id}/state`.
pub struct DeviceStatePath<'a> {
    pub device_id: &'a str,
}

impl<'a> DeviceStatePath<'a> {
    pub fn parse(path: &'a str) -> (r: Option<Self>)
        ensures
            match r {
                Some(d) => spec_device_state_id(path@) == Some(d.device_id@),
                None => spec_device_state_id(path@) is None,
            },
    {
        if str_starts_with(path, DEVICE_STATE_PREFIX) && str_ends_with(path, DEVICE_STATE_SUFFIX) {
            let n = path.unicode_len();
            let lo = DEVICE_STATE_PREFIX.unicode_len();
            let sl = DEVICE_STATE_SUFFIX.unicode_len();
            if n > lo && n - lo > sl {
                let id = path.substring_char(lo, n - sl);
                return Some(Self { device_id: id });
            }
        }
        None
    }
}

/// A non-empty id read back from its device-state path gives the id, and a
/// path that yields an id is exactly the prefix, that non-empty id and the
/// suffix.
pub proof fn law_device_state_path_roundtrip(id: Seq<char>, p: Seq<char>)
    ensures
        id.len() > 0 ==> spec_device_state_id(DEVICE_STATE_PREFIX@ + id + DEVICE_STATE_SUFFIX@) == Some(id),
        spec_device_state_id(p) matches Some(d) ==> d.len() > 0 && p == DEVICE_STATE_PREFIX@ + d
            + DEVICE_STATE_SUFFIX@,
{
    let pre = DEVICE_STATE_PREFIX@;
    let suf = DEVICE_STATE_SUFFIX@;
    if id.len() > 0 {
        let q = pre + id + suf;
        assert(q.subrange(0, pre.len() as int) =~= pre);
        assert(q.subrange(q.len() - suf.len(), q.len() as int) =~= suf);
        assert(q.subrange(pre.len() as int, q.len() - suf.len()) =~= id);
    }
    if let Some(d) = spec_device_state_id(p) {
        assert(p =~= pre + d + suf);
    }
}

/// The execution-log page size: `limit` (default 100) clamped to `[1, 1000]`.
pub open spec fn spec_logs_limit(q: Option<Seq<char>>) -> i64 {
    let v = match spec_query_i64(q, "limit"@) {
        Some(v) => v,
        None => 100,
    };
    if v < 1 {
        1
    } else if v > 1000 {
        1000
    } else {
        v
    }
}

/// Helper for parsing `/api/automation/logs` query parameters.
pub struct ExecutionLogsQuery<'a> {
    params: QueryParams<'a>,
}

impl<'a> View for ExecutionLogsQuery<'a> {
    type V = Option<Seq<char>>;

    closed spec fn view(&self) -> Option<Seq<char>> {
        self.params@
    }
}

impl<'a> ExecutionLogsQuery<'a> {
    pub fn new(query: Option<&'a str>) -> (r: Self)
        ensures
            r@ == opt_str_view(query),
    {
        Self { params: QueryParams::new(query) }
    }

    /// Limit the number of rows returned, clamped to [1, 1000].
    pub fn limit(&self) -> (r: i64)
        ensures
            r == spec_logs_limit(self@),
            1 <= r <= 1000,
    {
        let value = self.params.get_i64("limit", 100);
        if value < 1 {
            1
        } else if value > 1000 {
            1000
        } else {
            value
        }
    }
}

} // verus!
