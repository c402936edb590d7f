//! Planning of sensor-reading and energy-summary queries from request
//! parameters, and the time arithmetic those queries use.

use vstd::prelude::*;
use vstd::string::*;

use crate::query::{opt_str_view, spec_query_get, spec_query_i64, QueryParams};
use crate::text::{eq_ignore_ascii_case, str_eq, str_eq_ignore_ascii_case};

verus! {

/// Nanoseconds in a second.
pub const NANOS_PER_SEC: i128 = 1_000_000_000;

/// An instant given in nanoseconds since the Unix epoch, as whole seconds
/// (rounded down) and the nanoseconds within that second. Instants whose
/// seconds leave the `i64` range are clamped to its ends.
pub fn epoch_parts(n: i128) -> (r: (i64, u32))
    ensures
        i64::MIN <= n / NANOS_PER_SEC <= i64::MAX ==> r.0 as int == n / NANOS_PER_SEC && r.1 as int == n
            % NANOS_PER_SEC,
        n / NANOS_PER_SEC < i64::MIN ==> r == (i64::MIN, 0u32),
        n / NANOS_PER_SEC > i64::MAX ==> r == (i64::MAX, 999_999_999u32),
{
    let b: i128 = NANOS_PER_SEC;
    let (q, rem): (i128, i128) = if n >= 0 {
        (n / b, n % b)
    } else {
        let m: i128 = -(n + 1);
        (-(m / b) - 1, b - 1 - m % b)
    };
    proof {
        let bb = NANOS_PER_SEC as int;
        if n >= 0 {
            assert(q == (n as int) / bb && rem == (n as int) % bb);
        } else {
            let m = -(n + 1);
            let mq = m / bb;
            let mr = m % bb;
            assert(m == bb * mq + mr && 0 <= mr < bb) by (nonlinear_arith)
                requires m >= 0, bb > 0, mq == m / bb, mr == m % bb, {}
            assert(n == bb * (-mq - 1) + (bb - 1 - mr)) by (nonlinear_arith)
                requires n == -(m + 1), m == bb * mq + mr, {}
            vstd::arithmetic::div_mod::lemma_fundamental_div_mod_converse(n as int, bb, -mq - 1, bb - 1 - mr);
        }
    }
    if q < i64::MIN as i128 {
        (i64::MIN, 0)
    } else if q > i64::MAX as i128 {
        (i64::MAX, 999_999_999)
    } else {
        (q as i64, rem as u32)
    }
}

/// Current time as whole seconds since the Unix epoch, read from the system
/// clock (before the epoch as a negative count). The value depends on the
/// clock; the contract states nothing about it.
pub(crate) fn now_timestamp() -> (t: i64) {
    epoch_parts(crate::cache::system_time_nanos()).0
}

/// The first second chrono represents: -262143-01-01T00:00:00Z
/// (`NaiveDate::MIN` at midnight).
pub const CHRONO_MIN_TIMESTAMP: i64 = -8_334_601_228_800;

/// The last second chrono represents: 262142-12-31T23:59:59Z
/// (`NaiveDate::MAX` at the day's last second).
pub const CHRONO_MAX_TIMESTAMP: i64 = 8_210_266_876_799;

/// Whether `DateTime::from_timestamp(ts, 0)` accepts `ts`: the second lies
/// in the range of dates chrono represents.
pub open spec fn chrono_timestamp_in_range(ts: i64) -> bool {
    CHRONO_MIN_TIMESTAMP <= ts <= CHRONO_MAX_TIMESTAMP
}

/// `DateTime::<Utc>::from_timestamp(ts, 0)`, as seconds since the epoch:
/// `Some(ts)` when the second lies between chrono's first and last
/// representable dates (`NaiveDate::MIN` and `NaiveDate::MAX`), `None`
/// otherwise.
#[verifier::external_body]
pub(crate) fn checked_timestamp(ts: i64) -> (r: Option<i64>)
    ensures
        r is Some <==> chrono_timestamp_in_range(ts),
        r matches Some(t) ==> t == ts,
{
    match chrono::DateTime::from_timestamp(ts, 0) {
        Some(dt) => Some(dt.timestamp()),
        None => None,
    }
}

/// A stored time stamp as a date-time (seconds since the epoch): itself
/// when chrono can represent it, else the epoch. `context` names where the
/// stamp came from, for the caller's log.
pub fn timestamp_to_datetime(ts: i64, context: &str) -> (r: i64)
    ensures
        r == (if chrono_timestamp_in_range(ts) {
            ts
        } else {
            0
        }),
{
    match checked_timestamp(ts) {
        Some(t) => t,
        None => 0,
    }
}

/// Where the readings of a request come from.
#[derive(Debug, Clone, Copy, PartialEq, Eq, Structural)]
pub enum ReadingsSource {
    /// Latest reading of each sensor
    Latest,
    /// Raw readings in `[start, end]`
    Raw,
    /// Readings averaged over buckets of `bucket_seconds`
    Aggregated,
}

/// A planned readings query.
pub struct ReadingsPlan<'a> {
    pub source: ReadingsSource,
    /// Restrict to one sensor
    pub device_id: Option<&'a str>,
    pub start: i64,
    pub end: i64,
    pub bucket_seconds: i64,
}

/// Value of a readings plan, with the device id as characters.
pub struct ReadingsPlanView {
    pub source: ReadingsSource,
    pub device_id: Option<Seq<char>>,
    pub start: i64,
    pub end: i64,
    pub bucket_seconds: i64,
}

pub open spec fn readings_plan_view(p: ReadingsPlan) -> ReadingsPlanView {
    ReadingsPlanView {
        source: p.source,
        device_id: opt_str_view(p.device_id),
        start: p.start,
        end: p.end,
        bucket_seconds: p.bucket_seconds,
    }
}

/// `latest=1` or `latest=true` (any case) asks for the latest readings only.
pub open spec fn spec_latest_only(q: Option<Seq<char>>) -> bool {
    match spec_query_get(q, "latest"@) {
        Some(v) => v == "1"@ || eq_ignore_ascii_case(v, "true"@),
        None => false,
    }
}

/// `now - hours * 3600`, with the wrap-around of a release build.
pub open spec fn hours_before(now: i64, hours: i64) -> i64 {
    now.wrapping_sub(hours.wrapping_mul(3600))
}

/// `hours` parameter, 24 when absent or malformed.
pub open spec fn spec_hours(q: Option<Seq<char>>) -> i64 {
    match spec_query_i64(q, "hours"@) {
        Some(h) => h,
        None => 24,
    }
}

/// The plan for `GET /api/readings`. `since_now` is the clock reading used
/// for the default start, `end_now` the one used for the end.
pub open spec fn spec_readings_plan(q: Option<Seq<char>>, since_now: i64, end_now: i64) -> ReadingsPlanView {
    let device_id = spec_query_get(q, "device_id"@);
    if spec_latest_only(q) {
        ReadingsPlanView { source: ReadingsSource::Latest, device_id, start: 0, end: 0, bucket_seconds: 1 }
    } else {
        let bucket = match spec_query_i64(q, "bucket"@) {
            Some(b) => if b < 1 { 1 } else { b },
            None => 1,
        };
        let (start, end) = match (spec_query_i64(q, "start"@), spec_query_i64(q, "end"@)) {
            (Some(s), Some(e)) => (s, e),
            _ => (
                match spec_query_i64(q, "since"@) {
                    Some(s) => s,
                    None => hours_before(since_now, spec_hours(q)),
                },
                end_now,
            ),
        };
        ReadingsPlanView {
            source: if bucket <= 1 { ReadingsSource::Raw } else { ReadingsSource::Aggregated },
            device_id,
            start,
            end,
            bucket_seconds: bucket,
        }
    }
}

/// Where a readings request's time range comes from: with `latest`, the
/// latest readings and no range; otherwise both `start` and `end` when both
/// are given; else from `since` (a Unix time) when given, or `hours` (24 by
/// default) before the start clock reading, up to the end clock reading.
/// With `since` given, the start clock reading plays no part. The source is
/// raw readings exactly when the bucket is at most one second.
pub proof fn law_readings_range(q: Option<Seq<char>>, since_now: i64, other_now: i64, end_now: i64)
    ensures
        ({
            let p = spec_readings_plan(q, since_now, end_now);
            let s = spec_query_i64(q, "start"@);
            let e = spec_query_i64(q, "end"@);
            let since = spec_query_i64(q, "since"@);
            &&& spec_latest_only(q) ==> p.source == ReadingsSource::Latest
            &&& !spec_latest_only(q) && s is Some && e is Some ==> p.start == s->0 && p.end == e->0
            &&& !spec_latest_only(q) && !(s is Some && e is Some) && since is Some ==> p.start == since->0 && p.end
                == end_now
            &&& !spec_latest_only(q) && !(s is Some && e is Some) && since is None ==> p.end == end_now && p.start
                == since_now.wrapping_sub(spec_hours(q).wrapping_mul(3600))
            &&& since is Some ==> p.start == spec_readings_plan(q, other_now, end_now).start
            &&& !spec_latest_only(q) ==> (p.source == ReadingsSource::Raw <==> p.bucket_seconds <= 1)
            &&& p.device_id == spec_query_get(q, "device_id"@)
        }),
{
}

/// Plan `GET /api/readings` from its query string and two clock readings.
pub fn plan_readings(query: Option<&str>, since_now: i64, end_now: i64) -> (r: ReadingsPlan)
    ensures
        readings_plan_view(r) == spec_readings_plan(opt_str_view(query), since_now, end_now),
{
    let params = QueryParams::new(query);
    let device_id = params.get("device_id");
    let latest_only = match params.get("latest") {
        Some(v) => str_eq(v, "1") || str_eq_ignore_ascii_case(v, "true"),
        None => false,
    };
    if latest_only {
        return ReadingsPlan {
            source: ReadingsSource::Latest,
            device_id,
            start: 0,
            end: 0,
            bucket_seconds: 1,
        };
    }
    let since_param = params.get_optional_i64("since");
    let start_param = params.get_optional_i64("start");
    let end_param = params.get_optional_i64("end");
    let bucket_seconds = match params.get_optional_i64("bucket") {
        Some(b) => if b < 1 { 1 } else { b },
        None => 1,
    };
    let (start, end) = match (start_param, end_param) {
        (Some(s), Some(e)) => (s, e),
        _ => {
            let since = match since_param {
                Some(s) => s,
                None => {
                    let hours = params.get_i64("hours", 24);
                    since_now.wrapping_sub(hours.wrapping_mul(3600))
                },
            };
            (since, end_now)
        },
    };
    ReadingsPlan {
        source: if bucket_seconds <= 1 { ReadingsSource::Raw } else { ReadingsSource::Aggregated },
        device_id,
        start,
        end,
        bucket_seconds,
    }
}

/// Plan `GET /api/readings` against the current time.
pub fn readings_plan_now(query: Option<&str>) -> (r: ReadingsPlan)
    ensures
        exists|since_now: i64, end_now: i64|
            readings_plan_view(r) == spec_readings_plan(opt_str_view(query), since_now, end_now),
{
    let since_now = now_timestamp();
    let end_now = now_timestamp();
    plan_readings(query, since_now, end_now)
}

/// The largest timestamp (reported to the client for delta polling).
pub fn latest_timestamp(ts: &Vec<i64>, default: i64) -> (r: i64)
    ensures
        ts.len() == 0 ==> r == default,
        ts.len() > 0 ==> (exists|i: int| 0 <= i < ts.len() && r == ts[i]),
        forall|i: int| 0 <= i < ts.len() ==> ts[i] <= r,
{
    if ts.len() == 0 {
        return default;
    }
    let mut best = ts[0];
    let mut i: usize = 1;
    while i < ts.len()
        invariant
            1 <= i <= ts.len(),
            exists|k: int| 0 <= k < i && best == ts[k],
            forall|k: int| 0 <= k < i ==> ts[k] <= best,
        decreases ts.len() - i,
    {
        if ts[i] > best {
            best = ts[i];
        }
        i = i + 1;
    }
    best
}

/// Cap on the number of buckets of one energy summary.
pub const MAX_BUCKETS: i64 = 1500;

/// The energy-summary range and bucket requested by a query.
pub struct EnergyQuery<'a> {
    pub device_id: Option<&'a str>,
    pub start: i64,
    pub end: i64,
    pub bucket_seconds: i64,
}

/// Why an energy-summary request is refused.
#[derive(Debug, Clone, Copy, PartialEq, Eq, Structural)]
pub enum EnergyQueryError {
    /// `start` is not before `end`
    StartNotBeforeEnd,
}

/// End of an energy-summary request: `end`, or the clock reading.
pub open spec fn spec_energy_end(q: Option<Seq<char>>, now: i64) -> i64 {
    match spec_query_i64(q, "end"@) {
        Some(e) => e,
        None => now,
    }
}

/// Start of an energy-summary request: `start`, or `hours` before the end.
pub open spec fn spec_energy_start(q: Option<Seq<char>>, now: i64) -> i64 {
    match spec_query_i64(q, "start"@) {
        Some(s) => s,
        None => hours_before(spec_energy_end(q, now), spec_hours(q)),
    }
}

/// Bucket of an energy-summary request: `bucket` (default one day), at least 1.
pub open spec fn spec_energy_bucket(q: Option<Seq<char>>) -> i64 {
    match spec_query_i64(q, "bucket"@) {
        Some(b) => if b < 1 { 1 } else { b },
        None => 86400,
    }
}

/// Read the energy-summary parameters of `GET /api/energy/summary`.
pub fn plan_energy_summary(query: Option<&str>, now: i64) -> (r: Result<EnergyQuery, EnergyQueryError>)
    ensures
        spec_energy_start(opt_str_view(query), now) >= spec_energy_end(opt_str_view(query), now)
            <==> r is Err,
        r matches Ok(e) ==> {
            &&& opt_str_view(e.device_id) == spec_query_get(opt_str_view(query), "device_id"@)
            &&& e.start == spec_energy_start(opt_str_view(query), now)
            &&& e.end == spec_energy_end(opt_str_view(query), now)
            &&& e.bucket_seconds == spec_energy_bucket(opt_str_view(query))
        },
{
    let params = QueryParams::new(query);
    let device_id = params.get("device_id");
    let end = match params.get_optional_i64("end") {
        Some(e) => e,
        None => now,
    };
    let start = match params.get_optional_i64("start") {
        Some(s) => s,
        None => {
            let hours = params.get_i64("hours", 24);
            end.wrapping_sub(hours.wrapping_mul(3600))
        },
    };
    if start >= end {
        return Err(EnergyQueryError::StartNotBeforeEnd);
    }
    let bucket_seconds = match params.get_optional_i64("bucket") {
        Some(b) => if b < 1 { 1 } else { b },
        None => 86400,
    };
    Ok(EnergyQuery { device_id, start, end, bucket_seconds })
}

/// `a / b` rounded up, for `b >= 1`.
pub open spec fn ceil_div(a: int, b: int) -> int {
    (a + b - 1) / b
}

/// The bucket width actually used: at least 1, and widened so that no more
/// than `MAX_BUCKETS` buckets cover the range.
pub open spec fn spec_summary_bucket(start: i64, end: i64, bucket: i64) -> i64 {
    let d = end.wrapping_sub(start);
    let span: i64 = if d < 1 { 1 } else { d };
    let b: i64 = if bucket < 1 { 1 } else { bucket };
    if ceil_div(span as int, b as int) > MAX_BUCKETS {
        (span / MAX_BUCKETS + 1) as i64
    } else {
        b
    }
}

/// `a / b` rounded up, without overflow.
fn ceil_div_i64(a: i64, b: i64) -> (r: i64)
    requires
        a >= 1,
        b >= 1,
    ensures
        r as int == ceil_div(a as int, b as int),
        1 <= r <= a,
{
    let q = a / b;
    let m = a % b;
    proof {
        lemma_ceil_div_parts(a as int, b as int);
    }
    if m != 0 { q + 1 } else { q }
}

proof fn lemma_ceil_div_parts(a: int, b: int)
    requires
        a >= 1,
        b >= 1,
    ensures
        ceil_div(a, b) == a / b + (if a % b != 0 { 1int } else { 0int }),
        1 <= ceil_div(a, b) <= a,
{
    assert(ceil_div(a, b) == a / b + (if a % b != 0 { 1int } else { 0int })) by (nonlinear_arith)
        requires
            a >= 1,
            b >= 1,
    {
        let q = a / b;
        let m = a % b;
        assert(a == b * q + m);
        assert(0 <= m < b);
        if m == 0 {
            assert(a + b - 1 == b * q + (b - 1));
        } else {
            assert(a + b - 1 == b * (q + 1) + (m - 1));
        }
    }
    assert(1 <= ceil_div(a, b) <= a) by (nonlinear_arith)
        requires
            a >= 1,
            b >= 1,
            ceil_div(a, b) == a / b + (if a % b != 0 { 1int } else { 0int }),
    {
        assert(a == b * (a / b) + a % b);
    }
}

/// Bucket width for a summary over `[start, end]`.
pub fn summary_bucket_seconds(start: i64, end: i64, bucket_seconds: i64) -> (r: i64)
    ensures
        r == spec_summary_bucket(start, end, bucket_seconds),
        r >= 1,
{
    let d = end.wrapping_sub(start);
    let span: i64 = if d < 1 { 1 } else { d };
    let mut bucket: i64 = if bucket_seconds < 1 { 1 } else { bucket_seconds };
    if ceil_div_i64(span, bucket) > MAX_BUCKETS {
        bucket = span / MAX_BUCKETS + 1;
    }
    bucket
}

/// `(end - b)` rounded up to whole buckets: the number of buckets that
/// start below `end`.
proof fn lemma_bucket_points_len(b: int, end: int, bucket: int)
    requires
        bucket >= 1,
    ensures
        spec_bucket_points(b, end, bucket).len() == (if b < end { ceil_div(end - b, bucket) } else { 0 }) + 1,
    decreases (if b < end { end - b } else { 0 }),
{
    if b < end {
        lemma_bucket_points_len(b + bucket, end, bucket);
        assert(ceil_div(end - b, bucket) == (if b + bucket < end { ceil_div(end - b - bucket, bucket) } else { 0 }) + 1)
            by (nonlinear_arith)
            requires
                bucket >= 1,
                end - b >= 1,
        {
            let a = end - b;
            if a <= bucket {
                assert((a + bucket - 1) / bucket == 1) by (nonlinear_arith)
                    requires a >= 1, a <= bucket, bucket >= 1, {}
            } else {
                assert((a + bucket - 1) / bucket == (a - bucket + bucket - 1) / bucket + 1) by (nonlinear_arith)
                    requires a > bucket, bucket >= 1, {}
            }
        }
    }
}

/// The widened bucket caps the number of buckets: over a range whose length
/// fits an `i64`, at most `MAX_BUCKETS` buckets come out; the width is at
/// least one second and never narrower than asked for.
pub proof fn law_bucket_count_capped(start: i64, end: i64, bucket: i64)
    requires
        i64::MIN <= end as int - start as int <= i64::MAX,
    ensures
        ({
            let r = spec_summary_bucket(start, end, bucket);
            &&& r >= 1
            &&& r >= (if bucket < 1 { 1 } else { bucket })
            &&& spec_bucket_points(start as int, end as int, r as int).len() <= MAX_BUCKETS + 1
        }),
{
    let d = end.wrapping_sub(start);
    let span: int = if d < 1 { 1 } else { d as int };
    let b: int = if bucket < 1 { 1 } else { bucket as int };
    let m = MAX_BUCKETS as int;
    lemma_ceil_div_parts(span, b);
    lemma_ceil_div_parts(span, m);
    let r = spec_summary_bucket(start, end, bucket) as int;
    assert(d as int == end as int - start as int);
    if ceil_div(span, b) > m {
        assert(r == span / m + 1);
        assert(ceil_div(span, r) <= m) by (nonlinear_arith)
            requires
                span >= 1,
                m > 0,
                r == span / m + 1,
        {
            assert(span < r * m);
            assert((span + r - 1) / r <= m);
        }
        assert(r >= b) by (nonlinear_arith)
            requires
                (span + b - 1) / b > m,
                b >= 1,
                m > 0,
                span >= 1,
                r == span / m + 1,
        {
            assert(span > b * m);
        }
    }
    lemma_bucket_points_len(start as int, end as int, r);
}

/// Bucket starts `b, b + bucket, ...` below `end`, then `end + 1` as the upper
/// bound of the last bucket.
pub open spec fn spec_bucket_points(b: int, end: int, bucket: int) -> Seq<int>
    decreases (if b < end { end - b } else { 0 }),
{
    if bucket >= 1 && b < end {
        seq![b] + spec_bucket_points(b + bucket, end, bucket)
    } else {
        seq![end + 1]
    }
}

/// Boundaries of the summary buckets over `[start, end]`.
pub fn bucket_points(start: i64, end: i64, bucket: i64) -> (r: Vec<i64>)
    requires
        bucket >= 1,
        end as int + bucket as int <= i64::MAX,
    ensures
        r@.map_values(|x: i64| x as int) == spec_bucket_points(start as int, end as int, bucket as int),
{
    let mut points: Vec<i64> = Vec::new();
    let mut b = start;
    while b < end
        invariant
            bucket >= 1,
            end as int + bucket as int <= i64::MAX,
            points@.map_values(|x: i64| x as int) + spec_bucket_points(b as int, end as int, bucket as int)
                == spec_bucket_points(start as int, end as int, bucket as int),
        decreases end as int - b as int + bucket as int,
    {
        let ghost before = points@.map_values(|x: i64| x as int);
        points.push(b);
        assert(points@.map_values(|x: i64| x as int) =~= before.push(b as int));
        assert(spec_bucket_points(b as int, end as int, bucket as int) == seq![b as int]
            + spec_bucket_points(b + bucket, end as int, bucket as int));
        assert(before + (seq![b as int] + spec_bucket_points(b + bucket, end as int, bucket as int))
            =~= before.push(b as int) + spec_bucket_points(b + bucket, end as int, bucket as int));
        b = b + bucket;
    }
    let ghost before = points@.map_values(|x: i64| x as int);
    points.push(end + 1);
    assert(points@.map_values(|x: i64| x as int) =~= before + seq![end + 1]);
    points
}


/// `n` placeholders for an SQL `IN (...)` list: `?` joined by `,`.
pub open spec fn spec_placeholders(n: nat) -> Seq<char>
    decreases n,
{
    if n == 0 {
        Seq::empty()
    } else if n == 1 {
        "?"@
    } else {
        spec_placeholders((n - 1) as nat) + ",?"@
    }
}

/// The placeholder list of a batch query over `n` devices.
pub fn sql_placeholders(n: usize) -> (r: String)
    ensures
        r@ == spec_placeholders(n as nat),
{
    let mut s = String::new();
    let mut i: usize = 0;
    while i < n
        invariant
            i <= n,
            s@ == spec_placeholders(i as nat),
        decreases n - i,
    {
        if i == 0 {
            s.append("?");
            proof {
                reveal_strlit("?");
            }
            assert(s@ =~= spec_placeholders(1));
        } else {
            s.append(",?");
        }
        i = i + 1;
    }
    s
}

} // verus!
