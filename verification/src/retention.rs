//! Retention rollup planning and queued notifications: which day-chunks of a reading table are
//! downsampled, and the running totals of a sweep. The database work of
//! each chunk is done by the caller; this module decides what comes next.

use vstd::prelude::*;

verus! {

/// Raw readings are kept for the last seven days.
pub const RAW_RETENTION_SECS: i64 = 604_800;

/// Energy readings are kept hourly at least (flat-signal anchor).
pub const ENERGY_HEARTBEAT_SECS: i64 = 3_600;

/// Temperature readings are decimated to one per hour.
pub const TEMP_BUCKET_SECS: i64 = 3_600;

/// A sweep works one day at a time.
pub const CHUNK_SECS: i64 = 86_400;

/// An energy day-chunk holding this many rows or fewer is taken as already
/// downsampled and skipped.
pub const ENERGY_CHUNK_SKIP_BELOW: i64 = 300;

/// The same threshold for temperature day-chunks.
pub const TEMP_CHUNK_SKIP_BELOW: i64 = 80;

/// What a rollup removed.
#[derive(Debug, Clone, Copy)]
pub struct RetentionStats {
    pub energy_deleted: usize,
    pub temperature_deleted: usize,
    pub chunks_processed: usize,
}

impl Default for RetentionStats {
    fn default() -> (r: Self)
        ensures
            r.energy_deleted == 0,
            r.temperature_deleted == 0,
            r.chunks_processed == 0,
    {
        RetentionStats { energy_deleted: 0, temperature_deleted: 0, chunks_processed: 0 }
    }
}

/// Readings older than this are downsampled: `now` minus the raw retention.
pub fn retention_cutoff(now: i64) -> (r: i64)
    requires
        now >= i64::MIN + RAW_RETENTION_SECS,
    ensures
        r == now - RAW_RETENTION_SECS,
{
    now - RAW_RETENTION_SECS
}

/// Rust's `/` on integers: the quotient rounded toward zero.
pub open spec fn trunc_div(a: int, b: int) -> int
    recommends
        b > 0,
{
    if a >= 0 {
        a / b
    } else {
        -((-a) / b)
    }
}

/// The start of the day-chunk holding `t`, with day boundaries counted
/// from the epoch and the quotient rounded toward zero.
pub open spec fn chunk_start_of(t: int) -> int {
    trunc_div(t, CHUNK_SECS as int) * CHUNK_SECS
}

/// A notification waiting for delivery (kept while the network is down).
/// Times are seconds since the epoch.
#[derive(Debug, Clone)]
pub struct PendingNotification {
    pub id: i64,
    pub message: String,
    pub created_at: i64,
    pub attempts: i64,
}

/// The state of a sweep over one table.
#[derive(Debug, Clone, Copy)]
pub struct Sweep {
    /// Start of the next chunk
    pub start: i64,
    /// Chunks end here
    pub cutoff: i64,
    /// Chunks with this many rows or fewer are skipped
    pub skip_below: i64,
    /// Rows removed so far
    pub deleted: usize,
    /// Chunks downsampled so far
    pub chunks: usize,
}

/// The chunk a sweep is at: `[start, min(start + CHUNK_SECS, cutoff))`,
/// or none once `start` reaches the cutoff.
pub open spec fn spec_next_chunk(s: Sweep) -> Option<(i64, i64)> {
    if s.start < s.cutoff {
        Some((
            s.start,
            if s.start + CHUNK_SECS < s.cutoff {
                (s.start + CHUNK_SECS) as i64
            } else {
                s.cutoff
            },
        ))
    } else {
        None
    }
}

impl Sweep {
    /// A sweep from the day of the oldest row before the cutoff; none when
    /// no row is older than the cutoff.
    pub fn begin(oldest: Option<i64>, cutoff: i64, skip_below: i64) -> (r: Option<Sweep>)
        requires
            cutoff <= i64::MAX - CHUNK_SECS,
            oldest matches Some(o) ==> o < cutoff,
        ensures
            match oldest {
                None => r is None,
                Some(o) => r matches Some(s) && s.start == chunk_start_of(o as int) && s.cutoff == cutoff
                    && s.skip_below == skip_below && s.deleted == 0 && s.chunks == 0,
            },
    {
        match oldest {
            None => None,
            Some(o) => {
                let q: i64 = o / CHUNK_SECS;
                assert(q == trunc_div(o as int, CHUNK_SECS as int));
                Some(Sweep { start: q * CHUNK_SECS, cutoff, skip_below, deleted: 0, chunks: 0 })
            },
        }
    }

    /// The next chunk to look at, if any.
    pub fn next_chunk(&self) -> (r: Option<(i64, i64)>)
        requires
            self.cutoff <= i64::MAX - CHUNK_SECS,
        ensures
            r == spec_next_chunk(*self),
    {
        if self.start < self.cutoff {
            let end = if self.start + CHUNK_SECS < self.cutoff {
                self.start + CHUNK_SECS
            } else {
                self.cutoff
            };
            Some((self.start, end))
        } else {
            None
        }
    }

    /// Whether a chunk holding `count` rows is downsampled.
    pub fn should_downsample(&self, count: i64) -> (b: bool)
        ensures
            b == (count > self.skip_below),
    {
        count > self.skip_below
    }

    /// Moves past the chunk ending at `end`; `removed` is what its
    /// downsampling deleted, or `None` when the chunk was skipped.
    pub fn finish_chunk(&mut self, end: i64, removed: Option<usize>)
        requires
            removed matches Some(n) ==> old(self).deleted + n <= usize::MAX && old(self).chunks < usize::MAX,
        ensures
            final(self).start == end,
            final(self).cutoff == old(self).cutoff,
            final(self).skip_below == old(self).skip_below,
            final(self).deleted == old(self).deleted + match removed {
                Some(n) => n as int,
                None => 0,
            },
            final(self).chunks == old(self).chunks + if removed is Some {
                1int
            } else {
                0
            },
    {
        if let Some(n) = removed {
            self.deleted = self.deleted + n;
            self.chunks = self.chunks + 1;
        }
        self.start = end;
    }
}

/// Each chunk is non-empty, at most a day long and ends by the cutoff, so
/// a sweep moves strictly forward and stops at the cutoff.
pub proof fn law_sweep_progress(s: Sweep)
    requires
        s.cutoff <= i64::MAX - CHUNK_SECS,
    ensures
        match spec_next_chunk(s) {
            Some((a, b)) => a == s.start && a < b && b <= s.cutoff && b - a <= CHUNK_SECS,
            None => s.start >= s.cutoff,
        },
{
}

} // verus!
