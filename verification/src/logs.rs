//! Monitoring log files: the set of known files, which lines of a file
//! count as entries, the last-N-lines buffer, the newest-first scan back to
//! a cutoff time, and the selection of one process's lines.

use vstd::prelude::*;
use vstd::string::*;

use crate::sorted::strings_view;
use crate::readings::{checked_timestamp, chrono_timestamp_in_range};
use crate::text::{
    first_segment, is_blank, parse_i64, segments_from, spec_parse_i64, split_commas, starts_with, str_ends_with,
    str_eq, str_starts_with, trim,
};

verus! {

/// The log files the server may read.
#[derive(Debug, Clone, Copy, PartialEq, Eq, Hash, Structural)]
pub enum LogFile {
    SystemMonitor,
    ProcessMonitor,
    TopCpuConsumers,
    TopRamConsumers,
}

impl LogFile {
    /// Every log file, in listing order.
    pub open spec fn spec_all() -> Seq<LogFile> {
        seq![LogFile::SystemMonitor, LogFile::ProcessMonitor, LogFile::TopCpuConsumers, LogFile::TopRamConsumers]
    }

    pub open spec fn spec_filename(self) -> Seq<char> {
        match self {
            LogFile::SystemMonitor => "system_monitor.log"@,
            LogFile::ProcessMonitor => "process_monitor.log"@,
            LogFile::TopCpuConsumers => "top_cpu_consumers.log"@,
            LogFile::TopRamConsumers => "top_ram_consumers.log"@,
        }
    }

    pub open spec fn spec_display_name(self) -> Seq<char> {
        match self {
            LogFile::SystemMonitor => "System Monitor"@,
            LogFile::ProcessMonitor => "Process Monitor"@,
            LogFile::TopCpuConsumers => "Top CPU Consumers"@,
            LogFile::TopRamConsumers => "Top RAM Consumers"@,
        }
    }

    /// The log file whose file name is `s`, if any.
    pub open spec fn spec_from_filename(s: Seq<char>) -> Option<LogFile> {
        if s == "system_monitor.log"@ {
            Some(LogFile::SystemMonitor)
        } else if s == "process_monitor.log"@ {
            Some(LogFile::ProcessMonitor)
        } else if s == "top_cpu_consumers.log"@ {
            Some(LogFile::TopCpuConsumers)
        } else if s == "top_ram_consumers.log"@ {
            Some(LogFile::TopRamConsumers)
        } else {
            None
        }
    }

    /// Every log file, in listing order.
    pub fn all() -> (r: Vec<LogFile>)
        ensures
            r@ == LogFile::spec_all(),
    {
        let r = vec![LogFile::SystemMonitor, LogFile::ProcessMonitor, LogFile::TopCpuConsumers, LogFile::TopRamConsumers];
        assert(r@ =~= LogFile::spec_all());
        r
    }

    /// The file name in the log directory.
    pub fn filename(self) -> (r: &'static str)
        ensures
            r@ == self.spec_filename(),
    {
        match self {
            LogFile::SystemMonitor => "system_monitor.log",
            LogFile::ProcessMonitor => "process_monitor.log",
            LogFile::TopCpuConsumers => "top_cpu_consumers.log",
            LogFile::TopRamConsumers => "top_ram_consumers.log",
        }
    }

    /// The name shown to users.
    pub fn display_name(self) -> (r: &'static str)
        ensures
            r@ == self.spec_display_name(),
    {
        match self {
            LogFile::SystemMonitor => "System Monitor",
            LogFile::ProcessMonitor => "Process Monitor",
            LogFile::TopCpuConsumers => "Top CPU Consumers",
            LogFile::TopRamConsumers => "Top RAM Consumers",
        }
    }

    /// The log file whose file name is exactly `s`.
    pub fn from_filename(s: &str) -> (r: Option<LogFile>)
        ensures
            r == LogFile::spec_from_filename(s@),
    {
        if str_eq(s, "system_monitor.log") {
            Some(LogFile::SystemMonitor)
        } else if str_eq(s, "process_monitor.log") {
            Some(LogFile::ProcessMonitor)
        } else if str_eq(s, "top_cpu_consumers.log") {
            Some(LogFile::TopCpuConsumers)
        } else if str_eq(s, "top_ram_consumers.log") {
            Some(LogFile::TopRamConsumers)
        } else {
            None
        }
    }
}

impl std::str::FromStr for LogFile {
    type Err = ();

    fn from_str(s: &str) -> (r: Result<Self, Self::Err>)
        ensures
            r == match LogFile::spec_from_filename(s@) {
                Some(f) => Ok::<LogFile, ()>(f),
                None => Err(()),
            },
    {
        match LogFile::from_filename(s) {
            Some(f) => Ok(f),
            None => Err(()),
        }
    }
}

/// Each log file is found again from its file name, and no other name
/// finds it.
pub proof fn law_log_file_name_roundtrip(f: LogFile, s: Seq<char>)
    ensures
        LogFile::spec_from_filename(f.spec_filename()) == Some(f),
        LogFile::spec_from_filename(s) == Some(f) ==> s == f.spec_filename(),
{
    reveal_strlit("system_monitor.log");
    reveal_strlit("process_monitor.log");
    reveal_strlit("top_cpu_consumers.log");
    reveal_strlit("top_ram_consumers.log");
    assert("system_monitor.log"@.len() != "process_monitor.log"@.len());
    assert("system_monitor.log"@.len() != "top_cpu_consumers.log"@.len());
    assert("system_monitor.log"@.len() != "top_ram_consumers.log"@.len());
    assert("process_monitor.log"@.len() != "top_cpu_consumers.log"@.len());
    assert("process_monitor.log"@.len() != "top_ram_consumers.log"@.len());
    assert("top_cpu_consumers.log"@[4] != "top_ram_consumers.log"@[4]);
}

/// Name and display name of a log file, as listed to clients.
#[derive(Debug)]
pub struct LogFileInfo {
    pub name: String,
    pub display_name: String,
}

/// The known log files, in listing order.
pub fn list_log_files() -> (r: Vec<LogFileInfo>)
    ensures
        r.len() == LogFile::spec_all().len(),
        forall|i: int|
            0 <= i < r.len() ==> (#[trigger] r@[i]).name@ == LogFile::spec_all()[i].spec_filename()
                && r@[i].display_name@ == LogFile::spec_all()[i].spec_display_name(),
{
    let all = LogFile::all();
    let mut out: Vec<LogFileInfo> = Vec::new();
    let mut i: usize = 0;
    while i < all.len()
        invariant
            i <= all.len(),
            all@ == LogFile::spec_all(),
            out.len() == i,
            forall|k: int|
                0 <= k < i ==> (#[trigger] out@[k]).name@ == all@[k].spec_filename()
                    && out@[k].display_name@ == all@[k].spec_display_name(),
        decreases all.len() - i,
    {
        let f = all[i];
        out.push(LogFileInfo {
            name: String::from_str(f.filename()),
            display_name: String::from_str(f.display_name()),
        });
        i = i + 1;
    }
    out
}

// ---------------------------------------------------------------------------
// Entry lines
// ---------------------------------------------------------------------------

/// A line that holds an entry: not the CSV header and not blank.
pub open spec fn is_content_line(l: Seq<char>) -> bool {
    !starts_with(l, "Timestamp"@) && trim(l).len() != 0
}

/// `!line.starts_with("Timestamp") && !line.trim().is_empty()`.
pub fn content_line(line: &str) -> (b: bool)
    ensures
        b == is_content_line(line@),
{
    !str_starts_with(line, "Timestamp") && !is_blank(line)
}

/// The entry lines of `s`, in order.
pub open spec fn content_lines(s: Seq<Seq<char>>) -> Seq<Seq<char>>
    decreases s.len(),
{
    if s.len() == 0 {
        Seq::empty()
    } else if is_content_line(s.last()) {
        content_lines(s.drop_last()).push(s.last())
    } else {
        content_lines(s.drop_last())
    }
}

/// Entry lines from position `offset` on, and how many entry lines there
/// are in all.
pub fn lines_from_offset(lines: &Vec<String>, offset: usize) -> (r: (Vec<String>, usize))
    ensures
        r.1 == content_lines(strings_view(lines@)).len(),
        strings_view(r.0@) == (if offset < r.1 {
            content_lines(strings_view(lines@)).skip(offset as int)
        } else {
            Seq::empty()
        }),
{
    let ghost all = strings_view(lines@);
    let mut kept: Vec<String> = Vec::new();
    let mut i: usize = 0;
    while i < lines.len()
        invariant
            i <= lines.len(),
            all == strings_view(lines@),
            strings_view(kept@) == content_lines(all.take(i as int)),
            kept.len() <= i,
        decreases lines.len() - i,
    {
        assert(all.take(i + 1).drop_last() =~= all.take(i as int));
        assert(all.take(i + 1).last() == lines@[i as int]@);
        if content_line(lines[i].as_str()) {
            let ghost before = strings_view(kept@);
            kept.push(lines[i].clone());
            assert(strings_view(kept@) =~= before.push(lines@[i as int]@));
        }
        i = i + 1;
    }
    assert(all.take(i as int) =~= all);
    let total = kept.len();
    let mut out: Vec<String> = Vec::new();
    if offset < total {
        let mut k: usize = offset;
        while k < total
            invariant
                offset <= k <= total,
                total == kept.len(),
                strings_view(out@) =~= strings_view(kept@).subrange(offset as int, k as int),
            decreases total - k,
        {
            let ghost before = strings_view(out@);
            out.push(kept[k].clone());
            assert(strings_view(out@) =~= before.push(kept@[k as int]@));
            k = k + 1;
        }
    }
    (out, total)
}

// ---------------------------------------------------------------------------
// The last N entry lines
// ---------------------------------------------------------------------------

/// Keeps the last `max_lines` entry lines of a stream of lines, in a ring
/// of at most `max_lines` slots: line number `j` (counting entry lines
/// from 0) sits in slot `j % max_lines`.
pub struct LineTail {
    buffer: Vec<String>,
    count: usize,
    max_lines: usize,
    seen: Ghost<Seq<Seq<char>>>,
}

impl LineTail {
    /// The entry lines pushed so far, in order.
    pub closed spec fn seen(self) -> Seq<Seq<char>> {
        self.seen@
    }

    /// How many lines are kept.
    pub closed spec fn capacity(self) -> nat {
        self.max_lines as nat
    }

    /// Number of the oldest kept line.
    pub open spec fn first_kept(self) -> int {
        if self.seen().len() > self.capacity() {
            self.seen().len() - self.capacity()
        } else {
            0
        }
    }

    pub closed spec fn wf(self) -> bool {
        &&& self.count == self.seen@.len()
        &&& self.buffer.len() == (if self.count < self.max_lines {
            self.count
        } else {
            self.max_lines
        })
        &&& forall|j: int|
            self.first_kept() <= j < self.count ==> self.buffer@[j % (self.max_lines as int)]@ == #[trigger] self.seen@[j]
    }

    /// An empty tail that keeps `max_lines` lines.
    pub fn new(max_lines: usize) -> (r: Self)
        ensures
            r.wf(),
            r.seen() == Seq::<Seq<char>>::empty(),
            r.capacity() == max_lines,
    {
        LineTail { buffer: Vec::new(), count: 0, max_lines, seen: Ghost(Seq::empty()) }
    }

    /// Number of entry lines pushed so far.
    pub fn count(&self) -> (n: usize)
        requires
            self.wf(),
        ensures
            n == self.seen().len(),
    {
        self.count
    }

    /// Offers one line; entry lines are counted and kept (none are kept when
    /// `max_lines == 0`), the header and blank lines are ignored.
    pub fn push(&mut self, line: String)
        requires
            old(self).wf(),
            is_content_line(line@) ==> old(self).seen().len() < usize::MAX,
        ensures
            final(self).wf(),
            final(self).capacity() == old(self).capacity(),
            final(self).seen() == (if is_content_line(line@) {
                old(self).seen().push(line@)
            } else {
                old(self).seen()
            }),
    {
        if !content_line(line.as_str()) {
            return;
        }
        let ghost old_seen = self.seen@;
        let ghost old_buf = self.buffer@;
        let ghost c = self.count as int;
        let ghost m = self.max_lines as int;
        let ghost lo = self.first_kept();
        let ghost lv = line@;
        if self.max_lines == 0 {
            self.count = self.count + 1;
            self.seen = Ghost(old_seen.push(lv));
            return;
        }
        let full = self.buffer.len() >= self.max_lines;
        if !full {
            self.buffer.push(line);
        } else {
            let slot = self.count % self.max_lines;
            self.buffer.set(slot, line);
        }
        self.count = self.count + 1;
        self.seen = Ghost(old_seen.push(lv));
        proof {
            assert forall|j: int| self.first_kept() <= j < self.count implies self.buffer@[j % m]@
                == #[trigger] self.seen@[j] by {
                if !full {
                    vstd::arithmetic::div_mod::lemma_small_mod(j as nat, m as nat);
                    if j < c {
                        assert(old_seen[j] == self.seen@[j]);
                        assert(old_buf[j % m]@ == old_seen[j]);
                    }
                } else {
                    if j < c {
                        lemma_mod_distinct(j, c, m);
                        assert(old_seen[j] == self.seen@[j]);
                        assert(lo <= j);
                        assert(old_buf[j % m]@ == old_seen[j]);
                    }
                }
            }
        }
    }

    /// The kept lines, oldest first: the last `max_lines` entry lines pushed.
    pub fn into_lines(self) -> (r: Vec<String>)
        requires
            self.wf(),
        ensures
            strings_view(r@) == self.seen().skip(self.first_kept()),
    {
        let c = self.count;
        let m = self.max_lines;
        if m == 0 {
            assert(self.seen().skip(self.first_kept()) =~= Seq::<Seq<char>>::empty());
            return Vec::new();
        }
        if c <= m {
            proof {
                assert forall|j: int| 0 <= j < c implies #[trigger] self.buffer@[j]@ == self.seen@[j] by {
                    vstd::arithmetic::div_mod::lemma_small_mod(j as nat, m as nat);
                    assert(self.buffer@[j % (m as int)]@ == self.seen@[j]);
                }
                assert(strings_view(self.buffer@) =~= self.seen@.skip(0));
            }
            return self.buffer;
        }
        let start = c % m;
        let mut out: Vec<String> = Vec::new();
        let mut k: usize = 0;
        while k < m
            invariant
                k <= m,
                m > 0,
                c > m,
                start == c % m,
                self.wf(),
                self.count == c,
                self.max_lines == m,
                out.len() == k,
                forall|t: int| 0 <= t < k ==> (#[trigger] out@[t])@ == self.seen@[c - m + t],
            decreases m - k,
        {
            let idx = if k < m - start { start + k } else { k - (m - start) };
            proof {
                lemma_ring_index(c as int, m as int, k as int);
                assert(self.seen@[c - m + k] == self.buffer@[idx as int]@);
            }
            out.push(self.buffer[idx].clone());
            k = k + 1;
        }
        assert(strings_view(out@) =~= self.seen@.skip(c - m));
        out
    }
}

/// Two numbers less than `m` apart that differ have different remainders.
proof fn lemma_mod_distinct(j: int, c: int, m: int)
    requires
        0 <= j < c,
        c - j < m,
    ensures
        j % m != c % m,
{
    let q = c / m;
    let s = c % m;
    vstd::arithmetic::div_mod::lemma_fundamental_div_mod(c, m);
    assert(q * m == m * q) by (nonlinear_arith);
    let d = c - j;
    if s >= d {
        vstd::arithmetic::div_mod::lemma_fundamental_div_mod_converse_mod(j, m, q, s - d);
    } else {
        assert((q - 1) * m == q * m - m) by (nonlinear_arith);
        vstd::arithmetic::div_mod::lemma_fundamental_div_mod_converse_mod(j, m, q - 1, s - d + m);
    }
}

/// Line `c - m + k` of the last `m` sits in the slot `k` places after the
/// slot that the next line would take.
proof fn lemma_ring_index(c: int, m: int, k: int)
    requires
        0 < m < c,
        0 <= k < m,
    ensures
        (c - m + k) % m == (if c % m + k < m {
            c % m + k
        } else {
            c % m + k - m
        }),
{
    let q = c / m;
    let s = c % m;
    vstd::arithmetic::div_mod::lemma_fundamental_div_mod(c, m);
    assert(q * m == m * q) by (nonlinear_arith);
    if s + k < m {
        assert((q - 1) * m == q * m - m) by (nonlinear_arith);
        vstd::arithmetic::div_mod::lemma_fundamental_div_mod_converse_mod(c - m + k, m, q - 1, s + k);
    } else {
        vstd::arithmetic::div_mod::lemma_fundamental_div_mod_converse_mod(c - m + k, m, q, s + k - m);
    }
}

// ---------------------------------------------------------------------------
// Scanning back from the end of a file to a cutoff time
// ---------------------------------------------------------------------------

/// Seconds since the Unix epoch of `s` read as a UTC date and time in the
/// form `%Y-%m-%d %H:%M:%S`, or `None` when `s` is not in that form. The
/// calendar rules behind it are chrono's.
pub uninterp spec fn naive_utc_seconds(s: Seq<char>) -> Option<i64>;

/// `NaiveDateTime::parse_from_str(s, "%Y-%m-%d %H:%M:%S")`, taken as UTC,
/// in seconds since the epoch. The result is a function of `s` alone and is
/// given a name, not a definition.
#[verifier::external_body]
fn parse_naive_utc_seconds(s: &str) -> (r: Option<i64>)
    ensures
        r == naive_utc_seconds(s@),
{
    match chrono::NaiveDateTime::parse_from_str(s, "%Y-%m-%d %H:%M:%S") {
        Ok(naive) => Some(chrono::DateTime::<chrono::Utc>::from_naive_utc_and_offset(naive, chrono::Utc).timestamp()),
        Err(_) => None,
    }
}

/// The time stamp of a log line: its first `,`-separated field, read as a
/// date and time.
pub open spec fn line_timestamp(l: Seq<char>) -> Option<i64> {
    naive_utc_seconds(segments_from(l, 0)[0])
}

/// The time stamp at the start of a CSV log line, if it parses.
pub fn parse_timestamp_from_line(line: &str) -> (r: Option<i64>)
    ensures
        r == line_timestamp(line@),
{
    parse_naive_utc_seconds(first_segment(line))
}

/// Whole second `t` lies before the instant `cutoff_secs` seconds and
/// `cutoff_nanos` nanoseconds after the epoch.
pub open spec fn instant_before(t: i64, cutoff_secs: i64, cutoff_nanos: u32) -> bool {
    t < cutoff_secs || (t == cutoff_secs && cutoff_nanos > 0)
}

/// An entry line stamped before the cutoff ends the scan.
pub open spec fn ends_scan(l: Seq<char>, cutoff_secs: i64, cutoff_nanos: u32) -> bool {
    match line_timestamp(l) {
        Some(t) => instant_before(t, cutoff_secs, cutoff_nanos),
        None => false,
    }
}

/// Scanning lines newest first: the entry lines kept (newest first) and
/// whether the scan has ended. Header and blank lines are passed over; an
/// entry line stamped before the cutoff ends the scan and is not kept; an
/// entry line without a readable stamp is kept.
pub open spec fn scan_back(o: Seq<Seq<char>>, cutoff_secs: i64, cutoff_nanos: u32) -> (Seq<Seq<char>>, bool)
    decreases o.len(),
{
    if o.len() == 0 {
        (Seq::empty(), false)
    } else {
        let prev = scan_back(o.drop_last(), cutoff_secs, cutoff_nanos);
        let l = o.last();
        if prev.1 || !is_content_line(l) {
            prev
        } else if ends_scan(l, cutoff_secs, cutoff_nanos) {
            (prev.0, true)
        } else {
            (prev.0.push(l), false)
        }
    }
}

/// Collects the lines of a log file read backwards from its end, until the
/// first entry stamped before the cutoff.
pub struct SinceCollector {
    newest_first: Vec<String>,
    done: bool,
    cutoff_secs: i64,
    cutoff_nanos: u32,
    offered: Ghost<Seq<Seq<char>>>,
}

impl SinceCollector {
    /// The lines offered so far, newest first.
    pub closed spec fn offered(self) -> Seq<Seq<char>> {
        self.offered@
    }

    pub closed spec fn cutoff(self) -> (i64, u32) {
        (self.cutoff_secs, self.cutoff_nanos)
    }

    pub closed spec fn wf(self) -> bool {
        scan_back(self.offered@, self.cutoff_secs, self.cutoff_nanos) == (strings_view(self.newest_first@), self.done)
    }

    /// The scan has ended: later lines change nothing.
    pub open spec fn finished(self) -> bool {
        scan_back(self.offered(), self.cutoff().0, self.cutoff().1).1
    }

    /// A collector for lines at or after the instant `cutoff_secs` seconds
    /// and `cutoff_nanos` nanoseconds after the epoch.
    pub fn new(cutoff_secs: i64, cutoff_nanos: u32) -> (r: Self)
        ensures
            r.wf(),
            r.offered() == Seq::<Seq<char>>::empty(),
            r.cutoff() == (cutoff_secs, cutoff_nanos),
    {
        let r = SinceCollector {
            newest_first: Vec::new(),
            done: false,
            cutoff_secs,
            cutoff_nanos,
            offered: Ghost(Seq::empty()),
        };
        assert(strings_view(r.newest_first@) =~= Seq::<Seq<char>>::empty());
        r
    }

    /// Offers the next older line; `false` once the scan has ended.
    pub fn offer(&mut self, line: String) -> (more: bool)
        requires
            old(self).wf(),
        ensures
            final(self).wf(),
            final(self).cutoff() == old(self).cutoff(),
            final(self).offered() == old(self).offered().push(line@),
            more == !final(self).finished(),
    {
        let ghost o = self.offered@;
        let ghost lv = line@;
        self.offered = Ghost(o.push(lv));
        proof {
            assert(self.offered@.drop_last() =~= o);
            assert(self.offered@.last() == lv);
        }
        if self.done {
            return false;
        }
        if !content_line(line.as_str()) {
            return true;
        }
        match parse_timestamp_from_line(line.as_str()) {
            Some(t) => {
                if t < self.cutoff_secs || (t == self.cutoff_secs && self.cutoff_nanos > 0) {
                    self.done = true;
                    return false;
                }
            },
            None => {},
        }
        let ghost before = strings_view(self.newest_first@);
        self.newest_first.push(line);
        assert(strings_view(self.newest_first@) =~= before.push(lv));
        true
    }

    /// The kept lines in file order (oldest first).
    pub fn into_lines(self) -> (r: Vec<String>)
        requires
            self.wf(),
        ensures
            strings_view(r@) == scan_back(self.offered(), self.cutoff().0, self.cutoff().1).0.reverse(),
    {
        let n = self.newest_first.len();
        let mut out: Vec<String> = Vec::new();
        let mut k: usize = 0;
        while k < n
            invariant
                k <= n,
                n == self.newest_first.len(),
                out.len() == k,
                forall|t: int| 0 <= t < k ==> (#[trigger] out@[t])@ == self.newest_first@[n - 1 - t]@,
            decreases n - k,
        {
            out.push(self.newest_first[n - 1 - k].clone());
            k = k + 1;
        }
        assert(strings_view(out@) =~= strings_view(self.newest_first@).reverse());
        out
    }
}

// ---------------------------------------------------------------------------
// One process's lines of the process monitor log
// ---------------------------------------------------------------------------

/// A process monitor line with at least six fields whose second field is
/// the process name `name` and whose third is the PID `pid`.
pub open spec fn is_process_line(l: Seq<char>, name: Seq<char>, pid: Seq<char>) -> bool {
    segments_from(l, 0).len() >= 6 && segments_from(l, 0)[1] == name && segments_from(l, 0)[2] == pid
}

/// The lines of `s` for process `name` with PID `pid`, in order.
pub open spec fn process_lines(s: Seq<Seq<char>>, name: Seq<char>, pid: Seq<char>) -> Seq<Seq<char>>
    decreases s.len(),
{
    if s.len() == 0 {
        Seq::empty()
    } else if is_process_line(s.last(), name, pid) {
        process_lines(s.drop_last(), name, pid).push(s.last())
    } else {
        process_lines(s.drop_last(), name, pid)
    }
}

/// The lines that record process `process_name` running as `pid`.
pub fn lines_for_process(lines: &Vec<String>, process_name: &str, pid: &str) -> (r: Vec<String>)
    ensures
        strings_view(r@) == process_lines(strings_view(lines@), process_name@, pid@),
{
    let ghost all = strings_view(lines@);
    let mut kept: Vec<String> = Vec::new();
    let mut i: usize = 0;
    while i < lines.len()
        invariant
            i <= lines.len(),
            all == strings_view(lines@),
            strings_view(kept@) == process_lines(all.take(i as int), process_name@, pid@),
        decreases lines.len() - i,
    {
        assert(all.take(i + 1).drop_last() =~= all.take(i as int));
        assert(all.take(i + 1).last() == lines@[i as int]@);
        let parts = split_commas(lines[i].as_str());
        let ghost pv = parts@.map_values(|t: &str| t@);
        if parts.len() >= 6 && str_eq(parts[1], process_name) && str_eq(parts[2], pid) {
            assert(pv[1] == parts@[1]@);
            assert(pv[2] == parts@[2]@);
            let ghost before = strings_view(kept@);
            kept.push(lines[i].clone());
            assert(strings_view(kept@) =~= before.push(lines@[i as int]@));
        } else {
            assert(parts.len() >= 6 ==> pv[1] == parts@[1]@ && pv[2] == parts@[2]@);
        }
        i = i + 1;
    }
    assert(all.take(i as int) =~= all);
    kept
}


/// The last `n` items of `s` (all of them when there are fewer).
pub open spec fn last_n(s: Seq<Seq<char>>, n: nat) -> Seq<Seq<char>> {
    s.skip(if s.len() > n { s.len() - n } else { 0 })
}

/// The history of one process in the process monitor log: among the last
/// `max_lines` entry lines (header and blank lines do not count), those of
/// process `process_name` running as `pid`, in file order.
pub open spec fn spec_process_history(lines: Seq<Seq<char>>, process_name: Seq<char>, pid: Seq<char>, max_lines: nat) -> Seq<Seq<char>> {
    process_lines(last_n(content_lines(lines), max_lines), process_name, pid)
}

/// The history of one process from the lines of the process monitor log.
pub fn process_history_lines(lines: Vec<String>, process_name: &str, pid: &str, max_lines: usize) -> (r: Vec<String>)
    ensures
        strings_view(r@) == spec_process_history(strings_view(lines@), process_name@, pid@, max_lines as nat),
{
    let ghost all = strings_view(lines@);
    let n = lines.len();
    let mut tail = LineTail::new(max_lines);
    let mut i: usize = 0;
    for line in it: lines.into_iter()
        invariant
            it.seq() == lines@,
            all == strings_view(lines@),
            n == lines@.len(),
            tail.wf(),
            tail.capacity() == max_lines,
            tail.seen() == content_lines(all.take(it.index() as int)),
            tail.seen().len() <= it.index(),
    {
        let ghost idx = it.index() as int;
        proof {
            assert(all.take(idx + 1).drop_last() =~= all.take(idx));
            assert(all.take(idx + 1).last() == line@);
            lemma_content_lines_len(all.take(idx));
        }
        tail.push(line);
        proof {
            lemma_content_lines_len(all.take(idx + 1));
        }
    }
    proof {
        assert(all.take(n as int) =~= all);
    }
    let kept = tail.into_lines();
    lines_for_process(&kept, process_name, pid)
}

proof fn lemma_content_lines_len(s: Seq<Seq<char>>)
    ensures
        content_lines(s).len() <= s.len(),
    decreases s.len(),
{
    if s.len() > 0 {
        lemma_content_lines_len(s.drop_last());
    }
}

// ---------------------------------------------------------------------------
// The `since` parameter of the log endpoints
// ---------------------------------------------------------------------------

/// The largest span chrono's `TimeDelta` takes in whole seconds
/// (`i64::MAX / 1000`).
pub const MAX_DELTA_SECS: i64 = 9_223_372_036_854_775;

/// The instant `d` seconds before `now` (seconds and nanoseconds since the
/// epoch), or `None` where chrono panics: the span is longer than a
/// `TimeDelta` holds, or the result leaves the range of representable
/// dates.
pub open spec fn spec_before(now: (i64, u32), d: int) -> Option<(i64, u32)> {
    if -MAX_DELTA_SECS <= d <= MAX_DELTA_SECS && i64::MIN <= now.0 - d <= i64::MAX && chrono_timestamp_in_range(
        (now.0 - d) as i64,
    ) {
        Some(((now.0 - d) as i64, now.1))
    } else {
        None
    }
}

/// `s` ends in `unit` and what precedes it reads as an `i64`.
pub open spec fn spec_count_with_unit(s: Seq<char>, unit: char) -> Option<i64> {
    if s.len() > 0 && s.last() == unit {
        spec_parse_i64(s.drop_last())
    } else {
        None
    }
}

/// The instant (seconds, nanoseconds) that `2021-01-01T00:00:00Z`-style
/// RFC 3339 text `s` denotes, in UTC, or `None` when `s` is not such text.
/// The grammar behind it is chrono's.
pub uninterp spec fn rfc3339_instant(s: Seq<char>) -> Option<(i64, u32)>;

/// `DateTime::parse_from_rfc3339(s)` taken to UTC, as whole seconds and
/// nanoseconds since the epoch. Parsing is a function of `s` alone; its
/// result is given a name, not a definition.
#[verifier::external_body]
fn parse_rfc3339(s: &str) -> (r: Option<(i64, u32)>)
    ensures
        r == rfc3339_instant(s@),
{
    match chrono::DateTime::parse_from_rfc3339(s) {
        Ok(dt) => {
            let utc = dt.with_timezone(&chrono::Utc);
            Some((utc.timestamp(), utc.timestamp_subsec_nanos()))
        },
        Err(_) => None,
    }
}

/// The cutoff a `since` value asks for at the instant `now`: `<n>h`,
/// `<n>d`, `<n>w`, `<n>m` (30-day months) or `<n>y` (365-day years) before
/// now; else a Unix time in seconds; else an RFC 3339 time; else 24 hours
/// before now. `None` where the value cannot be served (a span or a
/// result outside what chrono represents).
pub open spec fn spec_since_cutoff(s: Seq<char>, now: (i64, u32)) -> Option<(i64, u32)> {
    if let Some(h) = spec_count_with_unit(s, 'h') {
        spec_before(now, h * 3600)
    } else if let Some(d) = spec_count_with_unit(s, 'd') {
        spec_before(now, d * 86400)
    } else if let Some(w) = spec_count_with_unit(s, 'w') {
        spec_before(now, w * 604800)
    } else if let Some(m) = spec_count_with_unit(s, 'm') {
        spec_before(now, m * 30 * 86400)
    } else if let Some(y) = spec_count_with_unit(s, 'y') {
        spec_before(now, y * 365 * 86400)
    } else if spec_parse_i64(s) matches Some(ts) && chrono_timestamp_in_range(ts) {
        Some((spec_parse_i64(s).unwrap(), 0))
    } else if rfc3339_instant(s) is Some {
        rfc3339_instant(s)
    } else {
        spec_before(now, 86400)
    }
}

/// The instant `d` seconds before `now`, or `None` where chrono panics.
fn before(now: (i64, u32), d: i128) -> (r: Option<(i64, u32)>)
    ensures
        r == spec_before(now, d as int),
{
    if d < -(MAX_DELTA_SECS as i128) || d > MAX_DELTA_SECS as i128 {
        return None;
    }
    let t: i128 = now.0 as i128 - d;
    if t < i64::MIN as i128 || t > i64::MAX as i128 {
        return None;
    }
    match checked_timestamp(t as i64) {
        Some(_) => Some((t as i64, now.1)),
        None => None,
    }
}

/// The count before a one-character unit suffix, if `s` has that form.
fn count_with_unit(s: &str, unit: &str, unit_char: char) -> (r: Option<i64>)
    requires
        unit@ == seq![unit_char],
    ensures
        r == spec_count_with_unit(s@, unit_char),
{
    if str_ends_with(s, unit) {
        let n = s.unicode_len();
        let head = s.substring_char(0, n - 1);
        assert(head@ =~= s@.drop_last());
        assert(s@.subrange(s@.len() - 1, s@.len() as int)[0] == s@.last());
        parse_i64(head)
    } else {
        proof {
            if s@.len() > 0 && s@.last() == unit_char {
                assert(s@.subrange(s@.len() - 1, s@.len() as int) =~= unit@);
            }
        }
        None
    }
}

/// The cutoff of a `since` value at the instant `now`; `None` where no
/// cutoff can be represented.
pub fn since_cutoff_at(s: &str, now: (i64, u32)) -> (r: Option<(i64, u32)>)
    ensures
        r == spec_since_cutoff(s@, now),
{
    proof {
        reveal_strlit("h");
        reveal_strlit("d");
        reveal_strlit("w");
        reveal_strlit("m");
        reveal_strlit("y");
        assert("h"@ =~= seq!['h']);
        assert("d"@ =~= seq!['d']);
        assert("w"@ =~= seq!['w']);
        assert("m"@ =~= seq!['m']);
        assert("y"@ =~= seq!['y']);
    }
    if let Some(h) = count_with_unit(s, "h", 'h') {
        return before(now, h as i128 * 3600);
    }
    if let Some(d) = count_with_unit(s, "d", 'd') {
        return before(now, d as i128 * 86400);
    }
    if let Some(w) = count_with_unit(s, "w", 'w') {
        return before(now, w as i128 * 604800);
    }
    if let Some(m) = count_with_unit(s, "m", 'm') {
        return before(now, m as i128 * 30 * 86400);
    }
    if let Some(y) = count_with_unit(s, "y", 'y') {
        return before(now, y as i128 * 365 * 86400);
    }
    if let Some(ts) = parse_i64(s) {
        if let Some(t) = checked_timestamp(ts) {
            return Some((t, 0));
        }
    }
    if let Some(i) = parse_rfc3339(s) {
        return Some(i);
    }
    before(now, 86400)
}

/// The cutoff of the log endpoint: from the `since` value when given,
/// else 24 hours before `now`; `None` where no cutoff can be represented.
pub fn since_param_cutoff(since: Option<&str>, now: (i64, u32)) -> (r: Option<(i64, u32)>)
    ensures
        r == match since {
            Some(s) => spec_since_cutoff(s@, now),
            None => spec_before(now, 86400),
        },
{
    match since {
        Some(s) => since_cutoff_at(s, now),
        None => before(now, 86400),
    }
}


/// The system clock's current reading as whole seconds and nanoseconds
/// since the epoch. It depends on the clock, so nothing is stated about it.
fn utc_now() -> (i64, u32) {
    crate::readings::epoch_parts(crate::cache::system_time_nanos())
}

/// The cutoff of the log endpoint at the current time; `None` where no
/// cutoff can be represented. The result is the cutoff for some reading of the clock.
pub fn since_cutoff(since: Option<&str>) -> (r: Option<(i64, u32)>)
    ensures
        exists|now: (i64, u32)|
            r == match since {
                Some(s) => spec_since_cutoff(s@, now),
                None => spec_before(now, 86400),
            },
{
    let now = utc_now();
    since_param_cutoff(since, now)
}

} // verus!
