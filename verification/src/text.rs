//! Character- and byte-level string helpers with exact specifications.
//!
//! Strings are modelled by their character sequence (`s@`) or, where the
//! the logic works on UTF-8 bytes, by `s.spec_bytes()`.

use vstd::prelude::*;
use vstd::string::*;

verus! {

// ---------------------------------------------------------------------------
// Specifications
// ---------------------------------------------------------------------------

/// Unicode `White_Space`, the property behind `char::is_whitespace` and
/// therefore behind `str::trim`.
pub open spec fn is_ws(c: char) -> bool {
    ||| ('\u{9}' <= c && c <= '\u{d}')
    ||| c == ' '
    ||| c == '\u{85}'
    ||| c == '\u{a0}'
    ||| c == '\u{1680}'
    ||| ('\u{2000}' <= c && c <= '\u{200a}')
    ||| c == '\u{2028}'
    ||| c == '\u{2029}'
    ||| c == '\u{202f}'
    ||| c == '\u{205f}'
    ||| c == '\u{3000}'
}

/// First index `i` in `[p, end)` with `s[i] == c`, or `end` when there is none.
pub open spec fn find_from<T>(s: Seq<T>, p: int, c: T, end: int) -> int
    decreases end - p,
{
    if p >= end {
        end
    } else if s[p] == c {
        p
    } else {
        find_from(s, p + 1, c, end)
    }
}

/// Index of the first non-whitespace character at or after `i`.
pub open spec fn lead_ws(s: Seq<char>, i: int) -> int
    decreases s.len() - i,
{
    if 0 <= i < s.len() && is_ws(s[i]) {
        lead_ws(s, i + 1)
    } else {
        i
    }
}

/// One past the last non-whitespace character in `[lo, j)`, or `lo`.
pub open spec fn trail_ws(s: Seq<char>, j: int, lo: int) -> int
    decreases j - lo,
{
    if j > lo && is_ws(s[j - 1]) {
        trail_ws(s, j - 1, lo)
    } else {
        j
    }
}

/// `s` with leading and trailing whitespace removed (`str::trim`).
pub open spec fn trim(s: Seq<char>) -> Seq<char> {
    let lo = lead_ws(s, 0);
    s.subrange(lo, trail_ws(s, s.len() as int, lo))
}

/// `t` is a prefix of `s`.
pub open spec fn starts_with<T>(s: Seq<T>, t: Seq<T>) -> bool {
    t.len() <= s.len() && s.subrange(0, t.len() as int) == t
}

/// `t` is a suffix of `s`.
pub open spec fn ends_with<T>(s: Seq<T>, t: Seq<T>) -> bool {
    t.len() <= s.len() && s.subrange(s.len() - t.len(), s.len() as int) == t
}

/// `t` occurs in `s` starting at index `i`.
pub open spec fn occurs_at<T>(s: Seq<T>, t: Seq<T>, i: int) -> bool {
    0 <= i && i + t.len() <= s.len() && s.subrange(i, i + t.len()) == t
}

/// `t` occurs somewhere in `s` (`str::contains` for a string pattern).
pub open spec fn contains_seq<T>(s: Seq<T>, t: Seq<T>) -> bool {
    exists|i: int| occurs_at(s, t, i)
}

/// ASCII lower-casing of one character (`char::to_ascii_lowercase`).
pub open spec fn ascii_lower(c: char) -> char {
    if 'A' <= c && c <= 'Z' {
        ((c as u32) + 32) as char
    } else {
        c
    }
}

/// ASCII lower-casing of one byte (`u8::to_ascii_lowercase`).
pub open spec fn ascii_lower_byte(b: u8) -> u8 {
    if 65 <= b && b <= 90 {
        (b + 32) as u8
    } else {
        b
    }
}

/// `s` with every ASCII upper-case byte lowered.
pub open spec fn ascii_lower_bytes(s: Seq<u8>) -> Seq<u8> {
    Seq::new(s.len(), |i: int| ascii_lower_byte(s[i]))
}

/// Equality up to ASCII case (`str::eq_ignore_ascii_case`).
pub open spec fn eq_ignore_ascii_case(a: Seq<char>, b: Seq<char>) -> bool {
    a.len() == b.len() && forall|i: int| 0 <= i < a.len() ==> ascii_lower(#[trigger] a[i]) == ascii_lower(b[i])
}

/// Decimal digit.
pub open spec fn is_digit(c: char) -> bool {
    '0' <= c && c <= '9'
}

/// Value of a decimal digit.
pub open spec fn digit_val(c: char) -> int {
    (c as int) - ('0' as int)
}

/// All characters are decimal digits.
pub open spec fn all_digits(s: Seq<char>) -> bool {
    forall|i: int| 0 <= i < s.len() ==> is_digit(#[trigger] s[i])
}

/// Value of a string of decimal digits.
pub open spec fn digits_val(s: Seq<char>) -> int
    decreases s.len(),
{
    if s.len() == 0 {
        0
    } else {
        digits_val(s.drop_last()) * 10 + digit_val(s.last())
    }
}

/// The integer that Rust's `FromStr` for integers reads from `s`, before the
/// range check: an optional `+` (or `-` when `signed`), then one or more
/// decimal digits.
pub open spec fn spec_parse_int(s: Seq<char>, signed: bool) -> Option<int> {
    if s.len() == 0 {
        None
    } else if s[0] == '+' || (signed && s[0] == '-') {
        let d = s.drop_first();
        if d.len() > 0 && all_digits(d) {
            Some(if s[0] == '-' { -digits_val(d) } else { digits_val(d) })
        } else {
            None
        }
    } else if all_digits(s) {
        Some(digits_val(s))
    } else {
        None
    }
}

/// `s.parse::<i64>().ok()`.
pub open spec fn spec_parse_i64(s: Seq<char>) -> Option<i64> {
    match spec_parse_int(s, true) {
        Some(v) => if i64::MIN <= v <= i64::MAX { Some(v as i64) } else { None },
        None => None,
    }
}

/// `s.parse::<usize>().ok()`.
pub open spec fn spec_parse_usize(s: Seq<char>) -> Option<usize> {
    match spec_parse_int(s, false) {
        Some(v) => if 0 <= v <= usize::MAX { Some(v as usize) } else { None },
        None => None,
    }
}

// ---------------------------------------------------------------------------
// Lemmas
// ---------------------------------------------------------------------------

/// The scan that stopped at `j` computed `find_from`.
pub proof fn lemma_find_from<T>(s: Seq<T>, p: int, c: T, end: int, j: int)
    requires
        p <= j <= end,
        forall|k: int| p <= k < j ==> s[k] != c,
        j == end || s[j] == c,
    ensures
        find_from(s, p, c, end) == j,
    decreases j - p,
{
    if p < j {
        lemma_find_from(s, p + 1, c, end, j);
    }
}

/// `find_from` lies in `[p, end]` and nothing before it matches.
pub proof fn lemma_find_from_bounds<T>(s: Seq<T>, p: int, c: T, end: int)
    requires
        p <= end,
    ensures
        p <= find_from(s, p, c, end) <= end,
        forall|k: int| p <= k < find_from(s, p, c, end) ==> s[k] != c,
        find_from(s, p, c, end) < end ==> s[find_from(s, p, c, end)] == c,
    decreases end - p,
{
    if p < end && s[p] != c {
        lemma_find_from_bounds(s, p + 1, c, end);
    }
}

proof fn lemma_lead_ws(s: Seq<char>, i: int, j: int)
    requires
        0 <= i <= j <= s.len(),
        forall|k: int| i <= k < j ==> is_ws(s[k]),
    ensures
        lead_ws(s, i) == lead_ws(s, j),
    decreases j - i,
{
    if i < j {
        lemma_lead_ws(s, i + 1, j);
    }
}

proof fn lemma_trail_ws(s: Seq<char>, j: int, k: int, lo: int)
    requires
        lo <= k <= j,
        forall|m: int| k <= m < j ==> is_ws(s[m]),
    ensures
        trail_ws(s, j, lo) == trail_ws(s, k, lo),
    decreases j - k,
{
    if k < j {
        lemma_trail_ws(s, j - 1, k, lo);
    }
}

/// A longer digit string is worth at least as much as its prefix.
pub proof fn lemma_digits_take_le(s: Seq<char>, k: int)
    requires
        0 <= k <= s.len(),
        all_digits(s),
    ensures
        0 <= digits_val(s.take(k)) <= digits_val(s),
    decreases s.len() - k,
{
    lemma_digits_nonneg(s);
    if k < s.len() {
        lemma_digits_take_le(s, k + 1);
        assert(s.take(k + 1).drop_last() =~= s.take(k));
        lemma_digits_nonneg(s.take(k));
    } else {
        assert(s.take(k) =~= s);
    }
}

/// Digit strings have non-negative values.
pub proof fn lemma_digits_nonneg(s: Seq<char>)
    requires
        all_digits(s),
    ensures
        digits_val(s) >= 0,
    decreases s.len(),
{
    if s.len() > 0 {
        assert(all_digits(s.drop_last()));
        lemma_digits_nonneg(s.drop_last());
    }
}

// ---------------------------------------------------------------------------
// Executable helpers
// ---------------------------------------------------------------------------

/// The characters of `s`, in order.
pub fn chars_of(s: &str) -> (v: Vec<char>)
    ensures
        v@ == s@,
{
    let mut v: Vec<char> = Vec::new();
    for c in it: s.chars()
        invariant
            it.seq() == s@,
            v@ == it.seq().take(it.index() as int),
    {
        v.push(c);
    }
    v
}

/// The UTF-8 bytes of `s`.
pub fn bytes_of(s: &str) -> (v: Vec<u8>)
    ensures
        v@ == s.spec_bytes(),
{
    s.as_bytes_vec()
}

/// `char::is_whitespace`.
pub fn char_is_ws(c: char) -> (b: bool)
    ensures
        b == is_ws(c),
{
    ('\u{9}' <= c && c <= '\u{d}') || c == ' ' || c == '\u{85}' || c == '\u{a0}' || c == '\u{1680}'
        || ('\u{2000}' <= c && c <= '\u{200a}') || c == '\u{2028}' || c == '\u{2029}' || c
        == '\u{202f}' || c == '\u{205f}' || c == '\u{3000}'
}

/// `char::to_ascii_lowercase`.
pub fn char_ascii_lower(c: char) -> (r: char)
    ensures
        r == ascii_lower(c),
{
    if 'A' <= c && c <= 'Z' {
        let n: u32 = (c as u32) + 32;
        assert(n <= 0x7f);
        n as u8 as char
    } else {
        c
    }
}

/// First index in `[p, end)` of `v` holding `c`, or `end`.
pub fn find_char(v: &Vec<char>, p: usize, c: char, end: usize) -> (r: usize)
    requires
        p <= end <= v.len(),
    ensures
        r as int == find_from(v@, p as int, c, end as int),
        p <= r <= end,
{
    let mut j = p;
    while j < end
        invariant
            p <= j <= end <= v.len(),
            forall|k: int| p <= k < j ==> v@[k] != c,
        decreases end - j,
    {
        if v[j] == c {
            proof {
                lemma_find_from(v@, p as int, c, end as int, j as int);
            }
            return j;
        }
        j = j + 1;
    }
    proof {
        lemma_find_from(v@, p as int, c, end as int, j as int);
    }
    j
}

/// Bounds of `trim(s)` within `s`.
pub fn trim_bounds(v: &Vec<char>) -> (r: (usize, usize))
    ensures
        r.0 as int == lead_ws(v@, 0),
        r.1 as int == trail_ws(v@, v@.len() as int, r.0 as int),
        r.0 <= r.1 <= v.len(),
{
    let mut lo: usize = 0;
    while lo < v.len() && char_is_ws(v[lo])
        invariant
            lo <= v.len(),
            forall|k: int| 0 <= k < lo ==> is_ws(v@[k]),
        decreases v.len() - lo,
    {
        lo = lo + 1;
    }
    proof {
        lemma_lead_ws(v@, 0, lo as int);
    }
    let mut hi: usize = v.len();
    while hi > lo && char_is_ws(v[hi - 1])
        invariant
            lo <= hi <= v.len(),
            forall|m: int| hi <= m < v.len() ==> is_ws(v@[m]),
        decreases hi,
    {
        hi = hi - 1;
    }
    proof {
        lemma_trail_ws(v@, v@.len() as int, hi as int, lo as int);
    }
    (lo, hi)
}

/// `s.trim()`.
pub fn trim_str(s: &str) -> (t: &str)
    ensures
        t@ == trim(s@),
{
    let v = chars_of(s);
    let (lo, hi) = trim_bounds(&v);
    s.substring_char(lo, hi)
}

/// `s.trim().is_empty()`: `s` holds nothing but whitespace.
pub fn is_blank(s: &str) -> (b: bool)
    ensures
        b == (trim(s@).len() == 0),
{
    trim_str(s).unicode_len() == 0
}

/// Equality of two character sequences held in vectors.
pub fn chars_eq(a: &Vec<char>, b: &Vec<char>) -> (r: bool)
    ensures
        r == (a@ == b@),
{
    if a.len() != b.len() {
        return false;
    }
    let mut i: usize = 0;
    while i < a.len()
        invariant
            a.len() == b.len(),
            i <= a.len(),
            forall|k: int| 0 <= k < i ==> a@[k] == b@[k],
        decreases a.len() - i,
    {
        if a[i] != b[i] {
            return false;
        }
        i = i + 1;
    }
    assert(a@ =~= b@);
    true
}

/// `v[lo..hi] == t`, character by character.
pub fn chars_range_eq(v: &Vec<char>, lo: usize, hi: usize, t: &Vec<char>) -> (r: bool)
    requires
        lo <= hi <= v.len(),
    ensures
        r == (v@.subrange(lo as int, hi as int) == t@),
{
    if hi - lo != t.len() {
        return false;
    }
    let mut i: usize = 0;
    while i < t.len()
        invariant
            hi - lo == t.len(),
            lo <= hi <= v.len(),
            i <= t.len(),
            forall|k: int| 0 <= k < i ==> v@[lo + k] == t@[k],
        decreases t.len() - i,
    {
        if v[lo + i] != t[i] {
            assert(v@.subrange(lo as int, hi as int)[i as int] != t@[i as int]);
            return false;
        }
        i = i + 1;
    }
    assert(v@.subrange(lo as int, hi as int) =~= t@);
    true
}

/// `s == t` for two string slices.
pub fn str_eq(s: &str, t: &str) -> (r: bool)
    ensures
        r == (s@ == t@),
{
    let a = chars_of(s);
    let b = chars_of(t);
    chars_eq(&a, &b)
}

/// `s.starts_with(t)`.
pub fn str_starts_with(s: &str, t: &str) -> (r: bool)
    ensures
        r == starts_with(s@, t@),
{
    let a = chars_of(s);
    let b = chars_of(t);
    if b.len() > a.len() {
        return false;
    }
    chars_range_eq(&a, 0, b.len(), &b)
}

/// `s.ends_with(t)`.
pub fn str_ends_with(s: &str, t: &str) -> (r: bool)
    ensures
        r == ends_with(s@, t@),
{
    let a = chars_of(s);
    let b = chars_of(t);
    if b.len() > a.len() {
        return false;
    }
    chars_range_eq(&a, a.len() - b.len(), a.len(), &b)
}

/// `s.eq_ignore_ascii_case(t)`.
pub fn str_eq_ignore_ascii_case(s: &str, t: &str) -> (r: bool)
    ensures
        r == eq_ignore_ascii_case(s@, t@),
{
    let a = chars_of(s);
    let b = chars_of(t);
    if a.len() != b.len() {
        return false;
    }
    let mut i: usize = 0;
    while i < a.len()
        invariant
            a.len() == b.len(),
            a@ == s@,
            b@ == t@,
            i <= a.len(),
            forall|k: int| 0 <= k < i ==> ascii_lower(#[trigger] a@[k]) == ascii_lower(b@[k]),
        decreases a.len() - i,
    {
        if char_ascii_lower(a[i]) != char_ascii_lower(b[i]) {
            assert(ascii_lower(a@[i as int]) != ascii_lower(b@[i as int]));
            assert(!eq_ignore_ascii_case(s@, t@));
            return false;
        }
        i = i + 1;
    }
    true
}

/// `t` occurs in `s` at index `i`.
fn bytes_occurs_at(s: &Vec<u8>, t: &Vec<u8>, i: usize) -> (r: bool)
    requires
        i + t.len() <= s.len(),
    ensures
        r == occurs_at(s@, t@, i as int),
{
    let mut k: usize = 0;
    while k < t.len()
        invariant
            i + t.len() <= s.len(),
            k <= t.len(),
            forall|m: int| 0 <= m < k ==> s@[i + m] == t@[m],
        decreases t.len() - k,
    {
        if s[i + k] != t[k] {
            assert(s@.subrange(i as int, i + t.len())[k as int] != t@[k as int]);
            return false;
        }
        k = k + 1;
    }
    assert(s@.subrange(i as int, i + t.len()) =~= t@);
    true
}

/// `t` occurs in `s` (byte-level search, as `str::contains` does).
pub fn bytes_contains(s: &Vec<u8>, t: &Vec<u8>) -> (r: bool)
    ensures
        r == contains_seq(s@, t@),
{
    if t.len() > s.len() {
        assert forall|i: int| !occurs_at(s@, t@, i) by {}
        return false;
    }
    let last = s.len() - t.len();
    let mut i: usize = 0;
    while i < last
        invariant
            last == s.len() - t.len(),
            t.len() <= s.len(),
            i <= last,
            forall|j: int| 0 <= j < i ==> !occurs_at(s@, t@, j),
        decreases last - i,
    {
        if bytes_occurs_at(s, t, i) {
            return true;
        }
        i = i + 1;
    }
    if bytes_occurs_at(s, t, last) {
        return true;
    }
    assert forall|j: int| !occurs_at(s@, t@, j) by {
        if 0 <= j && j + t.len() <= s.len() {
            assert(j <= last);
        }
    }
    false
}

/// `s.parse::<i64>().ok()` and `s.parse::<usize>().ok()` share this reader:
/// it returns the value when it lies in `[-neg_limit, pos_limit]`.
fn parse_int_bounded(s: &str, signed: bool, pos_limit: u128, neg_limit: u128) -> (r: Option<(bool, u128)>)
    requires
        pos_limit <= 0x1_0000_0000_0000_0000,
        neg_limit <= 0x1_0000_0000_0000_0000,
    ensures
        match spec_parse_int(s@, signed) {
            Some(v) => if (v >= 0 && v <= pos_limit) || (v < 0 && -v <= neg_limit) {
                r matches Some((neg, mag)) && (if neg { v == -(mag as int) && mag > 0 } else { v == mag as int })
            } else {
                r is None
            },
            None => r is None,
        },
{
    let v = chars_of(s);
    if v.len() == 0 {
        return None;
    }
    let first = v[0];
    let mut start: usize = 0;
    let mut neg = false;
    if first == '+' || (signed && first == '-') {
        if v.len() == 1 {
            return None;
        }
        start = 1;
        neg = first == '-';
    }
    let limit: u128 = if neg { neg_limit } else { pos_limit };
    let ghost d = v@.subrange(start as int, v@.len() as int);
    assert(start == 1 ==> d =~= v@.drop_first());
    assert(start == 0 ==> d =~= v@);
    let mut acc: u128 = 0;
    let mut i: usize = start;
    while i < v.len()
        invariant
            start <= i <= v.len(),
            d == v@.subrange(start as int, v@.len() as int),
            d.len() > 0,
            v@ == s@,
            start == 0 || start == 1,
            (start == 1) == (v@[0] == '+' || (signed && v@[0] == '-')),
            neg == (start == 1 && v@[0] == '-'),
            limit == (if neg { neg_limit } else { pos_limit }),
            acc <= limit,
            limit <= 0x1_0000_0000_0000_0000,
            all_digits(v@.subrange(start as int, i as int)),
            acc as int == digits_val(d.take(i - start)),
        decreases v.len() - i,
    {
        let c = v[i];
        if !('0' <= c && c <= '9') {
            assert(d[i - start] == c);
            assert(!all_digits(d));
            return None;
        }
        let dv: u32 = (c as u32) - ('0' as u32);
        assert(d.take(i - start + 1).drop_last() =~= d.take(i - start));
        assert(d.take(i - start + 1).last() == c);
        acc = acc * 10 + (dv as u128);
        assert(acc as int == digits_val(d.take(i - start + 1)));
        assert(v@.subrange(start as int, i + 1) =~= v@.subrange(start as int, i as int).push(c));
        if acc > limit {
            proof {
                assert(all_digits(v@.subrange(start as int, i + 1)));
                assert(v@.subrange(start as int, i + 1) =~= d.take(i - start + 1));
                if start == 0 {
                    assert(d =~= s@);
                } else {
                    assert(d =~= s@.drop_first());
                }
                if all_digits(d) {
                    lemma_digits_take_le(d, i - start + 1);
                }
            }
            return None;
        }
        i = i + 1;
    }
    assert(d.take(i - start) =~= d);
    assert(v@.subrange(start as int, i as int) =~= d);
    if neg && acc == 0 {
        return Some((false, 0));
    }
    Some((neg, acc))
}

/// `s.parse::<i64>().ok()`.
pub fn parse_i64(s: &str) -> (r: Option<i64>)
    ensures
        r == spec_parse_i64(s@),
{
    match parse_int_bounded(s, true, 0x7fff_ffff_ffff_ffff, 0x8000_0000_0000_0000) {
        None => None,
        Some((neg, mag)) => {
            if neg {
                if mag == 0x8000_0000_0000_0000 {
                    Some(i64::MIN)
                } else {
                    let m: i64 = mag as i64;
                    Some(-m)
                }
            } else {
                Some(mag as i64)
            }
        },
    }
}

/// `s.parse::<usize>().ok()`.
pub fn parse_usize(s: &str) -> (r: Option<usize>)
    ensures
        r == spec_parse_usize(s@),
{
    match parse_int_bounded(s, false, usize::MAX as u128, 0) {
        None => None,
        Some((_neg, mag)) => Some(mag as usize),
    }
}

/// The `,`-separated segments of `s` from index `p` on (`str::split(',')`).
pub open spec fn segments_from(s: Seq<char>, p: int) -> Seq<Seq<char>>
    decreases s.len() - p,
{
    if p < 0 || p > s.len() {
        Seq::empty()
    } else {
        let end = find_from(s, p, ',', s.len() as int);
        if end < s.len() {
            proof {
                lemma_find_from_bounds(s, p, ',', s.len() as int);
            }
            seq![s.subrange(p, end)] + segments_from(s, end + 1)
        } else {
            seq![s.subrange(p, s.len() as int)]
        }
    }
}

/// The `,`-separated segments of `s`, each trimmed.
pub open spec fn trimmed_segments(s: Seq<char>) -> Seq<Seq<char>> {
    segments_from(s, 0).map_values(|seg: Seq<char>| trim(seg))
}

/// `s.split(',').map(str::trim)`, collected.
pub fn split_trimmed(s: &str) -> (r: Vec<&str>)
    ensures
        r@.map_values(|t: &str| t@) == trimmed_segments(s@),
{
    let v = chars_of(s);
    let len = v.len();
    let mut out: Vec<&str> = Vec::new();
    let mut p: usize = 0;
    loop
        invariant
            v@ == s@,
            len == v.len(),
            p <= len,
            out@.map_values(|t: &str| t@) + segments_from(s@, p as int).map_values(|seg: Seq<char>| trim(seg))
                == trimmed_segments(s@),
        decreases len - p,
    {
        let end = find_char(&v, p, ',', len);
        let seg = s.substring_char(p, end);
        let t = trim_str(seg);
        let ghost before = out@.map_values(|t: &str| t@);
        out.push(t);
        assert(out@.map_values(|t: &str| t@) =~= before.push(trim(s@.subrange(p as int, end as int))));
        if end < len {
            assert(segments_from(s@, p as int) == seq![s@.subrange(p as int, end as int)] + segments_from(s@, end + 1));
            assert(segments_from(s@, p as int).map_values(|seg: Seq<char>| trim(seg)) =~= seq![trim(s@.subrange(p as int, end as int))]
                + segments_from(s@, end + 1).map_values(|seg: Seq<char>| trim(seg)));
            assert(before + segments_from(s@, p as int).map_values(|seg: Seq<char>| trim(seg)) =~= out@.map_values(|t: &str| t@)
                + segments_from(s@, end + 1).map_values(|seg: Seq<char>| trim(seg)));
            p = end + 1;
        } else {
            assert(segments_from(s@, p as int) == seq![s@.subrange(p as int, len as int)]);
            assert(segments_from(s@, p as int).map_values(|seg: Seq<char>| trim(seg)) =~= seq![trim(s@.subrange(p as int, len as int))]);
            assert(out@.map_values(|t: &str| t@) =~= trimmed_segments(s@));
            return out;
        }
    }
}

/// `s.split(',')`, collected.
pub fn split_commas(s: &str) -> (r: Vec<&str>)
    ensures
        r@.map_values(|t: &str| t@) == segments_from(s@, 0),
{
    let v = chars_of(s);
    let len = v.len();
    let mut out: Vec<&str> = Vec::new();
    let mut p: usize = 0;
    loop
        invariant
            v@ == s@,
            len == v.len(),
            p <= len,
            out@.map_values(|t: &str| t@) + segments_from(s@, p as int) == segments_from(s@, 0),
        decreases len - p,
    {
        let end = find_char(&v, p, ',', len);
        let seg = s.substring_char(p, end);
        let ghost before = out@.map_values(|t: &str| t@);
        out.push(seg);
        assert(out@.map_values(|t: &str| t@) =~= before.push(s@.subrange(p as int, end as int)));
        if end < len {
            assert(segments_from(s@, p as int) == seq![s@.subrange(p as int, end as int)] + segments_from(s@, end + 1));
            assert(before + segments_from(s@, p as int) =~= out@.map_values(|t: &str| t@) + segments_from(s@, end + 1));
            p = end + 1;
        } else {
            assert(segments_from(s@, p as int) == seq![s@.subrange(p as int, len as int)]);
            assert(out@.map_values(|t: &str| t@) =~= segments_from(s@, 0));
            return out;
        }
    }
}

/// The text before the first `,` of `s` (all of `s` when there is none):
/// the first item of `s.split(',')`.
pub fn first_segment(s: &str) -> (r: &str)
    ensures
        r@ == segments_from(s@, 0)[0],
{
    let v = chars_of(s);
    let end = find_char(&v, 0, ',', v.len());
    s.substring_char(0, end)
}

/// The character of a decimal digit.
pub open spec fn digit_char(d: int) -> char {
    (('0' as int) + d) as char
}

/// Decimal representation of a natural number, without leading zeros.
pub open spec fn nat_decimal(n: nat) -> Seq<char>
    decreases n,
{
    if n < 10 {
        seq![digit_char(n as int)]
    } else {
        nat_decimal(n / 10).push(digit_char((n % 10) as int))
    }
}

/// Decimal representation of an integer (`Display` for integer types).
pub open spec fn int_decimal(n: int) -> Seq<char> {
    if n < 0 {
        seq!['-'] + nat_decimal((-n) as nat)
    } else {
        nat_decimal(n as nat)
    }
}

fn digit_str(d: u8) -> (r: &'static str)
    requires
        d < 10,
    ensures
        r@ == seq![digit_char(d as int)],
{
    proof {
        reveal_strlit("0");
        reveal_strlit("1");
        reveal_strlit("2");
        reveal_strlit("3");
        reveal_strlit("4");
        reveal_strlit("5");
        reveal_strlit("6");
        reveal_strlit("7");
        reveal_strlit("8");
        reveal_strlit("9");
    }
    let r = match d {
        0 => "0",
        1 => "1",
        2 => "2",
        3 => "3",
        4 => "4",
        5 => "5",
        6 => "6",
        7 => "7",
        8 => "8",
        _ => "9",
    };
    assert(r@ =~= seq![digit_char(d as int)]);
    r
}

/// Append the decimal digits of `n` to `out`.
pub fn push_decimal(out: &mut String, n: u128)
    ensures
        final(out)@ == old(out)@ + nat_decimal(n as nat),
    decreases n,
{
    if n >= 10 {
        push_decimal(out, n / 10);
        let d: u8 = (n % 10) as u8;
        out.append(digit_str(d));
        assert(nat_decimal(n as nat) == nat_decimal((n / 10) as nat).push(digit_char((n % 10) as int)));
        assert(final(out)@ =~= old(out)@ + nat_decimal(n as nat));
    } else {
        let d: u8 = n as u8;
        out.append(digit_str(d));
        assert(final(out)@ =~= old(out)@ + nat_decimal(n as nat));
    }
}

/// Append the decimal representation of `n` (with a leading `-` when
/// negative) to `out`.
pub fn push_int_decimal(out: &mut String, n: i128)
    ensures
        final(out)@ == old(out)@ + int_decimal(n as int),
{
    if n < 0 {
        out.append("-");
        proof {
            reveal_strlit("-");
        }
        let m: u128 = if n == i128::MIN { 0x8000_0000_0000_0000_0000_0000_0000_0000 } else { (-n) as u128 };
        let ghost mid = out@;
        push_decimal(out, m);
        assert(final(out)@ =~= old(out)@ + int_decimal(n as int));
    } else {
        push_decimal(out, n as u128);
    }
}

} // verus!
