//! Checks applied to uploaded floor-plan SVG documents.

use vstd::prelude::*;
use vstd::string::*;

use crate::text::{ascii_lower_bytes, bytes_contains, bytes_of, contains_seq, trim, trim_str};

verus! {

/// Largest accepted SVG upload, in bytes (5 MiB).
pub const MAX_SVG_SIZE: usize = 5242880;

/// Bytes that may precede an attribute name.
pub open spec fn is_attr_boundary(b: u8) -> bool {
    b == 32 || b == 9 || b == 10 || b == 13 || b == 34 || b == 39 || b == 60 || b == 47
}

/// ASCII letter.
pub open spec fn is_alpha(b: u8) -> bool {
    (65 <= b && b <= 90) || (97 <= b && b <= 122)
}

/// Space, tab, line feed or carriage return.
pub open spec fn is_space(b: u8) -> bool {
    b == 32 || b == 9 || b == 10 || b == 13
}

/// First index at or after `j` that is not an ASCII letter (or the length).
pub open spec fn skip_alpha(b: Seq<u8>, j: int) -> int
    decreases b.len() - j,
{
    if 0 <= j < b.len() && is_alpha(b[j]) {
        skip_alpha(b, j + 1)
    } else {
        j
    }
}

/// First index at or after `k` that is not a space (or the length).
pub open spec fn skip_space(b: Seq<u8>, k: int) -> int
    decreases b.len() - k,
{
    if 0 <= k < b.len() && is_space(b[k]) {
        skip_space(b, k + 1)
    } else {
        k
    }
}

/// An inline event handler attribute (`on<letters> =`) starts at index `i`.
pub open spec fn handler_at(b: Seq<u8>, i: int) -> bool {
    let prev = if i == 0 { 32u8 } else { b[i - 1] };
    let j = skip_alpha(b, i + 2);
    let k = skip_space(b, j);
    &&& b[i] == 111u8
    &&& b[i + 1] == 110u8
    &&& is_attr_boundary(prev)
    &&& j != i + 2
    &&& k < b.len()
    &&& b[k] == 61u8
}

/// Some start position before the last two bytes holds an event handler.
pub open spec fn has_handler(b: Seq<u8>) -> bool {
    exists|i: int| 0 <= i && i + 2 < b.len() && #[trigger] handler_at(b, i)
}

/// The patterns whose presence marks active SVG content.
pub open spec fn has_banned_pattern(lower: Seq<u8>) -> bool {
    ||| contains_seq(lower, "<script".spec_bytes())
    ||| contains_seq(lower, "javascript:".spec_bytes())
    ||| contains_seq(lower, "<foreignobject".spec_bytes())
    ||| contains_seq(lower, "<iframe".spec_bytes())
    ||| contains_seq(lower, "<embed".spec_bytes())
    ||| contains_seq(lower, "<object".spec_bytes())
}

/// Whether `content` is accepted as safe.
pub open spec fn spec_is_safe_svg(content: Seq<u8>) -> bool {
    let lower = ascii_lower_bytes(content);
    !has_banned_pattern(lower) && !has_handler(lower)
}

/// Whether `content` looks like an SVG document.
pub open spec fn spec_is_valid_svg(content: Seq<char>) -> bool {
    let t = vstd::utf8::encode_utf8(trim(content));
    &&& t.len() >= 6
    &&& contains_seq(t, "<svg".spec_bytes())
    &&& (contains_seq(t, "</svg>".spec_bytes()) || contains_seq(t, "/>".spec_bytes()))
}

proof fn lemma_skip_alpha(b: Seq<u8>, j: int, m: int)
    requires
        0 <= j <= m <= b.len(),
        forall|x: int| j <= x < m ==> is_alpha(b[x]),
    ensures
        skip_alpha(b, j) == skip_alpha(b, m),
    decreases m - j,
{
    if j < m {
        lemma_skip_alpha(b, j + 1, m);
    }
}

proof fn lemma_skip_space(b: Seq<u8>, k: int, m: int)
    requires
        0 <= k <= m <= b.len(),
        forall|x: int| k <= x < m ==> is_space(b[x]),
    ensures
        skip_space(b, k) == skip_space(b, m),
    decreases m - k,
{
    if k < m {
        lemma_skip_space(b, k + 1, m);
    }
}

fn byte_is_alpha(c: u8) -> (r: bool)
    ensures
        r == is_alpha(c),
{
    (65 <= c && c <= 90) || (97 <= c && c <= 122)
}

fn byte_is_space(c: u8) -> (r: bool)
    ensures
        r == is_space(c),
{
    c == 32 || c == 9 || c == 10 || c == 13
}

fn handler_at_exec(b: &Vec<u8>, i: usize) -> (r: bool)
    requires
        i + 2 < b.len(),
    ensures
        r == handler_at(b@, i as int),
{
    if b[i] != 111 || b[i + 1] != 110 {
        return false;
    }
    let prev: u8 = if i == 0 { 32 } else { b[i - 1] };
    if !(prev == 32 || prev == 9 || prev == 10 || prev == 13 || prev == 34 || prev == 39 || prev == 60
        || prev == 47) {
        return false;
    }
    let mut j = i + 2;
    while j < b.len() && byte_is_alpha(b[j])
        invariant
            i + 2 <= j <= b.len(),
            forall|x: int| i + 2 <= x < j ==> is_alpha(b@[x]),
        decreases b.len() - j,
    {
        j = j + 1;
    }
    proof {
        lemma_skip_alpha(b@, i + 2, j as int);
    }
    if j == i + 2 {
        return false;
    }
    let mut k = j;
    while k < b.len() && byte_is_space(b[k])
        invariant
            j <= k <= b.len(),
            forall|x: int| j <= x < k ==> is_space(b@[x]),
        decreases b.len() - k,
    {
        k = k + 1;
    }
    proof {
        lemma_skip_space(b@, j as int, k as int);
    }
    k < b.len() && b[k] == 61
}

fn has_handler_bytes(b: &Vec<u8>) -> (r: bool)
    ensures
        r == has_handler(b@),
{
    let n: usize = if b.len() >= 2 { b.len() - 2 } else { 0 };
    let mut i: usize = 0;
    while i < n
        invariant
            n == (if b.len() >= 2 { b.len() - 2 } else { 0 }),
            i <= n,
            forall|x: int| 0 <= x < i ==> !#[trigger] handler_at(b@, x),
        decreases n - i,
    {
        if handler_at_exec(b, i) {
            return true;
        }
        i = i + 1;
    }
    assert forall|x: int| 0 <= x && x + 2 < b@.len() implies !#[trigger] handler_at(b@, x) by {
        assert(x < i);
    }
    false
}

/// Detect inline event-handler attributes such as `onload=`, `onclick=` or
/// `onbegin=`, allowing whitespace before the `=`. Expects an already
/// lower-cased string.
pub fn has_inline_event_handler(lower: &str) -> (r: bool)
    ensures
        r == has_handler(lower.spec_bytes()),
{
    let b = bytes_of(lower);
    has_handler_bytes(&b)
}

/// Reject SVGs carrying active content: scripts, `javascript:` links,
/// embedded documents, or inline event handlers (case-insensitive).
pub fn is_safe_svg(content: &str) -> (r: bool)
    ensures
        r == spec_is_safe_svg(content.spec_bytes()),
{
    let raw = bytes_of(content);
    let mut lower: Vec<u8> = Vec::new();
    let mut i: usize = 0;
    while i < raw.len()
        invariant
            i <= raw.len(),
            lower@ == ascii_lower_bytes(raw@).take(i as int),
        decreases raw.len() - i,
    {
        let c = raw[i];
        let l: u8 = if 65 <= c && c <= 90 { c + 32 } else { c };
        lower.push(l);
        i = i + 1;
        assert(lower@ =~= ascii_lower_bytes(raw@).take(i as int));
    }
    assert(lower@ =~= ascii_lower_bytes(raw@));
    let banned = bytes_contains(&lower, &bytes_of("<script")) || bytes_contains(
        &lower,
        &bytes_of("javascript:"),
    ) || bytes_contains(&lower, &bytes_of("<foreignobject")) || bytes_contains(
        &lower,
        &bytes_of("<iframe"),
    ) || bytes_contains(&lower, &bytes_of("<embed")) || bytes_contains(&lower, &bytes_of("<object"));
    if banned {
        return false;
    }
    !has_handler_bytes(&lower)
}

/// Basic check that the (trimmed) content is an SVG document: at least six
/// bytes, an `<svg` tag, and a closing tag or a self-closing element.
pub fn is_valid_svg(content: &str) -> (r: bool)
    ensures
        r == spec_is_valid_svg(content@),
{
    let trimmed = trim_str(content);
    let t = bytes_of(trimmed);
    if t.len() < 6 {
        return false;
    }
    if !bytes_contains(&t, &bytes_of("<svg")) {
        return false;
    }
    bytes_contains(&t, &bytes_of("</svg>")) || bytes_contains(&t, &bytes_of("/>"))
}

} // verus!
