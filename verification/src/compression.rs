//! Transparent gzip compression of response bodies.

use std::io::Write;

use vstd::prelude::*;
use vstd::string::*;

use crate::query::opt_str_view;
use crate::text::{chars_of, find_char, find_from, split_trimmed, starts_with, str_starts_with, trim, trim_str, trimmed_segments};

verus! {

/// Bodies smaller than this are sent uncompressed.
pub const MIN_COMPRESS_BYTES: usize = 1024;

/// Some `,`-separated entry of an `Accept-Encoding` value starts with `gzip`.
pub open spec fn spec_accepts_gzip(accept_encoding: Option<Seq<char>>) -> bool {
    match accept_encoding {
        Some(v) => gzip_listed(v),
        None => false,
    }
}

/// Some trimmed `,`-separated entry of `v` accepts gzip.
pub open spec fn gzip_listed(v: Seq<char>) -> bool {
    exists|i: int| 0 <= i < trimmed_segments(v).len() && entry_accepts_gzip(#[trigger] trimmed_segments(v)[i])
}

/// An entry names gzip (it starts with `gzip`) and does not refuse it with
/// a q-value of zero.
pub open spec fn entry_accepts_gzip(e: Seq<char>) -> bool {
    starts_with(e, "gzip"@) && !refused_by_qvalue(e)
}

/// A qvalue of zero (RFC 9110 12.4.2): `0`, optionally followed by `.` and
/// up to three `0` digits.
pub open spec fn zero_qvalue(v: Seq<char>) -> bool {
    &&& 1 <= v.len() <= 5
    &&& v[0] == '0'
    &&& v.len() >= 2 ==> v[1] == '.'
    &&& forall|k: int| 2 <= k < v.len() ==> v[k] == '0'
}

/// A parameter `q=<zero qvalue>` (the name in either case).
pub open spec fn zero_q_param(p: Seq<char>) -> bool {
    &&& p.len() >= 3
    &&& (p[0] == 'q' || p[0] == 'Q')
    &&& p[1] == '='
    &&& zero_qvalue(p.subrange(2, p.len() as int))
}

/// The trimmed parameter that follows the `;` at index `i` of `e`.
pub open spec fn param_after(e: Seq<char>, i: int) -> Seq<char> {
    trim(e.subrange(i + 1, find_from(e, i + 1, ';', e.len() as int)))
}

/// Some `;`-introduced parameter of the entry is a zero q-value.
pub open spec fn refused_by_qvalue(e: Seq<char>) -> bool {
    exists|i: int| 0 <= i < e.len() && e[i] == ';' && zero_q_param(#[trigger] param_after(e, i))
}

/// Whether a parameter is `q=` with a zero qvalue.
fn is_zero_q_param(p: &str) -> (b: bool)
    ensures
        b == zero_q_param(p@),
{
    let w = chars_of(p);
    if w.len() < 3 || w.len() > 7 {
        return false;
    }
    if !(w[0] == 'q' || w[0] == 'Q') || w[1] != '=' || w[2] != '0' {
        return false;
    }
    let ghost v = w@.subrange(2, w@.len() as int);
    if w.len() == 3 {
        assert(zero_qvalue(v));
        return true;
    }
    if w[3] != '.' {
        return false;
    }
    let mut k: usize = 4;
    while k < w.len()
        invariant
            4 <= k <= w.len() <= 7,
            w@ == p@,
            v == w@.subrange(2, w@.len() as int),
            forall|m: int| 4 <= m < k ==> w@[m] == '0',
        decreases w.len() - k,
    {
        if w[k] != '0' {
            assert(v[k - 2] != '0');
            return false;
        }
        k = k + 1;
    }
    assert(zero_qvalue(v));
    true
}

/// Whether a trimmed entry refuses its coding with a zero q-value.
fn has_zero_qvalue(e: &str) -> (b: bool)
    ensures
        b == refused_by_qvalue(e@),
{
    let v = chars_of(e);
    let len = v.len();
    let mut i: usize = 0;
    while i < len
        invariant
            i <= len == v.len(),
            v@ == e@,
            forall|k: int| 0 <= k < i && v@[k] == ';' ==> !zero_q_param(#[trigger] param_after(e@, k)),
        decreases len - i,
    {
        if v[i] == ';' {
            let end = find_char(&v, i + 1, ';', len);
            let seg = e.substring_char(i + 1, end);
            let t = trim_str(seg);
            assert(t@ == param_after(e@, i as int));
            if is_zero_q_param(t) {
                return true;
            }
        }
        i = i + 1;
    }
    false
}

/// Whether the `Accept-Encoding` header value advertises gzip support: some
/// entry names gzip and does not give it a q-value of zero.
pub fn accepts_gzip(accept_encoding: Option<&str>) -> (b: bool)
    ensures
        b == spec_accepts_gzip(opt_str_view(accept_encoding)),
{
    match accept_encoding {
        None => false,
        Some(v) => {
            let parts = split_trimmed(v);
            let ghost pv = parts@.map_values(|t: &str| t@);
            let mut i: usize = 0;
            while i < parts.len()
                invariant
                    i <= parts.len(),
                    pv == parts@.map_values(|t: &str| t@),
                    pv == trimmed_segments(v@),
                    opt_str_view(accept_encoding) == Some(v@),
                    forall|k: int| 0 <= k < i ==> !entry_accepts_gzip(#[trigger] pv[k]),
                decreases parts.len() - i,
            {
                if str_starts_with(parts[i], "gzip") && !has_zero_qvalue(parts[i]) {
                    assert(entry_accepts_gzip(pv[i as int]));
                    assert(entry_accepts_gzip(trimmed_segments(v@)[i as int]));
                    assert((i as int) < trimmed_segments(v@).len());
                    assert(gzip_listed(v@));
                    return true;
                }
                i = i + 1;
            }
            false
        },
    }
}

/// What `flate2` gives for `data` at the fast level with the default header:
/// `Some` of the gzip stream, or `None` if the encoder reports an error. It
/// depends on the bytes alone.
pub uninterp spec fn gzip_fast(data: Seq<u8>) -> Option<Seq<u8>>;

/// `flate2::write::GzEncoder` at `Compression::fast()` over an in-memory
/// buffer: the named outcome for the input, its gzip stream on success; a
/// write or finish error is passed on as `Err`.
#[verifier::external_body]
fn gzip_encode(data: &[u8]) -> (r: Result<Vec<u8>, ()>)
    ensures
        match r {
            Ok(c) => gzip_fast(data@) == Some(c@),
            Err(()) => gzip_fast(data@) is None,
        },
{
    let mut encoder = flate2::write::GzEncoder::new(Vec::with_capacity(data.len() / 2), flate2::Compression::fast());
    match encoder.write_all(data) {
        Ok(()) => {},
        Err(_) => return Err(()),
    }
    match encoder.finish() {
        Ok(v) => Ok(v),
        Err(_) => Err(()),
    }
}

/// What to send: the body, and whether it is now gzip-encoded.
pub struct CompressedBody {
    pub body: Vec<u8>,
    pub gzipped: bool,
}

/// Gzip a response body when the client accepts gzip, the response is not a
/// protocol switch, carries no `Content-Encoding` yet, and the body has at
/// least `MIN_COMPRESS_BYTES` bytes; the gzip stream is the one `flate2`
/// writes for the body. On an encoder error the body is sent as it was.
pub fn maybe_compress(
    accept_encoding: Option<&str>,
    switching_protocols: bool,
    has_content_encoding: bool,
    body: Vec<u8>,
) -> (r: CompressedBody)
    ensures
        !spec_accepts_gzip(opt_str_view(accept_encoding)) || switching_protocols || has_content_encoding
            || body.len() < MIN_COMPRESS_BYTES ==> r.body@ == body@ && !r.gzipped,
        spec_accepts_gzip(opt_str_view(accept_encoding)) && !switching_protocols && !has_content_encoding
            && body.len() >= MIN_COMPRESS_BYTES ==> match gzip_fast(body@) {
            Some(c) => r.gzipped && r.body@ == c,
            None => !r.gzipped && r.body@ == body@,
        },
        r.gzipped ==> gzip_fast(body@) == Some(r.body@),
        !r.gzipped ==> r.body@ == body@,
{
    if !accepts_gzip(accept_encoding) || switching_protocols || has_content_encoding
        || body.len() < MIN_COMPRESS_BYTES {
        return CompressedBody { body, gzipped: false };
    }
    let encoded = gzip_encode(body.as_slice());
    encoded_or_original(body, encoded)
}

/// Picks what to send once the encoder has run: its output, marked as
/// gzip-encoded, when it succeeded; the original body otherwise.
pub fn encoded_or_original(body: Vec<u8>, encoded: Result<Vec<u8>, ()>) -> (r: CompressedBody)
    ensures
        match encoded {
            Ok(c) => r.gzipped && r.body@ == c@,
            Err(()) => !r.gzipped && r.body@ == body@,
        },
{
    match encoded {
        Ok(c) => CompressedBody { body: c, gzipped: true },
        Err(()) => CompressedBody { body, gzipped: false },
    }
}

} // verus!
