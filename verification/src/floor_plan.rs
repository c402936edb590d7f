//! Floor plan uploads and revalidation: the size and content checks of an
//! upload, and the weak entity tag clients revalidate with.

use vstd::prelude::*;
use vstd::string::*;

use crate::query::opt_str_view;
use crate::svg::{is_safe_svg, is_valid_svg, spec_is_safe_svg, spec_is_valid_svg, MAX_SVG_SIZE};
use crate::text::{int_decimal, nat_decimal, push_decimal, push_int_decimal, split_trimmed, str_eq, trimmed_segments};

verus! {

/// The weak tag of a floor plan: `W/"<uploaded_at>-<svg byte length>"`.
pub open spec fn spec_floor_plan_etag(uploaded_at: i64, svg_len: nat) -> Seq<char> {
    "W/\""@ + int_decimal(uploaded_at as int) + "-"@ + nat_decimal(svg_len) + "\""@
}

/// The entity tag of a floor plan uploaded at `uploaded_at` (seconds since
/// the epoch) whose SVG is `svg_len` bytes long.
pub fn floor_plan_etag(uploaded_at: i64, svg_len: usize) -> (r: String)
    ensures
        r@ == spec_floor_plan_etag(uploaded_at, svg_len as nat),
{
    let mut s = String::from_str("W/\"");
    push_int_decimal(&mut s, uploaded_at as i128);
    s.append("-");
    push_decimal(&mut s, svg_len as u128);
    s.append("\"");
    s
}

/// Some `,`-separated tag of `v`, trimmed, is exactly `etag`.
pub open spec fn etag_listed(v: Seq<char>, etag: Seq<char>) -> bool {
    exists|i: int| 0 <= i < trimmed_segments(v).len() && #[trigger] trimmed_segments(v)[i] == etag
}

/// Whether an `If-None-Match` header names this tag, so the client's copy
/// is current.
pub fn etag_matches(if_none_match: Option<&str>, etag: &str) -> (b: bool)
    ensures
        b == match opt_str_view(if_none_match) {
            Some(v) => etag_listed(v, etag@),
            None => false,
        },
{
    match if_none_match {
        None => false,
        Some(v) => {
            let parts = split_trimmed(v);
            let ghost pv = parts@.map_values(|t: &str| t@);
            let mut i: usize = 0;
            while i < parts.len()
                invariant
                    i <= parts.len(),
                    pv == parts@.map_values(|t: &str| t@),
                    pv == trimmed_segments(v@),
                    opt_str_view(if_none_match) == Some(v@),
                    forall|k: int| 0 <= k < i ==> #[trigger] pv[k] != etag@,
                decreases parts.len() - i,
            {
                if str_eq(parts[i], etag) {
                    assert(pv[i as int] == etag@);
                    assert(trimmed_segments(v@)[i as int] == etag@);
                    return true;
                }
                i = i + 1;
            }
            false
        },
    }
}

/// Body of a floor plan upload.
#[derive(Debug, Clone)]
pub struct FloorPlanUpload {
    /// The SVG document
    pub svg_content: String,
}

/// Refuses a request body larger than the SVG size limit, with the message
/// the client is sent.
pub fn check_upload_size(body_len: usize) -> (r: Result<(), String>)
    ensures
        match r {
            Ok(_) => body_len <= MAX_SVG_SIZE,
            Err(m) => body_len > MAX_SVG_SIZE && m@ == "SVG content too large. Maximum size is "@ + nat_decimal(
                MAX_SVG_SIZE as nat,
            ) + " bytes"@,
        },
{
    if body_len > MAX_SVG_SIZE {
        let mut m = String::from_str("SVG content too large. Maximum size is ");
        push_decimal(&mut m, MAX_SVG_SIZE as u128);
        m.append(" bytes");
        return Err(m);
    }
    Ok(())
}

/// Why an uploaded SVG is refused.
#[derive(Debug, Clone, Copy, PartialEq, Eq, Structural)]
pub enum SvgRejection {
    /// Not recognisably an SVG document
    Invalid,
    /// Carries scripts, event handlers or embedded documents
    ActiveContent,
}

impl SvgRejection {
    pub open spec fn spec_message(self) -> Seq<char> {
        match self {
            SvgRejection::Invalid => "Invalid SVG content. Must be a valid SVG document."@,
            SvgRejection::ActiveContent => "SVG contains disallowed active content (scripts, event handlers, or embedded documents)."@,
        }
    }

    /// Text of the `400 Bad Request` answer.
    pub fn message(&self) -> (r: &'static str)
        ensures
            r@ == self.spec_message(),
    {
        match self {
            SvgRejection::Invalid => "Invalid SVG content. Must be a valid SVG document.",
            SvgRejection::ActiveContent => "SVG contains disallowed active content (scripts, event handlers, or embedded documents).",
        }
    }
}

/// Checks an uploaded SVG: first that it is an SVG document, then that it
/// carries no active content.
pub fn check_svg_upload(content: &str) -> (r: Result<(), SvgRejection>)
    ensures
        r == (if !spec_is_valid_svg(content@) {
            Err(SvgRejection::Invalid)
        } else if !spec_is_safe_svg(content.spec_bytes()) {
            Err(SvgRejection::ActiveContent)
        } else {
            Ok(())
        }),
{
    if !is_valid_svg(content) {
        return Err(SvgRejection::Invalid);
    }
    if !is_safe_svg(content) {
        return Err(SvgRejection::ActiveContent);
    }
    Ok(())
}

} // verus!
