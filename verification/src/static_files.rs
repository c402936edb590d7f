//! Static assets: where an asset path is read from and the content type it
//! is served with.

use vstd::prelude::*;
use vstd::string::*;

use crate::text::{ends_with, str_ends_with};

verus! {

/// The file of an asset: the request path under the `static` directory.
pub fn static_file_path(path: &str) -> (r: String)
    ensures
        r@ == "static"@ + path@,
{
    let mut s = String::from_str("static");
    s.append(path);
    s
}

/// The content type of an asset, by the extension its path ends with.
pub open spec fn spec_content_type(path: Seq<char>) -> Seq<char> {
    if ends_with(path, ".js"@) {
        "application/javascript; charset=utf-8"@
    } else if ends_with(path, ".css"@) {
        "text/css; charset=utf-8"@
    } else if ends_with(path, ".svg"@) {
        "image/svg+xml"@
    } else if ends_with(path, ".png"@) {
        "image/png"@
    } else if ends_with(path, ".jpg"@) || ends_with(path, ".jpeg"@) {
        "image/jpeg"@
    } else {
        "application/octet-stream"@
    }
}

/// Content type of the asset at `path`.
pub fn content_type_for(path: &str) -> (r: &'static str)
    ensures
        r@ == spec_content_type(path@),
{
    if str_ends_with(path, ".js") {
        "application/javascript; charset=utf-8"
    } else if str_ends_with(path, ".css") {
        "text/css; charset=utf-8"
    } else if str_ends_with(path, ".svg") {
        "image/svg+xml"
    } else if str_ends_with(path, ".png") {
        "image/png"
    } else if str_ends_with(path, ".jpg") || str_ends_with(path, ".jpeg") {
        "image/jpeg"
    } else {
        "application/octet-stream"
    }
}

} // verus!
