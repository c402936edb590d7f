//! Validation of WebSocket upgrade requests.

use vstd::prelude::*;
use vstd::string::*;

use crate::query::opt_str_view;
use crate::text::{eq_ignore_ascii_case, split_trimmed, str_eq, str_eq_ignore_ascii_case, trimmed_segments};

verus! {

/// Some `,`-separated token of `header`, trimmed, equals `needle` ignoring
/// ASCII case.
pub open spec fn spec_header_contains(header: Option<Seq<char>>, needle: Seq<char>) -> bool {
    match header {
        Some(v) => token_listed(v, needle),
        None => false,
    }
}

/// Some trimmed `,`-separated token of `v` equals `needle` ignoring ASCII case.
pub open spec fn token_listed(v: Seq<char>, needle: Seq<char>) -> bool {
    exists|i: int| 0 <= i < trimmed_segments(v).len() && eq_ignore_ascii_case(#[trigger] trimmed_segments(v)[i], needle)
}

/// The whole `header` equals `expected` ignoring ASCII case.
pub open spec fn spec_header_equals(header: Option<Seq<char>>, expected: Seq<char>) -> bool {
    match header {
        Some(v) => eq_ignore_ascii_case(v, expected),
        None => false,
    }
}

/// A comma-separated header value lists `needle` (case-insensitive). A header
/// whose value is not visible ASCII is passed as `None`.
pub fn header_contains(header: Option<&str>, needle: &str) -> (b: bool)
    ensures
        b == spec_header_contains(opt_str_view(header), needle@),
{
    match header {
        None => false,
        Some(v) => {
            let parts = split_trimmed(v);
            let ghost pv = parts@.map_values(|t: &str| t@);
            let mut i: usize = 0;
            while i < parts.len()
                invariant
                    i <= parts.len(),
                    pv == parts@.map_values(|t: &str| t@),
                    pv == trimmed_segments(v@),
                    opt_str_view(header) == Some(v@),
                    forall|k: int| 0 <= k < i ==> !eq_ignore_ascii_case(#[trigger] pv[k], needle@),
                decreases parts.len() - i,
            {
                if str_eq_ignore_ascii_case(parts[i], needle) {
                    assert(eq_ignore_ascii_case(pv[i as int], needle@));
                    assert(eq_ignore_ascii_case(trimmed_segments(v@)[i as int], needle@));
                    assert((i as int) < trimmed_segments(v@).len());
                    assert(token_listed(v@, needle@));
                    return true;
                }
                i = i + 1;
            }
            false
        },
    }
}

/// A header value equals `expected` (case-insensitive).
pub fn header_equals(header: Option<&str>, expected: &str) -> (b: bool)
    ensures
        b == spec_header_equals(opt_str_view(header), expected@),
{
    match header {
        None => false,
        Some(v) => str_eq_ignore_ascii_case(v, expected),
    }
}

/// Why an upgrade request is refused.
#[derive(Debug, Clone, Copy, PartialEq, Eq, Structural)]
pub enum WebSocketRequestError {
    NotGet,
    MissingConnectionUpgrade,
    MissingUpgradeWebsocket,
    UnsupportedVersion,
    MissingKey,
}

impl WebSocketRequestError {
    /// Text of the `400 Bad Request` answer.
    pub fn message(&self) -> (r: &'static str)
        ensures
            r@ == self.spec_message(),
    {
        match self {
            WebSocketRequestError::NotGet => "WebSocket upgrade requires GET request",
            WebSocketRequestError::MissingConnectionUpgrade => "Missing Connection: upgrade header",
            WebSocketRequestError::MissingUpgradeWebsocket => "Missing Upgrade: websocket header",
            WebSocketRequestError::UnsupportedVersion => "Unsupported WebSocket version",
            WebSocketRequestError::MissingKey => "Missing Sec-WebSocket-Key header",
        }
    }

    pub open spec fn spec_message(self) -> Seq<char> {
        match self {
            WebSocketRequestError::NotGet => "WebSocket upgrade requires GET request"@,
            WebSocketRequestError::MissingConnectionUpgrade => "Missing Connection: upgrade header"@,
            WebSocketRequestError::MissingUpgradeWebsocket => "Missing Upgrade: websocket header"@,
            WebSocketRequestError::UnsupportedVersion => "Unsupported WebSocket version"@,
            WebSocketRequestError::MissingKey => "Missing Sec-WebSocket-Key header"@,
        }
    }
}

/// The checks of an upgrade request, in order; the key on success.
pub open spec fn spec_validate_upgrade(
    method: Seq<char>,
    connection: Option<Seq<char>>,
    upgrade: Option<Seq<char>>,
    version: Option<Seq<char>>,
    key: Option<Seq<char>>,
) -> Result<Seq<char>, WebSocketRequestError> {
    if method != "GET"@ {
        Err(WebSocketRequestError::NotGet)
    } else if !spec_header_contains(connection, "upgrade"@) {
        Err(WebSocketRequestError::MissingConnectionUpgrade)
    } else if !spec_header_equals(upgrade, "websocket"@) {
        Err(WebSocketRequestError::MissingUpgradeWebsocket)
    } else if version != Some("13"@) {
        Err(WebSocketRequestError::UnsupportedVersion)
    } else {
        match key {
            Some(k) => Ok(k),
            None => Err(WebSocketRequestError::MissingKey),
        }
    }
}

/// Validate an upgrade request from its method and header values (each
/// header as text, or `None` when absent or not visible ASCII).
pub fn validate_websocket_request(
    method: &str,
    connection: Option<&str>,
    upgrade: Option<&str>,
    version: Option<&str>,
    key: Option<&str>,
) -> (r: Result<String, WebSocketRequestError>)
    ensures
        match r {
            Ok(k) => spec_validate_upgrade(
                method@,
                opt_str_view(connection),
                opt_str_view(upgrade),
                opt_str_view(version),
                opt_str_view(key),
            ) == Ok::<Seq<char>, WebSocketRequestError>(k@),
            Err(e) => spec_validate_upgrade(
                method@,
                opt_str_view(connection),
                opt_str_view(upgrade),
                opt_str_view(version),
                opt_str_view(key),
            ) == Err::<Seq<char>, WebSocketRequestError>(e),
        },
{
    if !str_eq(method, "GET") {
        return Err(WebSocketRequestError::NotGet);
    }
    if !header_contains(connection, "upgrade") {
        return Err(WebSocketRequestError::MissingConnectionUpgrade);
    }
    if !header_equals(upgrade, "websocket") {
        return Err(WebSocketRequestError::MissingUpgradeWebsocket);
    }
    let version_ok = match version {
        Some(v) => str_eq(v, "13"),
        None => false,
    };
    if !version_ok {
        return Err(WebSocketRequestError::UnsupportedVersion);
    }
    match key {
        Some(k) => Ok(String::from_str(k)),
        None => Err(WebSocketRequestError::MissingKey),
    }
}

/// tungstenite's `derive_accept_key` over the key's bytes (RFC 6455 4.2.2:
/// the Base64 of the SHA-1 of the key followed by the protocol's GUID). It
/// depends on the key alone.
pub uninterp spec fn ws_accept_key(key: Seq<char>) -> Seq<char>;

/// `tungstenite::handshake::derive_accept_key(key.as_bytes())`: the
/// `Sec-WebSocket-Accept` value for a key, named by `ws_accept_key`.
#[verifier::external_body]
fn derive_accept_key(key: &str) -> (r: String)
    ensures
        r@ == ws_accept_key(key@),
{
    tokio_tungstenite::tungstenite::handshake::derive_accept_key(key.as_bytes())
}

/// Checks an upgrade request and, when it is valid, gives the
/// `Sec-WebSocket-Accept` value for its key; otherwise the first failed
/// check.
pub fn websocket_accept(
    method: &str,
    connection: Option<&str>,
    upgrade: Option<&str>,
    version: Option<&str>,
    key: Option<&str>,
) -> (r: Result<String, WebSocketRequestError>)
    ensures
        match spec_validate_upgrade(
            method@,
            opt_str_view(connection),
            opt_str_view(upgrade),
            opt_str_view(version),
            opt_str_view(key),
        ) {
            Ok(k) => r matches Ok(a) && a@ == ws_accept_key(k),
            Err(e) => r == Err::<String, WebSocketRequestError>(e),
        },
{
    match validate_websocket_request(method, connection, upgrade, version, key) {
        Ok(k) => Ok(derive_accept_key(k.as_str())),
        Err(e) => Err(e),
    }
}

} // verus!
