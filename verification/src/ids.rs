//! Fresh record identifiers: random (version 4) UUIDs in their hyphenated,
//! lower-case text form.

use vstd::prelude::*;

verus! {

/// A lower-case hexadecimal digit.
pub open spec fn is_lower_hex(c: char) -> bool {
    ('0' <= c && c <= '9') || ('a' <= c && c <= 'f')
}

/// Position of one of the four hyphens of the hyphenated UUID form.
pub open spec fn is_hyphen_pos(i: int) -> bool {
    i == 8 || i == 13 || i == 18 || i == 23
}

/// `s` is the hyphenated text of a version 4, RFC 4122 variant UUID:
/// 36 characters, hyphens at 8, 13, 18 and 23, lower-case hex digits
/// elsewhere, version digit `4` and variant digit one of `8`, `9`, `a`, `b`.
pub open spec fn is_uuid_v4_text(s: Seq<char>) -> bool {
    &&& s.len() == 36
    &&& forall|i: int| 0 <= i < 36 ==> (if is_hyphen_pos(i) {
        #[trigger] s[i] == '-'
    } else {
        is_lower_hex(s[i])
    })
    &&& s[14] == '4'
    &&& (s[19] == '8' || s[19] == '9' || s[19] == 'a' || s[19] == 'b')
}

/// `getrandom::fill` over 16 bytes: the operating system's random source.
/// `None` when the source reports an error. The bytes are random, so
/// nothing is stated about them.
#[verifier::external_body]
fn os_random_bytes() -> Option<[u8; 16]> {
    let mut bytes = [0u8; 16];
    match getrandom::fill(&mut bytes) {
        Ok(()) => Some(bytes),
        Err(_) => None,
    }
}

/// `uuid::Builder::from_random_bytes(bytes).into_uuid().to_string()`: the
/// builder sets the version (4) and variant (RFC 4122) bits of the bytes,
/// and `Display` writes the hyphenated lower-case form.
#[verifier::external_body]
fn uuid_v4_text(bytes: [u8; 16]) -> (id: String)
    ensures
        is_uuid_v4_text(id@),
{
    uuid::Builder::from_random_bytes(bytes).into_uuid().to_string()
}

/// The 16 little-endian bytes of the system clock's reading in nanoseconds
/// since the epoch.
fn clock_bytes() -> [u8; 16] {
    let n: u128 = crate::cache::system_time_nanos() as u128;
    let mut bytes = [0u8; 16];
    let mut k: usize = 0;
    while k < 16
        invariant
            k <= 16,
            bytes@.len() == 16,
        decreases 16 - k,
    {
        bytes[k] = ((n >> (8 * k as u32)) & 0xff) as u8;
        k = k + 1;
    }
    bytes
}

/// A fresh version 4 UUID in its hyphenated lower-case text. Its bits come
/// from the operating system's random source; should that source fail, they
/// come from the system clock instead, so that an id is still produced.
pub(crate) fn new_uuid_v4() -> (id: String)
    ensures
        is_uuid_v4_text(id@),
{
    match os_random_bytes() {
        Some(bytes) => uuid_v4_text(bytes),
        None => uuid_v4_text(clock_bytes()),
    }
}

} // verus!
