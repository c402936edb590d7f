//! Conversion of enumerations to and from the strings stored in the database.

use vstd::prelude::*;

verus! {

/// Enumerations stored in the database as fixed strings. Each implementation
/// states the exact mapping in its own contract.
pub trait DbEnum: Sized {
    /// The database string of this variant.
    fn to_db_string(&self) -> &'static str;

    /// The variant stored as `s`; `None` for any other string.
    fn from_db_string(s: &str) -> Option<Self>;
}

} // verus!
