//! Checks and small decisions of the device endpoints: device ids taken
//! from request paths, device renames, join permits and option updates.

use vstd::prelude::*;
use vstd::string::*;

use crate::text::{ends_with, is_blank, starts_with, str_ends_with, str_starts_with, trim};

verus! {

/// Prefix of the per-device endpoints.
pub const DEVICES_PREFIX: &'static str = "/api/devices/";

/// Seconds a join permit lasts when the request gives no time.
pub const PERMIT_JOIN_DEFAULT_SECS: u64 = 180;

/// `s.strip_prefix(p)`, or the empty string when `s` does not start with `p`.
pub open spec fn spec_after_prefix(s: Seq<char>, p: Seq<char>) -> Seq<char> {
    if starts_with(s, p) {
        s.subrange(p.len() as int, s.len() as int)
    } else {
        Seq::empty()
    }
}

/// `s.strip_suffix(x)`, or the empty string when `s` does not end with `x`.
pub open spec fn spec_before_suffix(s: Seq<char>, x: Seq<char>) -> Seq<char> {
    if ends_with(s, x) {
        s.subrange(0, s.len() - x.len())
    } else {
        Seq::empty()
    }
}

/// `s.strip_prefix(p).unwrap_or("")`.
pub fn after_prefix<'a>(s: &'a str, p: &str) -> (r: &'a str)
    ensures
        r@ == spec_after_prefix(s@, p@),
{
    if str_starts_with(s, p) {
        s.substring_char(p.unicode_len(), s.unicode_len())
    } else {
        proof {
            reveal_strlit("");
        }
        ""
    }
}

/// `s.strip_suffix(x).unwrap_or("")`.
pub fn before_suffix<'a>(s: &'a str, x: &str) -> (r: &'a str)
    ensures
        r@ == spec_before_suffix(s@, x@),
{
    if str_ends_with(s, x) {
        s.substring_char(0, s.unicode_len() - x.unicode_len())
    } else {
        proof {
            reveal_strlit("");
        }
        ""
    }
}

/// The device id of `/api/devices/<id>` (rename requests).
pub fn device_id_from_path(path: &str) -> (r: &str)
    ensures
        r@ == spec_after_prefix(path@, DEVICES_PREFIX@),
{
    after_prefix(path, DEVICES_PREFIX)
}

/// The device id of `/api/devices/<id>/set` (option updates).
pub fn option_device_id_from_path(path: &str) -> (r: &str)
    ensures
        r@ == spec_before_suffix(spec_after_prefix(path@, DEVICES_PREFIX@), "/set"@),
{
    before_suffix(after_prefix(path, DEVICES_PREFIX), "/set")
}

/// The device id of `/api/devices/<id>/position` (position updates).
pub fn position_device_id_from_path(path: &str) -> (r: &str)
    ensures
        r@ == spec_before_suffix(spec_after_prefix(path@, DEVICES_PREFIX@), "/position"@),
{
    before_suffix(after_prefix(path, DEVICES_PREFIX), "/position")
}

/// Why a device request is refused before any work is done.
#[derive(Debug, Clone, Copy, PartialEq, Eq, Structural)]
pub enum DeviceRequestError {
    /// The path carries no device id
    MissingDeviceId,
    /// A rename to a blank name
    EmptyName,
    /// An option update without the `turbo_mode` value
    MissingTurboMode,
}

impl DeviceRequestError {
    pub open spec fn spec_message(self) -> Seq<char> {
        match self {
            DeviceRequestError::MissingDeviceId => "Missing device ID"@,
            DeviceRequestError::EmptyName => "Device name cannot be empty"@,
            DeviceRequestError::MissingTurboMode => "Missing turbo_mode value"@,
        }
    }

    /// Text of the `400 Bad Request` answer.
    pub fn message(&self) -> (r: &'static str)
        ensures
            r@ == self.spec_message(),
    {
        match self {
            DeviceRequestError::MissingDeviceId => "Missing device ID",
            DeviceRequestError::EmptyName => "Device name cannot be empty",
            DeviceRequestError::MissingTurboMode => "Missing turbo_mode value",
        }
    }
}

/// A device id taken from a path must not be empty.
pub fn check_device_id(id: &str) -> (r: Result<(), DeviceRequestError>)
    ensures
        r == (if id@.len() == 0 {
            Err(DeviceRequestError::MissingDeviceId)
        } else {
            Ok(())
        }),
{
    if id.unicode_len() == 0 {
        Err(DeviceRequestError::MissingDeviceId)
    } else {
        Ok(())
    }
}

/// A new device name must not be blank.
pub fn check_device_name(name: &str) -> (r: Result<(), DeviceRequestError>)
    ensures
        r == (if trim(name@).len() == 0 {
            Err(DeviceRequestError::EmptyName)
        } else {
            Ok(())
        }),
{
    if is_blank(name) {
        Err(DeviceRequestError::EmptyName)
    } else {
        Ok(())
    }
}

/// The permit time sent to the bridge: opening the network lasts the
/// requested time or three minutes; closing it carries no time.
pub fn permit_join_time(value: bool, time: Option<u64>) -> (r: Option<u64>)
    ensures
        r == (if value {
            Some(
                match time {
                    Some(t) => t,
                    None => PERMIT_JOIN_DEFAULT_SECS,
                },
            )
        } else {
            None
        }),
{
    if value {
        Some(
            match time {
                Some(t) => t,
                None => PERMIT_JOIN_DEFAULT_SECS,
            },
        )
    } else {
        None
    }
}

/// The turbo-mode value of an option update, which must be present.
pub fn turbo_mode_value(turbo_mode: Option<bool>) -> (r: Result<bool, DeviceRequestError>)
    ensures
        r == match turbo_mode {
            Some(v) => Ok(v),
            None => Err(DeviceRequestError::MissingTurboMode),
        },
{
    match turbo_mode {
        Some(v) => Ok(v),
        None => Err(DeviceRequestError::MissingTurboMode),
    }
}

} // verus!
