//! Switch command payload accepted by the HTTP API.

use vstd::prelude::*;

verus! {

/// Command to send to a switch device.
#[derive(Debug)]
pub struct SwitchCommand {
    /// Device id to control
    pub device_id: String,
    /// Desired state (true = ON, false = OFF)
    pub state: bool,
}

} // verus!
