//! The kinds of events that flow through the application's event bus, and
//! the name each kind is published under.

use vstd::prelude::*;

verus! {

/// The variants of a system event, without their payloads.
#[derive(Debug, Clone, Copy, PartialEq, Eq, Structural)]
pub enum EventKind {
    SensorReading,
    SwitchState,
    DeviceState,
    DeviceDiscovered,
    DeviceAvailability,
    AutomationTriggered,
    AutomationExecuted,
    AutomationRuleDeleted,
    LogEntries,
    NetworkTopologyUpdated,
    DevicePairing,
    DevicePositionUpdated,
}

impl EventKind {
    pub open spec fn spec_event_type(self) -> Seq<char> {
        match self {
            EventKind::SensorReading => "sensor_reading"@,
            EventKind::SwitchState => "switch_state"@,
            EventKind::DeviceState => "device_state"@,
            EventKind::DeviceDiscovered => "device_discovered"@,
            EventKind::DeviceAvailability => "device_availability"@,
            EventKind::AutomationTriggered => "automation_triggered"@,
            EventKind::AutomationExecuted => "automation_executed"@,
            EventKind::AutomationRuleDeleted => "automation_rule_deleted"@,
            EventKind::LogEntries => "log_entries"@,
            EventKind::NetworkTopologyUpdated => "network_topology_updated"@,
            EventKind::DevicePairing => "device_pairing"@,
            EventKind::DevicePositionUpdated => "device_position_updated"@,
        }
    }

    /// The identifier of the variant (its snake-case name).
    pub fn event_type(&self) -> (r: &'static str)
        ensures
            r@ == self.spec_event_type(),
    {
        match self {
            EventKind::SensorReading => "sensor_reading",
            EventKind::SwitchState => "switch_state",
            EventKind::DeviceState => "device_state",
            EventKind::DeviceDiscovered => "device_discovered",
            EventKind::DeviceAvailability => "device_availability",
            EventKind::AutomationTriggered => "automation_triggered",
            EventKind::AutomationExecuted => "automation_executed",
            EventKind::AutomationRuleDeleted => "automation_rule_deleted",
            EventKind::LogEntries => "log_entries",
            EventKind::NetworkTopologyUpdated => "network_topology_updated",
            EventKind::DevicePairing => "device_pairing",
            EventKind::DevicePositionUpdated => "device_position_updated",
        }
    }
}

} // verus!
