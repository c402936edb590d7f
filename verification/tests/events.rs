use home_automation_rs::events::EventKind;

#[test]
fn event_type_helper_matches_variants() {
    let event = EventKind::SwitchState;
    assert_eq!("switch_state", event.event_type());
}

#[test]
fn every_event_kind_has_its_snake_case_name() {
    assert_eq!(EventKind::SensorReading.event_type(), "sensor_reading");
    assert_eq!(EventKind::DeviceAvailability.event_type(), "device_availability");
    assert_eq!(EventKind::AutomationRuleDeleted.event_type(), "automation_rule_deleted");
    assert_eq!(EventKind::NetworkTopologyUpdated.event_type(), "network_topology_updated");
    assert_eq!(EventKind::DevicePositionUpdated.event_type(), "device_position_updated");
}
