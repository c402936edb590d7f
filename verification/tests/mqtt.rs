use home_automation_rs::models::device::{CommanderType, DeviceCapability, SensorType};
use home_automation_rs::models::mqtt::{switch_command_payload, DeviceMqttMessage, OtherField, SwitchState};
use home_automation_rs::mqtt_loop::{LoopAction, LoopCounters, LoopEvent, TopicFlags};

#[allow(clippy::too_many_arguments)]
fn create_test_mqtt_message(
    linkality: Option<u8>,
    battery: Option<u8>,
    temperature: Option<f32>,
    humidity: Option<f32>,
    occupancy: Option<bool>,
    illumination: Option<String>,
    state: Option<SwitchState>,
    turbo_mode: Option<bool>,
) -> DeviceMqttMessage {
    DeviceMqttMessage {
        linkquality: linkality,
        battery,
        has_temperature: temperature.is_some(),
        has_humidity: humidity.is_some(),
        occupancy,
        illumination,
        has_power: false,
        has_voltage: false,
        has_current: false,
        has_ac_frequency: false,
        has_power_factor: false,
        has_energy: false,
        has_produced_energy: false,
        state,
        turbo_mode,
        other: Vec::new(),
    }
}

#[test]
fn test_device_mqtt_message_has_sensor_data() {
    let temp_msg = create_test_mqtt_message(None, None, Some(22.5), Some(55.0), None, None, None, None);
    assert!(temp_msg.has_sensor_data(&SensorType::TempHumidity));
    assert!(!temp_msg.has_sensor_data(&SensorType::Presence));

    let presence_msg =
        create_test_mqtt_message(None, None, None, None, Some(true), Some("bright".to_string()), None, None);
    assert!(!presence_msg.has_sensor_data(&SensorType::TempHumidity));
    assert!(presence_msg.has_sensor_data(&SensorType::Presence));
}

#[test]
fn test_extract_device_state_returns_struct_with_fields() {
    let msg = create_test_mqtt_message(Some(10), Some(90), None, None, None, None, None, None);

    let state = msg.extract_device_state();
    assert_eq!(state.battery_level, Some(90));
    assert_eq!(state.link_quality, Some(10));
}

#[test]
fn test_device_mqtt_message_has_commander_data() {
    let msg = create_test_mqtt_message(None, None, None, None, None, None, Some(SwitchState::On), None);

    assert!(msg.has_commander_data(&CommanderType::Switch));
}

#[test]
fn capabilities_and_fields_of_a_switch_payload() {
    let mut msg = create_test_mqtt_message(Some(80), None, None, None, None, None, Some(SwitchState::Off), Some(true));
    msg.other = vec![
        OtherField { key: "power_on_behavior".into(), is_null: false },
        OtherField { key: "update".into(), is_null: true },
        OtherField { key: "linkquality".into(), is_null: false },
    ];
    assert_eq!(msg.detect_capabilities(), vec![DeviceCapability::Commander { commander_type: CommanderType::Switch }]);
    assert_eq!(
        msg.available_fields(),
        vec!["linkquality", "power_on_behavior", "state", "turbo_mode"]
    );
}

fn device_topic() -> TopicFlags {
    TopicFlags {
        bridge_response: false,
        bridge_event: false,
        bridge: false,
        command_channel: false,
        availability: false,
        has_device_id: true,
    }
}

#[test]
fn event_loop_decisions() {
    let mut c = LoopCounters::new();
    assert_eq!(c.step(LoopEvent::ConnAck { session_present: false }), (LoopAction::Resubscribe, false));
    assert_eq!(c.step(LoopEvent::ConnAck { session_present: true }), (LoopAction::Nothing, false));
    assert_eq!(c.messages, 0);

    assert_eq!(
        c.step(LoopEvent::Publish { duplicate: false, topic: Some(device_topic()) }),
        (LoopAction::HandleDeviceMessage, false)
    );
    let bridge = TopicFlags { bridge: true, has_device_id: false, ..device_topic() };
    assert_eq!(c.step(LoopEvent::Publish { duplicate: false, topic: Some(bridge) }), (LoopAction::Nothing, false));
    assert_eq!(c.skipped_bridge, 1);
    let response = TopicFlags { bridge_response: true, bridge: true, ..device_topic() };
    assert_eq!(
        c.step(LoopEvent::Publish { duplicate: false, topic: Some(response) }),
        (LoopAction::HandleBridgeResponse, false)
    );
    assert_eq!(c.skipped_bridge, 1);
    let set = TopicFlags { command_channel: true, ..device_topic() };
    assert_eq!(c.step(LoopEvent::Publish { duplicate: false, topic: Some(set) }), (LoopAction::Nothing, false));
    assert_eq!(c.step(LoopEvent::Publish { duplicate: true, topic: Some(device_topic()) }), (LoopAction::Nothing, false));
    assert_eq!(c.messages, 5);

    assert_eq!(c.step(LoopEvent::ConnectionError), (LoopAction::WaitAndRetry, false));
    assert_eq!(c.errors, 1);
    c.record_parse_failure();
    assert_eq!(c.parse_errors, 1);
}

#[test]
fn statistics_every_hundred_messages() {
    let mut c = LoopCounters::new();
    for _ in 0..99 {
        let (_, log) = c.step(LoopEvent::Publish { duplicate: false, topic: None });
        assert!(!log);
    }
    assert_eq!(c.step(LoopEvent::Publish { duplicate: false, topic: None }), (LoopAction::Nothing, true));
    // A duplicate at a multiple of a hundred skips the check.
    for _ in 0..99 {
        c.step(LoopEvent::Outgoing);
        c.step(LoopEvent::Publish { duplicate: false, topic: None });
    }
    assert_eq!(c.messages, 199);
    assert_eq!(c.step(LoopEvent::Publish { duplicate: true, topic: None }), (LoopAction::Nothing, false));
    // The count stays at 200, so other events now report statistics.
    assert_eq!(c.step(LoopEvent::OtherIncoming), (LoopAction::Nothing, true));
}

#[test]
fn switch_commands_use_mqtt_strings() {
    assert_eq!(switch_command_payload(true), r#"{"state":"ON"}"#);
    assert_eq!(switch_command_payload(false), r#"{"state":"OFF"}"#);
    assert_eq!(SwitchState::from_bool(true), SwitchState::On);
    assert_eq!(SwitchState::from_bool(false), SwitchState::Off);
    assert_eq!(SwitchState::from_mqtt_string("on"), Some(SwitchState::On));
    assert_eq!(SwitchState::from_mqtt_string("Off"), Some(SwitchState::Off));
    assert_eq!(SwitchState::from_mqtt_string("oN"), SwitchState::from_mqtt_string("on"));
    let x = "OfF";
    assert_eq!(SwitchState::from_mqtt_string(x), SwitchState::from_mqtt_string(x.to_ascii_lowercase().as_str()));
}
