use home_automation_rs::sorted::stable_order_by_key;
use home_automation_rs::models::automation::{
    AutomationAction, AutomationCondition, AutomationExecutionLog, AutomationRule, ComparisonOperator,
    CreateConditionRequest, LogicalOperator, SensorField, SwitchAction, TimeWindow,
};
use home_automation_rs::models::db_enum::DbEnum;
use home_automation_rs::models::device::{
    legacy_capabilities, topology_edges, CommanderType, Device, DeviceCapability, PowerSource,
    SensorType,
};
use home_automation_rs::models::mqtt::SwitchState;

fn is_uuid_v4(s: &str) -> bool {
    let b = s.as_bytes();
    b.len() == 36
        && b.iter().enumerate().all(|(i, c)| match i {
            8 | 13 | 18 | 23 => *c == b'-',
            _ => c.is_ascii_digit() || (b'a'..=b'f').contains(c),
        })
        && b[14] == b'4'
        && matches!(b[19], b'8' | b'9' | b'a' | b'b')
}

#[test]
fn test_comparison_operator_conversions() {
    let operators = vec![
        (ComparisonOperator::Equal, "eq"),
        (ComparisonOperator::NotEqual, "neq"),
        (ComparisonOperator::GreaterThan, "gt"),
        (ComparisonOperator::GreaterThanOrEqual, "gte"),
        (ComparisonOperator::LessThan, "lt"),
        (ComparisonOperator::LessThanOrEqual, "lte"),
    ];

    for (op, expected_str) in operators {
        assert_eq!(op.to_db_string(), expected_str);
        assert_eq!(ComparisonOperator::from_db_string(expected_str), Some(op));
    }

    assert_eq!(ComparisonOperator::from_db_string("invalid"), None);
}

#[test]
fn test_sensor_field_conversions() {
    let fields = vec![
        (SensorField::Temperature, "temperature"),
        (SensorField::Humidity, "humidity"),
        (SensorField::Battery, "battery"),
        (SensorField::LinkQuality, "link_quality"),
        (SensorField::Presence, "presence"),
    ];

    for (field, expected_str) in fields {
        assert_eq!(field.to_db_string(), expected_str);
        assert_eq!(SensorField::from_db_string(expected_str), Some(field));
    }

    assert_eq!(SensorField::from_db_string("invalid"), None);
}

#[test]
fn test_logical_operator_conversions() {
    let operators = vec![(LogicalOperator::And, "and"), (LogicalOperator::Or, "or")];

    for (op, expected_str) in operators {
        assert_eq!(op.to_db_string(), expected_str);
        assert_eq!(LogicalOperator::from_db_string(expected_str), Some(op));
    }

    assert_eq!(LogicalOperator::from_db_string("invalid"), None);
}

#[test]
fn test_switch_action_conversions() {
    let actions = vec![
        (SwitchAction::On, "on"),
        (SwitchAction::Off, "off"),
        (SwitchAction::Toggle, "toggle"),
    ];

    for (action, expected_str) in actions {
        assert_eq!(action.to_db_string(), expected_str);
        assert_eq!(SwitchAction::from_db_string(expected_str), Some(action));
    }

    assert_eq!(SwitchAction::from_db_string("invalid"), None);
}

#[test]
fn test_condition_variable_target() {
    // Constant condition: no variable target.
    let constant = AutomationCondition::new(
        "sensor1".into(),
        SensorField::Temperature,
        ComparisonOperator::GreaterThan,
        20.0f64.to_bits(),
    );
    assert!(constant.variable_target().is_none());

    // Variable condition built from a request.
    let cond = AutomationCondition::from_request(CreateConditionRequest {
        device_id: "living_room".into(),
        field: SensorField::Temperature,
        operator: ComparisonOperator::GreaterThan,
        value_bits: 0.0f64.to_bits(),
        target_device_id: Some("bedroom".into()),
        target_field: Some(SensorField::Temperature),
    });

    match cond.variable_target() {
        Some((device_id, field)) => {
            assert_eq!(device_id, "bedroom");
            assert_eq!(field, &SensorField::Temperature);
        }
        None => panic!("expected a variable target"),
    }

    // A target device id without a target field is not a variable target.
    let partial = AutomationCondition {
        target_device_id: Some("bedroom".into()),
        target_field: None,
        ..constant.clone()
    };
    assert!(partial.variable_target().is_none());
}

#[test]
fn illumination_field_conversion() {
    assert_eq!(SensorField::Illumination.to_db_string(), "illumination");
    assert_eq!(SensorField::from_db_string("illumination"), Some(SensorField::Illumination));
    assert_eq!(SensorField::from_db_string("Temperature"), None);
}

#[test]
fn new_records_get_fresh_v4_ids() {
    let a = AutomationAction::new("sw".into(), SwitchAction::Toggle);
    let b = AutomationAction::new("sw".into(), SwitchAction::Toggle);
    assert!(is_uuid_v4(&a.id));
    assert!(is_uuid_v4(&b.id));
    assert_ne!(a.id, b.id);
    assert_eq!(a.device_id, "sw");
    assert_eq!(a.action, SwitchAction::Toggle);

    let log = AutomationExecutionLog::new("r1".into(), "Rule".into(), false, Some("boom".into()), 42);
    assert!(is_uuid_v4(&log.id));
    assert_eq!(log.rule_id, "r1");
    assert_eq!(log.executed_at, 42);
    assert_eq!(log.error_message.as_deref(), Some("boom"));
}

#[test]
fn new_rule_defaults() {
    let rule = AutomationRule::new("Heat".into(), None, LogicalOperator::Or, Vec::new(), Vec::new());
    assert!(is_uuid_v4(&rule.id));
    assert!(rule.enabled);
    assert_eq!(rule.trigger_count, 0);
    assert!(rule.last_triggered_at.is_none());
    assert_eq!(rule.created_at, rule.updated_at);
    assert!(rule.created_at > 1_600_000_000);
    let tw = TimeWindow::default();
    assert!(!tw.enabled && tw.start_time.is_none() && tw.end_time.is_none() && tw.active_days.is_none());
    assert!(!rule.time_window.enabled);
}

#[test]
fn test_sensor_type_to_db_string() {
    assert_eq!(SensorType::TempHumidity.to_db_string(), "temp_humidity");
    assert_eq!(SensorType::Presence.to_db_string(), "presence");
}

#[test]
fn test_sensor_type_from_db_string() {
    assert_eq!(SensorType::from_db_string("temp_humidity"), Some(SensorType::TempHumidity));
    assert_eq!(SensorType::from_db_string("presence"), Some(SensorType::Presence));
    assert_eq!(SensorType::from_db_string("invalid"), None);
}

#[test]
fn test_commander_type_to_db_string() {
    assert_eq!(CommanderType::Switch.to_db_string(), "switch");
}

#[test]
fn test_commander_type_from_db_string() {
    assert_eq!(CommanderType::from_db_string("switch"), Some(CommanderType::Switch));
    assert_eq!(CommanderType::from_db_string("invalid"), None);
}

#[test]
fn test_power_source_to_db_string() {
    assert_eq!(PowerSource::Battery.to_db_string(), "battery");
    assert_eq!(PowerSource::Plugged.to_db_string(), "plugged");
}

#[test]
fn test_power_source_from_db_string() {
    assert_eq!(PowerSource::from_db_string("battery"), Some(PowerSource::Battery));
    assert_eq!(PowerSource::from_db_string("plugged"), Some(PowerSource::Plugged));
    assert_eq!(PowerSource::from_db_string("invalid"), None);
}

#[test]
fn test_power_source_roundtrip() {
    let sources = vec![PowerSource::Battery, PowerSource::Plugged];
    for source in sources {
        let db_string = source.to_db_string();
        let parsed = PowerSource::from_db_string(db_string);
        assert_eq!(Some(source), parsed);
    }
}

#[test]
fn energy_meter_db_string() {
    assert_eq!(SensorType::EnergyMeter.to_db_string(), "energy_meter");
    assert_eq!(SensorType::from_db_string("energy_meter"), Some(SensorType::EnergyMeter));
}

#[test]
fn test_switch_state_from_mqtt_string() {
    assert_eq!(SwitchState::from_mqtt_string("ON"), Some(SwitchState::On));
    assert_eq!(SwitchState::from_mqtt_string("on"), Some(SwitchState::On));
    assert_eq!(SwitchState::from_mqtt_string("OFF"), Some(SwitchState::Off));
    assert_eq!(SwitchState::from_mqtt_string("off"), Some(SwitchState::Off));
    assert_eq!(SwitchState::from_mqtt_string("invalid"), None);
}

#[test]
fn test_switch_state_bool_conversion() {
    assert_eq!(SwitchState::On.to_bool(), true);
    assert_eq!(SwitchState::Off.to_bool(), false);
}

#[test]
fn switch_state_strings_and_toggle() {
    assert_eq!(SwitchState::On.to_mqtt_string(), "ON");
    assert_eq!(SwitchState::Off.to_mqtt_string(), "OFF");
    assert_eq!(SwitchState::On.to_integer(), 1);
    assert_eq!(SwitchState::Off.to_integer(), 0);
    assert_eq!(SwitchState::On.toggled(), SwitchState::Off);
    assert_eq!(SwitchState::On.toggled().toggled(), SwitchState::On);
    assert_eq!(SwitchState::default(), SwitchState::Off);
    assert_eq!(SwitchState::from_mqtt_string("oN"), Some(SwitchState::On));
    // Mixed-case input goes through Unicode upper-casing.
    assert_eq!(SwitchState::from_mqtt_string("ofF"), Some(SwitchState::Off));
    assert_eq!(SwitchState::from_mqtt_string(" on"), None);
}

fn sample_device(caps: Vec<DeviceCapability>, fields: Vec<&str>) -> Device {
    Device::new(
        "0x00158d0001a2b3c4".into(),
        "Lamp".into(),
        caps,
        fields.into_iter().map(String::from).collect(),
        PowerSource::Plugged,
    )
}

#[test]
fn device_new_and_queries() {
    let d = sample_device(
        vec![DeviceCapability::Sensor { sensor_type: SensorType::Presence }],
        vec!["occupancy", "turbo_mode"],
    );
    assert!(is_uuid_v4(&d.id));
    assert_eq!(d.ieee_addr, d.mqtt_topic);
    assert!(!d.is_bridge);
    assert!(d.parent_device_id.is_none());
    assert!(!d.is_battery_powered());
    assert!(d.supports_turbo_mode());
    assert!(d.has_sensor_type(&SensorType::Presence));
    assert!(!d.has_sensor_type(&SensorType::TempHumidity));
    assert!(!d.has_commander_type(&CommanderType::Switch));
    assert!(d.has_capability(&DeviceCapability::Sensor { sensor_type: SensorType::Presence }));
    assert!(!d.is_commander());
}

#[test]
fn router_capability_follows_role() {
    let d = sample_device(vec![DeviceCapability::Commander { commander_type: CommanderType::Switch }], vec!["turbo_mode"]);
    let caps = d.capabilities_for_role(true);
    assert_eq!(
        caps,
        vec![
            DeviceCapability::Commander { commander_type: CommanderType::Switch },
            DeviceCapability::Router { turbo_mode: true }
        ]
    );
    let mut bridged = d.clone();
    bridged.capabilities = caps;
    assert_eq!(
        bridged.capabilities_for_role(false),
        vec![DeviceCapability::Commander { commander_type: CommanderType::Switch }]
    );
    assert_eq!(bridged.capabilities_for_role(true), bridged.capabilities);
}

#[test]
fn available_fields_from_stored_text() {
    assert_eq!(Device::available_fields_from_db("  "), Some(Vec::new()));
    assert_eq!(
        Device::available_fields_from_db("[\"battery\",\"state\"]"),
        Some(vec!["battery".to_string(), "state".to_string()])
    );
    assert_eq!(Device::available_fields_from_db("not json"), None);
}

#[test]
fn legacy_capability_columns() {
    assert_eq!(
        legacy_capabilities(Some("sensor"), Some("temp_humidity"), false),
        vec![DeviceCapability::Sensor { sensor_type: SensorType::TempHumidity }]
    );
    assert_eq!(
        legacy_capabilities(Some("commander"), Some("switch"), true),
        vec![
            DeviceCapability::Commander { commander_type: CommanderType::Switch },
            DeviceCapability::Router { turbo_mode: false }
        ]
    );
    assert_eq!(legacy_capabilities(Some("coordinator"), None, false), vec![DeviceCapability::Coordinator]);
    assert_eq!(legacy_capabilities(Some("sensor"), Some("bogus"), false), Vec::new());
    assert_eq!(legacy_capabilities(None, None, true), vec![DeviceCapability::Router { turbo_mode: false }]);
}

#[test]
fn topology_edges_follow_parents() {
    let coordinator = sample_device(vec![DeviceCapability::Coordinator], vec![]);
    let mut child = sample_device(vec![], vec![]);
    child.parent_device_id = Some(coordinator.id.clone());
    let devices = vec![coordinator.clone(), child.clone()];
    let edges = topology_edges(&devices, &vec![None, Some(87)]);
    assert_eq!(edges.len(), 1);
    assert_eq!(edges[0].source_id, coordinator.id);
    assert_eq!(edges[0].target_id, child.id);
    assert_eq!(edges[0].link_quality, Some(87));
}

#[test]
fn stable_order_sorts_keys_and_keeps_ties() {
    let keys: Vec<String> = ["b", "a", "b", "a", "c"].iter().map(|s| s.to_string()).collect();
    assert_eq!(stable_order_by_key(&keys), vec![1, 3, 0, 2, 4]);
    assert!(stable_order_by_key(&Vec::new()).is_empty());
}
