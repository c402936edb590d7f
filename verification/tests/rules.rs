use home_automation_rs::automation::{
    conditions_met, desired_state, enabled_rules, execution_error_message, failure_line, plan_action,
    rule_watches_device, ActionError, ActionFailure, TriggerLog,
};
use home_automation_rs::models::automation::{
    AutomationRule, ComparisonOperator, CreateActionRequest, CreateAutomationRuleRequest,
    CreateConditionRequest, LogicalOperator, SensorField, SwitchAction, TimeWindowRequest,
    UpdateAutomationRuleRequest,
};
use home_automation_rs::models::device::{CommanderType, DeviceCapability, SensorType};
use home_automation_rs::rule_requests::{
    apply_rule_update, apply_time_window_update, check_condition_field, rule_from_request, update_rule_at,
    valid_fields, DeviceLookup,
};
use home_automation_rs::rule_rows::{action_from_row, condition_from_row, condition_operator_from_column, find_rule, active_days_from_column, rule_from_row, RuleRow};

fn temp_sensor() -> DeviceLookup {
    Ok(Some(vec![DeviceCapability::Sensor { sensor_type: SensorType::TempHumidity }]))
}

fn cond(device: &str, field: SensorField) -> CreateConditionRequest {
    CreateConditionRequest {
        device_id: device.into(),
        field,
        operator: ComparisonOperator::GreaterThan,
        value_bits: 21.5f64.to_bits(),
        target_device_id: Some("other".into()),
        target_field: Some(SensorField::Temperature),
    }
}

fn create_request(name: &str) -> CreateAutomationRuleRequest {
    CreateAutomationRuleRequest {
        name: name.into(),
        description: Some("keep warm".into()),
        enabled: None,
        condition_operator: LogicalOperator::And,
        conditions: vec![cond("t1", SensorField::Temperature)],
        actions: vec![CreateActionRequest { device_id: "sw1".into(), action: SwitchAction::On }],
        time_window: None,
    }
}

#[test]
fn valid_field_lists_are_sorted() {
    let caps = vec![
        DeviceCapability::Sensor { sensor_type: SensorType::Presence },
        DeviceCapability::Sensor { sensor_type: SensorType::TempHumidity },
    ];
    assert_eq!(
        valid_fields(&caps),
        vec!["battery", "humidity", "illumination", "link_quality", "presence", "temperature"]
    );
    let energy = vec![DeviceCapability::Sensor { sensor_type: SensorType::EnergyMeter }];
    assert_eq!(valid_fields(&energy), vec!["battery", "link_quality"]);
}

#[test]
fn condition_field_checks() {
    assert_eq!(check_condition_field("t1", &temp_sensor(), SensorField::Humidity), Ok(()));
    assert_eq!(
        check_condition_field("t1", &temp_sensor(), SensorField::Presence),
        Err("Field 'presence' is not valid for device 't1'. Valid fields: battery, humidity, link_quality, temperature".to_string())
    );
    assert_eq!(
        check_condition_field("x", &Ok(None), SensorField::Battery),
        Err("Device 'x' not found".to_string())
    );
    let switch: DeviceLookup = Ok(Some(vec![DeviceCapability::Commander { commander_type: CommanderType::Switch }]));
    assert_eq!(
        check_condition_field("sw", &switch, SensorField::Battery),
        Err("Device 'sw' is not a sensor".to_string())
    );
    assert_eq!(
        check_condition_field("t1", &Err("disk I/O error".to_string()), SensorField::Battery),
        Err("Database error: disk I/O error".to_string())
    );
}

#[test]
fn create_rule_from_request() {
    let rule = rule_from_request(create_request("Heat"), &vec![temp_sensor()]).unwrap();
    assert_eq!(rule.name, "Heat");
    assert!(rule.enabled);
    assert_eq!(rule.conditions.len(), 1);
    assert_eq!(rule.conditions[0].device_id, "t1");
    assert_eq!(rule.conditions[0].value_bits, 21.5f64.to_bits());
    // Conditions built on creation carry no variable target.
    assert!(rule.conditions[0].variable_target().is_none());
    assert_eq!(rule.actions[0].action, SwitchAction::On);
    assert_eq!(rule.created_at, rule.updated_at);
}

#[test]
fn create_rule_refusals_in_order() {
    let blank = rule_from_request(create_request("   "), &vec![temp_sensor()]);
    assert_eq!(blank.err(), Some("Rule name cannot be empty".to_string()));

    let mut no_conds = create_request("R");
    no_conds.conditions.clear();
    no_conds.actions.clear();
    assert_eq!(rule_from_request(no_conds, &vec![]).err(), Some("At least one condition is required".to_string()));

    let mut no_actions = create_request("R");
    no_actions.actions.clear();
    assert_eq!(
        rule_from_request(no_actions, &vec![Ok(None)]).err(),
        Some("At least one action is required".to_string())
    );

    assert_eq!(
        rule_from_request(create_request("R"), &vec![Ok(None)]).err(),
        Some("Device 't1' not found".to_string())
    );
}

#[test]
fn create_rule_with_window_and_disabled() {
    let mut req = create_request("Night");
    req.enabled = Some(false);
    req.time_window = Some(TimeWindowRequest {
        enabled: Some(true),
        start_time: Some("22:00".into()),
        end_time: None,
        active_days: Some(vec![1, 2]),
    });
    let rule = rule_from_request(req, &vec![temp_sensor()]).unwrap();
    assert!(!rule.enabled);
    assert!(rule.time_window.enabled);
    assert_eq!(rule.time_window.start_time.as_deref(), Some("22:00"));
    assert!(rule.time_window.end_time.is_none());
    assert_eq!(rule.time_window.active_days, Some(vec![1, 2]));
}

fn empty_update() -> UpdateAutomationRuleRequest {
    UpdateAutomationRuleRequest {
        name: None,
        description: None,
        enabled: None,
        condition_operator: None,
        conditions: None,
        actions: None,
        time_window: None,
    }
}

#[test]
fn update_rule_merges_fields() {
    let rule = rule_from_request(create_request("Heat"), &vec![temp_sensor()]).unwrap();
    let mut u = empty_update();
    u.name = Some("Heat 2".into());
    u.condition_operator = Some(LogicalOperator::Or);
    u.conditions = Some(vec![cond("t2", SensorField::Battery)]);
    let updated = update_rule_at(rule.clone(), u, &vec![temp_sensor()], 1_700_000_123).unwrap();
    assert_eq!(updated.id, rule.id);
    assert_eq!(updated.name, "Heat 2");
    assert_eq!(updated.description, rule.description);
    assert_eq!(updated.condition_operator, LogicalOperator::Or);
    assert_eq!(updated.conditions[0].device_id, "t2");
    assert_ne!(updated.conditions[0].id, rule.conditions[0].id);
    assert_eq!(updated.actions[0].id, rule.actions[0].id);
    assert_eq!(updated.updated_at, 1_700_000_123);
    assert_eq!(updated.created_at, rule.created_at);
}

#[test]
fn update_rule_refusals() {
    let rule = rule_from_request(create_request("Heat"), &vec![temp_sensor()]).unwrap();
    let mut u = empty_update();
    u.name = Some(" ".into());
    assert_eq!(update_rule_at(rule.clone(), u, &vec![], 5).err(), Some("Rule name cannot be empty".to_string()));

    let mut u = empty_update();
    u.conditions = Some(vec![]);
    assert_eq!(update_rule_at(rule.clone(), u, &vec![], 5).err(), Some("At least one condition is required".to_string()));

    let mut u = empty_update();
    u.actions = Some(vec![]);
    assert_eq!(apply_rule_update(rule.clone(), u, &vec![]).err(), Some("At least one action is required".to_string()));

    let mut u = empty_update();
    u.conditions = Some(vec![cond("t1", SensorField::Illumination)]);
    u.actions = Some(vec![]);
    assert_eq!(
        update_rule_at(rule, u, &vec![temp_sensor()], 5).err(),
        Some("Field 'illumination' is not valid for device 't1'. Valid fields: battery, humidity, link_quality, temperature".to_string())
    );
}

#[test]
fn time_window_update_keeps_unset_fields() {
    let mut rule = rule_from_request(create_request("Heat"), &vec![temp_sensor()]).unwrap();
    apply_time_window_update(
        &mut rule,
        TimeWindowRequest { enabled: Some(true), start_time: Some("06:00".into()), end_time: Some("08:00".into()), active_days: None },
    );
    apply_time_window_update(
        &mut rule,
        TimeWindowRequest { enabled: None, start_time: None, end_time: Some("09:00".into()), active_days: None },
    );
    assert!(rule.time_window.enabled);
    assert_eq!(rule.time_window.start_time.as_deref(), Some("06:00"));
    assert_eq!(rule.time_window.end_time.as_deref(), Some("09:00"));
    assert!(rule.time_window.active_days.is_none());
}

#[test]
fn engine_helpers() {
    let rule = rule_from_request(create_request("Heat"), &vec![temp_sensor()]).unwrap();
    assert!(rule_watches_device(&rule, "t1"));
    assert!(!rule_watches_device(&rule, "t9"));

    let mut off = rule.clone();
    off.enabled = false;
    let kept = enabled_rules(vec![off, rule.clone()]);
    assert_eq!(kept.len(), 1);
    assert_eq!(kept[0].id, rule.id);

    assert!(conditions_met(LogicalOperator::And, &vec![true, true]));
    assert!(!conditions_met(LogicalOperator::And, &vec![true, false]));
    assert!(conditions_met(LogicalOperator::Or, &vec![false, true]));
    assert!(!conditions_met(LogicalOperator::Or, &vec![]));
    assert!(!conditions_met(LogicalOperator::And, &vec![]));

    assert_eq!(desired_state(SwitchAction::Toggle, Some(true)), Ok(false));
    assert_eq!(desired_state(SwitchAction::Toggle, None), Err(ActionError::CurrentStateUnknown));
    assert_eq!(desired_state(SwitchAction::On, None), Ok(true));
}

#[test]
fn action_plans_and_failures() {
    let (topic, on) = plan_action(SwitchAction::Off, Ok(Some("zigbee2mqtt/lamp".into())), None).unwrap();
    assert_eq!(topic, "zigbee2mqtt/lamp/set");
    assert!(!on);
    assert!(matches!(plan_action(SwitchAction::On, Ok(None), None), Err(ActionFailure::DeviceNotFound)));
    assert!(matches!(plan_action(SwitchAction::Toggle, Ok(Some("t".into())), None), Err(ActionFailure::CurrentStateUnknown)));
    assert_eq!(failure_line("sw1", &ActionFailure::DeviceNotFound), "Device sw1: Device not found: sw1");
    assert_eq!(
        failure_line("sw1", &ActionFailure::Publish("timeout".into())),
        "Device sw1: MQTT publish error: timeout"
    );
    assert_eq!(execution_error_message(&vec![]), None);
    assert_eq!(
        execution_error_message(&vec!["a".to_string(), "b".to_string()]),
        Some("a; b".to_string())
    );
}

#[test]
fn debounce_window() {
    let mut log = TriggerLog::new();
    let t0: i64 = 1_000_000_000_000;
    assert!(!log.is_debounced("r1", t0));
    log.record("r1", t0);
    assert!(log.is_debounced("r1", t0 + 59_000_000_000));
    assert!(!log.is_debounced("r1", t0 + 60_000_000_000));
    assert!(!log.is_debounced("r2", t0));
    assert_eq!(log.last_triggered("r1"), Some(t0));
    log.forget("r1");
    assert_eq!(log.last_triggered("r1"), None);
}

#[test]
fn stored_rows_read_back() {
    assert_eq!(condition_operator_from_column("or").ok(), Some(LogicalOperator::Or));
    let bad = condition_operator_from_column("xor").unwrap_err();
    assert_eq!((bad.index, bad.name), (4, "condition_operator"));

    let c = condition_from_row("c1".into(), "t1".into(), "humidity", "lte", 7).unwrap();
    assert_eq!((c.field, c.operator, c.value_bits), (SensorField::Humidity, ComparisonOperator::LessThanOrEqual, 7));
    let e = condition_from_row("c1".into(), "t1".into(), "pressure", "nope", 7).unwrap_err();
    assert_eq!((e.index, e.name), (2, "field"));
    let e = condition_from_row("c1".into(), "t1".into(), "humidity", "nope", 7).unwrap_err();
    assert_eq!((e.index, e.name), (3, "operator"));
    let e = action_from_row("a1".into(), "sw".into(), "flip").unwrap_err();
    assert_eq!((e.index, e.name), (2, "action"));
    assert_eq!(action_from_row("a1".into(), "sw".into(), "toggle").unwrap().action, SwitchAction::Toggle);

    assert_eq!(active_days_from_column(Some("[1,3,5]")).unwrap(), Some(vec![1, 3, 5]));
    assert!(active_days_from_column(Some("[256]")).is_err());
    assert_eq!(active_days_from_column(None).unwrap(), None);

    let rule: AutomationRule = rule_from_row(
        RuleRow {
            id: "r1".into(),
            name: "R".into(),
            description: None,
            enabled: 1,
            created_at: 1_609_459_200,
            updated_at: i64::MAX,
            last_triggered_at: Some(i64::MIN),
            trigger_count: 3,
            time_window_enabled: None,
            time_window_start: None,
            time_window_end: None,
        },
        LogicalOperator::And,
        vec![c],
        vec![],
        Some(vec![1]),
    );
    assert!(rule.enabled);
    assert_eq!(rule.created_at, 1_609_459_200);
    assert_eq!(rule.updated_at, 0);
    assert_eq!(rule.last_triggered_at, None);
    assert!(!rule.time_window.enabled);
    assert_eq!(rule.time_window.active_days, Some(vec![1]));

    let found = find_rule(vec![rule.clone()], "r1");
    assert_eq!(found.map(|r| r.id), Some("r1".to_string()));
    assert!(find_rule(vec![rule], "r2").is_none());
}
