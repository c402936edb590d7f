//! Automation rule vocabulary: operators, monitored fields and actions.

use vstd::prelude::*;
use vstd::string::*;

use crate::ids::{is_uuid_v4_text, new_uuid_v4};
use crate::models::db_enum::DbEnum;
use crate::readings::now_timestamp;
use crate::text::str_eq;

verus! {

/// Comparison operator of a rule condition.
#[derive(Debug, Clone, Copy, PartialEq, Eq, Structural)]
pub enum ComparisonOperator {
    Equal,
    NotEqual,
    GreaterThan,
    GreaterThanOrEqual,
    LessThan,
    LessThanOrEqual,
}

/// Sensor field monitored by a condition.
#[derive(Debug, Clone, Copy, PartialEq, Eq, Structural)]
pub enum SensorField {
    Temperature,
    Humidity,
    Battery,
    LinkQuality,
    Presence,
    Illumination,
}

/// How the conditions of a rule combine.
#[derive(Debug, Clone, Copy, PartialEq, Eq, Structural)]
pub enum LogicalOperator {
    /// All conditions must hold
    And,
    /// At least one condition must hold
    Or,
}

/// What a rule does to a switch.
#[derive(Debug, Clone, Copy, PartialEq, Eq, Structural)]
pub enum SwitchAction {
    On,
    Off,
    Toggle,
}

impl ComparisonOperator {
    /// The string that stores this value in the database.
    pub open spec fn spec_db_str(self) -> Seq<char> {
        match self {
            ComparisonOperator::Equal => "eq"@,
            ComparisonOperator::NotEqual => "neq"@,
            ComparisonOperator::GreaterThan => "gt"@,
            ComparisonOperator::GreaterThanOrEqual => "gte"@,
            ComparisonOperator::LessThan => "lt"@,
            ComparisonOperator::LessThanOrEqual => "lte"@,
        }
    }

    /// The value stored as `s`, if any.
    pub open spec fn spec_from_db(s: Seq<char>) -> Option<ComparisonOperator> {
        if s == "eq"@ {
            Some(ComparisonOperator::Equal)
        } else if s == "neq"@ {
            Some(ComparisonOperator::NotEqual)
        } else if s == "gt"@ {
            Some(ComparisonOperator::GreaterThan)
        } else if s == "gte"@ {
            Some(ComparisonOperator::GreaterThanOrEqual)
        } else if s == "lt"@ {
            Some(ComparisonOperator::LessThan)
        } else if s == "lte"@ {
            Some(ComparisonOperator::LessThanOrEqual)
        } else {
            None
        }
    }
}

impl DbEnum for ComparisonOperator {
    fn to_db_string(&self) -> (r: &'static str)
        ensures
            r@ == self.spec_db_str(),
    {
        match self {
            ComparisonOperator::Equal => "eq",
            ComparisonOperator::NotEqual => "neq",
            ComparisonOperator::GreaterThan => "gt",
            ComparisonOperator::GreaterThanOrEqual => "gte",
            ComparisonOperator::LessThan => "lt",
            ComparisonOperator::LessThanOrEqual => "lte",
        }
    }

    fn from_db_string(s: &str) -> (r: Option<Self>)
        ensures
            r == ComparisonOperator::spec_from_db(s@),
    {
        if str_eq(s, "eq") {
            return Some(ComparisonOperator::Equal);
        }
        if str_eq(s, "neq") {
            return Some(ComparisonOperator::NotEqual);
        }
        if str_eq(s, "gt") {
            return Some(ComparisonOperator::GreaterThan);
        }
        if str_eq(s, "gte") {
            return Some(ComparisonOperator::GreaterThanOrEqual);
        }
        if str_eq(s, "lt") {
            return Some(ComparisonOperator::LessThan);
        }
        if str_eq(s, "lte") {
            return Some(ComparisonOperator::LessThanOrEqual);
        }
        None
    }
}

/// Every comparison operator reads back as itself from its database string, and no
/// other string reads back as it.
pub proof fn law_comparison_operator_db_roundtrip(x: ComparisonOperator, s: Seq<char>)
    ensures
        ComparisonOperator::spec_from_db(x.spec_db_str()) == Some(x),
        ComparisonOperator::spec_from_db(s) == Some(x) ==> s == x.spec_db_str(),
{
    reveal_strlit("eq");
    reveal_strlit("neq");
    reveal_strlit("gt");
    reveal_strlit("gte");
    reveal_strlit("lt");
    reveal_strlit("lte");
    assert("eq"@.len() != "neq"@.len());
    assert("eq"@[0] != "gt"@[0]);
    assert("neq"@.len() != "gt"@.len());
    assert("eq"@.len() != "gte"@.len());
    assert("neq"@[0] != "gte"@[0]);
    assert("gt"@.len() != "gte"@.len());
    assert("eq"@[0] != "lt"@[0]);
    assert("neq"@.len() != "lt"@.len());
    assert("gt"@[0] != "lt"@[0]);
    assert("gte"@.len() != "lt"@.len());
    assert("eq"@.len() != "lte"@.len());
    assert("neq"@[0] != "lte"@[0]);
    assert("gt"@.len() != "lte"@.len());
    assert("gte"@[0] != "lte"@[0]);
    assert("lt"@.len() != "lte"@.len());
}

impl SensorField {
    /// The string that stores this value in the database.
    pub open spec fn spec_db_str(self) -> Seq<char> {
        match self {
            SensorField::Temperature => "temperature"@,
            SensorField::Humidity => "humidity"@,
            SensorField::Battery => "battery"@,
            SensorField::LinkQuality => "link_quality"@,
            SensorField::Presence => "presence"@,
            SensorField::Illumination => "illumination"@,
        }
    }

    /// The value stored as `s`, if any.
    pub open spec fn spec_from_db(s: Seq<char>) -> Option<SensorField> {
        if s == "temperature"@ {
            Some(SensorField::Temperature)
        } else if s == "humidity"@ {
            Some(SensorField::Humidity)
        } else if s == "battery"@ {
            Some(SensorField::Battery)
        } else if s == "link_quality"@ {
            Some(SensorField::LinkQuality)
        } else if s == "presence"@ {
            Some(SensorField::Presence)
        } else if s == "illumination"@ {
            Some(SensorField::Illumination)
        } else {
            None
        }
    }
}

impl DbEnum for SensorField {
    fn to_db_string(&self) -> (r: &'static str)
        ensures
            r@ == self.spec_db_str(),
    {
        match self {
            SensorField::Temperature => "temperature",
            SensorField::Humidity => "humidity",
            SensorField::Battery => "battery",
            SensorField::LinkQuality => "link_quality",
            SensorField::Presence => "presence",
            SensorField::Illumination => "illumination",
        }
    }

    fn from_db_string(s: &str) -> (r: Option<Self>)
        ensures
            r == SensorField::spec_from_db(s@),
    {
        if str_eq(s, "temperature") {
            return Some(SensorField::Temperature);
        }
        if str_eq(s, "humidity") {
            return Some(SensorField::Humidity);
        }
        if str_eq(s, "battery") {
            return Some(SensorField::Battery);
        }
        if str_eq(s, "link_quality") {
            return Some(SensorField::LinkQuality);
        }
        if str_eq(s, "presence") {
            return Some(SensorField::Presence);
        }
        if str_eq(s, "illumination") {
            return Some(SensorField::Illumination);
        }
        None
    }
}

/// Every sensor field reads back as itself from its database string, and no
/// other string reads back as it.
pub proof fn law_sensor_field_db_roundtrip(x: SensorField, s: Seq<char>)
    ensures
        SensorField::spec_from_db(x.spec_db_str()) == Some(x),
        SensorField::spec_from_db(s) == Some(x) ==> s == x.spec_db_str(),
{
    reveal_strlit("temperature");
    reveal_strlit("humidity");
    reveal_strlit("battery");
    reveal_strlit("link_quality");
    reveal_strlit("presence");
    reveal_strlit("illumination");
    assert("temperature"@.len() != "humidity"@.len());
    assert("temperature"@.len() != "battery"@.len());
    assert("humidity"@.len() != "battery"@.len());
    assert("temperature"@.len() != "link_quality"@.len());
    assert("humidity"@.len() != "link_quality"@.len());
    assert("battery"@.len() != "link_quality"@.len());
    assert("temperature"@.len() != "presence"@.len());
    assert("humidity"@[0] != "presence"@[0]);
    assert("battery"@.len() != "presence"@.len());
    assert("link_quality"@.len() != "presence"@.len());
    assert("temperature"@.len() != "illumination"@.len());
    assert("humidity"@.len() != "illumination"@.len());
    assert("battery"@.len() != "illumination"@.len());
    assert("link_quality"@[0] != "illumination"@[0]);
    assert("presence"@.len() != "illumination"@.len());
}

impl LogicalOperator {
    /// The string that stores this value in the database.
    pub open spec fn spec_db_str(self) -> Seq<char> {
        match self {
            LogicalOperator::And => "and"@,
            LogicalOperator::Or => "or"@,
        }
    }

    /// The value stored as `s`, if any.
    pub open spec fn spec_from_db(s: Seq<char>) -> Option<LogicalOperator> {
        if s == "and"@ {
            Some(LogicalOperator::And)
        } else if s == "or"@ {
            Some(LogicalOperator::Or)
        } else {
            None
        }
    }
}

impl DbEnum for LogicalOperator {
    fn to_db_string(&self) -> (r: &'static str)
        ensures
            r@ == self.spec_db_str(),
    {
        match self {
            LogicalOperator::And => "and",
            LogicalOperator::Or => "or",
        }
    }

    fn from_db_string(s: &str) -> (r: Option<Self>)
        ensures
            r == LogicalOperator::spec_from_db(s@),
    {
        if str_eq(s, "and") {
            return Some(LogicalOperator::And);
        }
        if str_eq(s, "or") {
            return Some(LogicalOperator::Or);
        }
        None
    }
}

/// Every logical operator reads back as itself from its database string, and no
/// other string reads back as it.
pub proof fn law_logical_operator_db_roundtrip(x: LogicalOperator, s: Seq<char>)
    ensures
        LogicalOperator::spec_from_db(x.spec_db_str()) == Some(x),
        LogicalOperator::spec_from_db(s) == Some(x) ==> s == x.spec_db_str(),
{
    reveal_strlit("and");
    reveal_strlit("or");
    assert("and"@.len() != "or"@.len());
}

impl SwitchAction {
    /// The string that stores this value in the database.
    pub open spec fn spec_db_str(self) -> Seq<char> {
        match self {
            SwitchAction::On => "on"@,
            SwitchAction::Off => "off"@,
            SwitchAction::Toggle => "toggle"@,
        }
    }

    /// The value stored as `s`, if any.
    pub open spec fn spec_from_db(s: Seq<char>) -> Option<SwitchAction> {
        if s == "on"@ {
            Some(SwitchAction::On)
        } else if s == "off"@ {
            Some(SwitchAction::Off)
        } else if s == "toggle"@ {
            Some(SwitchAction::Toggle)
        } else {
            None
        }
    }
}

impl DbEnum for SwitchAction {
    fn to_db_string(&self) -> (r: &'static str)
        ensures
            r@ == self.spec_db_str(),
    {
        match self {
            SwitchAction::On => "on",
            SwitchAction::Off => "off",
            SwitchAction::Toggle => "toggle",
        }
    }

    fn from_db_string(s: &str) -> (r: Option<Self>)
        ensures
            r == SwitchAction::spec_from_db(s@),
    {
        if str_eq(s, "on") {
            return Some(SwitchAction::On);
        }
        if str_eq(s, "off") {
            return Some(SwitchAction::Off);
        }
        if str_eq(s, "toggle") {
            return Some(SwitchAction::Toggle);
        }
        None
    }
}

/// Every switch action reads back as itself from its database string, and no
/// other string reads back as it.
pub proof fn law_switch_action_db_roundtrip(x: SwitchAction, s: Seq<char>)
    ensures
        SwitchAction::spec_from_db(x.spec_db_str()) == Some(x),
        SwitchAction::spec_from_db(s) == Some(x) ==> s == x.spec_db_str(),
{
    reveal_strlit("on");
    reveal_strlit("off");
    reveal_strlit("toggle");
    assert("on"@.len() != "off"@.len());
    assert("on"@.len() != "toggle"@.len());
    assert("off"@.len() != "toggle"@.len());
}

/// A single condition of a rule: `device.field <operator> value`, or, with a
/// variable target, `device.field <operator> target_device.target_field`.
#[derive(Debug, Clone)]
pub struct AutomationCondition {
    pub id: String,
    /// The sensor device to monitor
    pub device_id: String,
    pub field: SensorField,
    pub operator: ComparisonOperator,
    /// The constant compared against, as the bit pattern of an `f64`
    /// (`f64::to_bits`)
    pub value_bits: u64,
    /// Optional device whose reading replaces the constant
    pub target_device_id: Option<String>,
    /// Field to read on `target_device_id`
    pub target_field: Option<SensorField>,
}

/// A condition as submitted by a client.
#[derive(Debug)]
pub struct CreateConditionRequest {
    pub device_id: String,
    pub field: SensorField,
    pub operator: ComparisonOperator,
    /// Bit pattern of the `f64` constant
    pub value_bits: u64,
    pub target_device_id: Option<String>,
    pub target_field: Option<SensorField>,
}

impl AutomationCondition {
    /// A constant condition with a fresh id.
    pub fn new(device_id: String, field: SensorField, operator: ComparisonOperator, value_bits: u64) -> (r: Self)
        ensures
            is_uuid_v4_text(r.id@),
            r.device_id == device_id,
            r.field == field,
            r.operator == operator,
            r.value_bits == value_bits,
            r.target_device_id is None,
            r.target_field is None,
    {
        AutomationCondition {
            id: new_uuid_v4(),
            device_id,
            field,
            operator,
            value_bits,
            target_device_id: None,
            target_field: None,
        }
    }

    /// The condition a request describes, with a fresh id; the variable
    /// target is kept.
    pub fn from_request(c: CreateConditionRequest) -> (r: Self)
        ensures
            is_uuid_v4_text(r.id@),
            r.device_id == c.device_id,
            r.field == c.field,
            r.operator == c.operator,
            r.value_bits == c.value_bits,
            r.target_device_id == c.target_device_id,
            r.target_field == c.target_field,
    {
        AutomationCondition {
            id: new_uuid_v4(),
            device_id: c.device_id,
            field: c.field,
            operator: c.operator,
            value_bits: c.value_bits,
            target_device_id: c.target_device_id,
            target_field: c.target_field,
        }
    }

    /// The variable target (device and field) when both are set; a device
    /// without a field, or a field without a device, is no target.
    pub fn variable_target(&self) -> (r: Option<(&str, &SensorField)>)
        ensures
            match (self.target_device_id, self.target_field) {
                (Some(d), Some(f)) => r matches Some(t) && t.0@ == d@ && *t.1 == f,
                _ => r is None,
            },
    {
        match (&self.target_device_id, &self.target_field) {
            (Some(device_id), Some(field)) => Some((device_id.as_str(), field)),
            _ => None,
        }
    }
}

/// An action to execute when a rule fires.
#[derive(Debug, Clone)]
pub struct AutomationAction {
    pub id: String,
    /// The switch device to control
    pub device_id: String,
    pub action: SwitchAction,
}

impl AutomationAction {
    /// An action with a fresh id.
    pub fn new(device_id: String, action: SwitchAction) -> (r: Self)
        ensures
            is_uuid_v4_text(r.id@),
            r.device_id == device_id,
            r.action == action,
    {
        AutomationAction { id: new_uuid_v4(), device_id, action }
    }
}

/// An action as submitted by a client.
#[derive(Debug)]
pub struct CreateActionRequest {
    pub device_id: String,
    pub action: SwitchAction,
}

/// Time-of-day and weekday limits on when a rule may run.
#[derive(Debug, Clone)]
pub struct TimeWindow {
    pub enabled: bool,
    pub start_time: Option<String>,
    pub end_time: Option<String>,
    pub active_days: Option<Vec<u8>>,
}

impl Default for TimeWindow {
    /// Disabled, with no limits set.
    fn default() -> (r: Self)
        ensures
            !r.enabled,
            r.start_time is None,
            r.end_time is None,
            r.active_days is None,
    {
        TimeWindow { enabled: false, start_time: None, end_time: None, active_days: None }
    }
}

/// Changes to a time window; an absent field is left as it is.
#[derive(Debug)]
pub struct TimeWindowRequest {
    pub enabled: Option<bool>,
    pub start_time: Option<String>,
    pub end_time: Option<String>,
    pub active_days: Option<Vec<u8>>,
}

/// A complete automation rule. Times are whole seconds since the Unix epoch.
#[derive(Debug, Clone)]
pub struct AutomationRule {
    pub id: String,
    pub name: String,
    pub description: Option<String>,
    pub enabled: bool,
    pub condition_operator: LogicalOperator,
    pub conditions: Vec<AutomationCondition>,
    pub actions: Vec<AutomationAction>,
    pub created_at: i64,
    pub updated_at: i64,
    pub last_triggered_at: Option<i64>,
    pub trigger_count: i64,
    pub time_window: TimeWindow,
}

impl AutomationRule {
    /// A new, enabled rule with a fresh id, never triggered, with the
    /// default time window, created and updated at the same moment (the
    /// clock's current second).
    pub fn new(
        name: String,
        description: Option<String>,
        condition_operator: LogicalOperator,
        conditions: Vec<AutomationCondition>,
        actions: Vec<AutomationAction>,
    ) -> (r: Self)
        ensures
            is_uuid_v4_text(r.id@),
            r.name == name,
            r.description == description,
            r.enabled,
            r.condition_operator == condition_operator,
            r.conditions == conditions,
            r.actions == actions,
            r.created_at == r.updated_at,
            r.last_triggered_at is None,
            r.trigger_count == 0,
            !r.time_window.enabled,
            r.time_window.start_time is None,
            r.time_window.end_time is None,
            r.time_window.active_days is None,
    {
        let now = now_timestamp();
        AutomationRule {
            id: new_uuid_v4(),
            name,
            description,
            enabled: true,
            condition_operator,
            conditions,
            actions,
            created_at: now,
            updated_at: now,
            last_triggered_at: None,
            trigger_count: 0,
            time_window: TimeWindow::default(),
        }
    }
}

/// Request to create a rule.
#[derive(Debug)]
pub struct CreateAutomationRuleRequest {
    pub name: String,
    pub description: Option<String>,
    pub enabled: Option<bool>,
    pub condition_operator: LogicalOperator,
    pub conditions: Vec<CreateConditionRequest>,
    pub actions: Vec<CreateActionRequest>,
    pub time_window: Option<TimeWindowRequest>,
}

/// Request to change a rule; an absent field is left as it is.
#[derive(Debug)]
pub struct UpdateAutomationRuleRequest {
    pub name: Option<String>,
    pub description: Option<String>,
    pub enabled: Option<bool>,
    pub condition_operator: Option<LogicalOperator>,
    pub conditions: Option<Vec<CreateConditionRequest>>,
    pub actions: Option<Vec<CreateActionRequest>>,
    pub time_window: Option<TimeWindowRequest>,
}

/// One run of a rule, as recorded in the execution log.
#[derive(Debug, Clone)]
pub struct AutomationExecutionLog {
    pub id: String,
    pub rule_id: String,
    pub rule_name: String,
    pub success: bool,
    pub error_message: Option<String>,
    /// Seconds since the Unix epoch
    pub executed_at: i64,
}

impl AutomationExecutionLog {
    /// A log entry with a fresh id.
    pub fn new(
        rule_id: String,
        rule_name: String,
        success: bool,
        error_message: Option<String>,
        executed_at: i64,
    ) -> (r: Self)
        ensures
            is_uuid_v4_text(r.id@),
            r.rule_id == rule_id,
            r.rule_name == rule_name,
            r.success == success,
            r.error_message == error_message,
            r.executed_at == executed_at,
    {
        AutomationExecutionLog { id: new_uuid_v4(), rule_id, rule_name, success, error_message, executed_at }
    }
}

} // verus!
