//! Reading automation rules back from their stored rows: the enumeration
//! columns, the time stamps, the time window and the lookup by id.

use vstd::prelude::*;
use vstd::string::*;

use crate::models::automation::{
    AutomationAction, AutomationCondition, AutomationRule, ComparisonOperator, LogicalOperator,
    SensorField, SwitchAction, TimeWindow,
};
use crate::models::db_enum::DbEnum;
use crate::readings::{checked_timestamp, chrono_timestamp_in_range, timestamp_to_datetime};
use crate::text::str_eq;

verus! {

/// Declares `serde_json::Error` so that a parse failure can be handed on.
#[verifier::external_type_specification]
#[verifier::external_body]
pub struct ExJsonError(serde_json::Error);

/// A stored column whose text names no value of its enumeration: the
/// column's index in the query and its name.
#[derive(Debug, Clone, Copy)]
pub struct InvalidColumn {
    pub index: usize,
    pub name: &'static str,
}

/// The bytes of `s` read as a JSON array of numbers 0-255, or `None` when
/// `s` is not one. The JSON grammar behind it is serde_json's.
pub uninterp spec fn json_u8_array(s: Seq<char>) -> Option<Seq<u8>>;

/// `serde_json::from_str::<Vec<u8>>(s)`. Parsing is a function of `s`
/// alone; its result is given a name, not a definition. The error is handed
/// on as it is.
#[verifier::external_body]
fn parse_active_days(s: &str) -> (r: Result<Vec<u8>, serde_json::Error>)
    ensures
        match r {
            Ok(v) => json_u8_array(s@) == Some(v@),
            Err(_) => json_u8_array(s@) is None,
        },
{
    serde_json::from_str::<Vec<u8>>(s)
}

/// The `active_days` column: `None` when it is NULL, the parsed days when it
/// holds a JSON array of numbers 0-255, and the parse error otherwise.
pub fn active_days_from_column(column: Option<&str>) -> (r: Result<Option<Vec<u8>>, serde_json::Error>)
    ensures
        match column {
            None => r matches Ok(None),
            Some(s) => match json_u8_array(s@) {
                Some(days) => r matches Ok(Some(v)) && v@ == days,
                None => r is Err,
            },
        },
{
    match column {
        None => Ok(None),
        Some(s) => match parse_active_days(s) {
            Ok(v) => Ok(Some(v)),
            Err(e) => Err(e),
        },
    }
}

/// The condition operator stored in column 4 of a rule row.
pub fn condition_operator_from_column(s: &str) -> (r: Result<LogicalOperator, InvalidColumn>)
    ensures
        match LogicalOperator::spec_from_db(s@) {
            Some(op) => r matches Ok(x) && x == op,
            None => r matches Err(e) && e.index == 4 && e.name@ == "condition_operator"@,
        },
{
    match LogicalOperator::from_db_string(s) {
        Some(op) => Ok(op),
        None => Err(InvalidColumn { index: 4, name: "condition_operator" }),
    }
}

/// A stored condition: its field (column 2) and operator (column 3) must
/// name known values; the field is checked first.
pub fn condition_from_row(
    id: String,
    device_id: String,
    field: &str,
    operator: &str,
    value_bits: u64,
) -> (r: Result<AutomationCondition, InvalidColumn>)
    ensures
        match (SensorField::spec_from_db(field@), ComparisonOperator::spec_from_db(operator@)) {
            (None, _) => r matches Err(e) && e.index == 2 && e.name@ == "field"@,
            (Some(_), None) => r matches Err(e) && e.index == 3 && e.name@ == "operator"@,
            (Some(f), Some(o)) => r matches Ok(c) && c.id == id && c.device_id == device_id && c.field == f
                && c.operator == o && c.value_bits == value_bits && c.target_device_id is None
                && c.target_field is None,
        },
{
    let f = match SensorField::from_db_string(field) {
        Some(f) => f,
        None => {
            return Err(InvalidColumn { index: 2, name: "field" });
        },
    };
    let o = match ComparisonOperator::from_db_string(operator) {
        Some(o) => o,
        None => {
            return Err(InvalidColumn { index: 3, name: "operator" });
        },
    };
    Ok(AutomationCondition {
        id,
        device_id,
        field: f,
        operator: o,
        value_bits,
        target_device_id: None,
        target_field: None,
    })
}

/// A stored action: its action column (2) must name a known action.
pub fn action_from_row(id: String, device_id: String, action: &str) -> (r: Result<AutomationAction, InvalidColumn>)
    ensures
        match SwitchAction::spec_from_db(action@) {
            None => r matches Err(e) && e.index == 2 && e.name@ == "action"@,
            Some(a) => r matches Ok(x) && x.id == id && x.device_id == device_id && x.action == a,
        },
{
    match SwitchAction::from_db_string(action) {
        Some(a) => Ok(AutomationAction { id, device_id, action: a }),
        None => Err(InvalidColumn { index: 2, name: "action" }),
    }
}

/// The plain columns of a stored rule.
#[derive(Debug)]
pub struct RuleRow {
    pub id: String,
    pub name: String,
    pub description: Option<String>,
    /// Column `enabled` (1 means enabled)
    pub enabled: i32,
    pub created_at: i64,
    pub updated_at: i64,
    pub last_triggered_at: Option<i64>,
    pub trigger_count: i64,
    /// Column `time_window_enabled` (1 means enabled; absent means no)
    pub time_window_enabled: Option<i32>,
    pub time_window_start: Option<String>,
    pub time_window_end: Option<String>,
}

/// A stored time stamp as the rule holds it (see `timestamp_to_datetime`).
pub open spec fn stored_time(ts: i64) -> i64 {
    if chrono_timestamp_in_range(ts) {
        ts
    } else {
        0
    }
}

/// Assembles a rule from its row, its parsed operator, conditions,
/// actions and active days. Out-of-range creation and update stamps read
/// as the epoch; an out-of-range last-trigger stamp reads as none.
pub fn rule_from_row(
    row: RuleRow,
    condition_operator: LogicalOperator,
    conditions: Vec<AutomationCondition>,
    actions: Vec<AutomationAction>,
    active_days: Option<Vec<u8>>,
) -> (r: AutomationRule)
    ensures
        r.id == row.id,
        r.name == row.name,
        r.description == row.description,
        r.enabled == (row.enabled == 1),
        r.condition_operator == condition_operator,
        r.conditions == conditions,
        r.actions == actions,
        r.created_at == stored_time(row.created_at),
        r.updated_at == stored_time(row.updated_at),
        r.last_triggered_at == match row.last_triggered_at {
            Some(ts) => if chrono_timestamp_in_range(ts) {
                Some(ts)
            } else {
                None
            },
            None => None,
        },
        r.trigger_count == row.trigger_count,
        r.time_window.enabled == (match row.time_window_enabled {
            Some(v) => v,
            None => 0,
        } == 1),
        r.time_window.start_time == row.time_window_start,
        r.time_window.end_time == row.time_window_end,
        r.time_window.active_days == active_days,
{
    let created_at = timestamp_to_datetime(row.created_at, "automation_rule.created_at");
    let updated_at = timestamp_to_datetime(row.updated_at, "automation_rule.updated_at");
    let last_triggered_at = match row.last_triggered_at {
        Some(ts) => checked_timestamp(ts),
        None => None,
    };
    let tw_enabled = match row.time_window_enabled {
        Some(v) => v,
        None => 0,
    };
    AutomationRule {
        id: row.id,
        name: row.name,
        description: row.description,
        enabled: row.enabled == 1,
        condition_operator,
        conditions,
        actions,
        created_at,
        updated_at,
        last_triggered_at,
        trigger_count: row.trigger_count,
        time_window: TimeWindow {
            enabled: tw_enabled == 1,
            start_time: row.time_window_start,
            end_time: row.time_window_end,
            active_days,
        },
    }
}

/// The first rule whose id is `rule_id`.
pub fn find_rule(rules: Vec<AutomationRule>, rule_id: &str) -> (r: Option<AutomationRule>)
    ensures
        match r {
            Some(rule) => exists|i: int|
                0 <= i < rules@.len() && rules@[i] == rule && rule.id@ == rule_id@ && forall|k: int|
                    0 <= k < i ==> (#[trigger] rules@[k]).id@ != rule_id@,
            None => forall|k: int| 0 <= k < rules@.len() ==> (#[trigger] rules@[k]).id@ != rule_id@,
        },
{
    let ghost all = rules@;
    for rule in it: rules.into_iter()
        invariant
            it.seq() == all,
            forall|k: int| 0 <= k < it.index() ==> (#[trigger] all[k]).id@ != rule_id@,
    {
        if str_eq(rule.id.as_str(), rule_id) {
            assert(all[it.index() as int] == rule);
            return Some(rule);
        }
    }
    None
}

} // verus!
