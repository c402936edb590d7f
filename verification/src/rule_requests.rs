//! Checking and applying requests that create or change automation rules:
//! required fields, the sensor fields a device can report, and the
//! time-window merge.

use vstd::prelude::*;
use vstd::string::*;

use crate::automation::{join_strings, spec_join};
use crate::ids::is_uuid_v4_text;
use crate::models::automation::{
    AutomationAction, AutomationCondition, AutomationRule, CreateActionRequest,
    CreateAutomationRuleRequest, CreateConditionRequest, SensorField, TimeWindow,
    TimeWindowRequest, UpdateAutomationRuleRequest,
};
use crate::models::db_enum::DbEnum;
use crate::models::device::{caps_have_sensor, DeviceCapability, SensorType};
use crate::models::mqtt::opt_name;
use crate::readings::now_timestamp;
use crate::sorted::strings_view;
use crate::text::{is_blank, trim};

verus! {

/// What looking a device up gave: a database error (its message), no such
/// device, or the device's capabilities.
pub type DeviceLookup = Result<Option<Vec<DeviceCapability>>, String>;

// ---------------------------------------------------------------------------
// Sensor fields a device can report
// ---------------------------------------------------------------------------

/// The fields a sensor of type `t` reports.
pub open spec fn type_allows(t: SensorType, f: SensorField) -> bool {
    match t {
        SensorType::TempHumidity => f is Temperature || f is Humidity || f is Battery || f is LinkQuality,
        SensorType::Presence => f is Presence || f is Illumination || f is Battery || f is LinkQuality,
        SensorType::EnergyMeter => f is Battery || f is LinkQuality,
    }
}

/// Some sensor capability of the device reports `f`.
pub open spec fn field_allowed(caps: Seq<DeviceCapability>, f: SensorField) -> bool {
    ||| caps_have_sensor(caps, SensorType::TempHumidity) && type_allows(SensorType::TempHumidity, f)
    ||| caps_have_sensor(caps, SensorType::Presence) && type_allows(SensorType::Presence, f)
    ||| caps_have_sensor(caps, SensorType::EnergyMeter) && type_allows(SensorType::EnergyMeter, f)
}

/// The device has at least one sensor capability.
pub open spec fn is_sensor(caps: Seq<DeviceCapability>) -> bool {
    ||| caps_have_sensor(caps, SensorType::TempHumidity)
    ||| caps_have_sensor(caps, SensorType::Presence)
    ||| caps_have_sensor(caps, SensorType::EnergyMeter)
}

/// Names of the fields the device reports, in string order, each once
/// (the six names are listed here in that order).
pub open spec fn spec_valid_fields(caps: Seq<DeviceCapability>) -> Seq<Seq<char>> {
    opt_name(field_allowed(caps, SensorField::Battery), SensorField::Battery.spec_db_str())
        + opt_name(field_allowed(caps, SensorField::Humidity), SensorField::Humidity.spec_db_str())
        + opt_name(field_allowed(caps, SensorField::Illumination), SensorField::Illumination.spec_db_str())
        + opt_name(field_allowed(caps, SensorField::LinkQuality), SensorField::LinkQuality.spec_db_str())
        + opt_name(field_allowed(caps, SensorField::Presence), SensorField::Presence.spec_db_str())
        + opt_name(field_allowed(caps, SensorField::Temperature), SensorField::Temperature.spec_db_str())
}

/// Outcome of checking one condition's field against the device lookup.
pub open spec fn spec_check_condition(
    device_id: Seq<char>,
    lookup: DeviceLookup,
    field: SensorField,
) -> Result<(), Seq<char>> {
    match lookup {
        Err(e) => Err("Database error: "@ + e@),
        Ok(None) => Err("Device '"@ + device_id + "' not found"@),
        Ok(Some(caps)) => if !is_sensor(caps@) {
            Err("Device '"@ + device_id + "' is not a sensor"@)
        } else if !field_allowed(caps@, field) {
            Err("Field '"@ + field.spec_db_str() + "' is not valid for device '"@ + device_id
                + "'. Valid fields: "@ + spec_join(spec_valid_fields(caps@), ", "@))
        } else {
            Ok(())
        },
    }
}

/// Device id and field of each condition.
pub open spec fn condition_keys(cs: Seq<AutomationCondition>) -> Seq<(Seq<char>, SensorField)> {
    cs.map_values(|c: AutomationCondition| (c.device_id@, c.field))
}

/// Device id and field of each condition request.
pub open spec fn request_keys(qs: Seq<CreateConditionRequest>) -> Seq<(Seq<char>, SensorField)> {
    qs.map_values(|q: CreateConditionRequest| (q.device_id@, q.field))
}

/// The first failing check among the conditions, in order.
pub open spec fn spec_validate_fields(
    keys: Seq<(Seq<char>, SensorField)>,
    lookups: Seq<DeviceLookup>,
) -> Result<(), Seq<char>>
    decreases keys.len(),
{
    if keys.len() == 0 {
        Ok(())
    } else {
        match spec_check_condition(keys[0].0, lookups[0], keys[0].1) {
            Err(e) => Err(e),
            Ok(_) => spec_validate_fields(keys.drop_first(), lookups.drop_first()),
        }
    }
}

/// The conditions are accepted exactly when every one passes its check;
/// when they are refused, the error is that of the first condition that
/// fails, all before it passing.
pub proof fn law_validate_fields_first_failure(keys: Seq<(Seq<char>, SensorField)>, lookups: Seq<DeviceLookup>)
    requires
        keys.len() == lookups.len(),
    ensures
        spec_validate_fields(keys, lookups) is Ok <==> forall|i: int|
            0 <= i < keys.len() ==> (#[trigger] spec_check_condition(keys[i].0, lookups[i], keys[i].1)) is Ok,
        spec_validate_fields(keys, lookups) matches Err(e) ==> exists|i: int|
            0 <= i < keys.len() && spec_check_condition(keys[i].0, lookups[i], keys[i].1) == Err::<(), Seq<char>>(e)
                && forall|j: int| 0 <= j < i ==> (#[trigger] spec_check_condition(keys[j].0, lookups[j], keys[j].1)) is Ok,
    decreases keys.len(),
{
    if keys.len() > 0 {
        let k2 = keys.drop_first();
        let l2 = lookups.drop_first();
        law_validate_fields_first_failure(k2, l2);
        assert forall|i: int| 1 <= i < keys.len() implies spec_check_condition(keys[i].0, lookups[i], keys[i].1)
            == #[trigger] spec_check_condition(k2[i - 1].0, l2[i - 1], k2[i - 1].1) by {}
        let first = spec_check_condition(keys[0].0, lookups[0], keys[0].1);
        if first is Ok {
            if spec_validate_fields(k2, l2) is Ok {
                assert forall|i: int| 0 <= i < keys.len() implies (#[trigger] spec_check_condition(
                    keys[i].0,
                    lookups[i],
                    keys[i].1,
                )) is Ok by {
                    if i > 0 {
                        assert(spec_check_condition(k2[i - 1].0, l2[i - 1], k2[i - 1].1) is Ok);
                    }
                }
            } else {
                let e = spec_validate_fields(k2, l2)->Err_0;
                let w = choose|w: int|
                    0 <= w < k2.len() && spec_check_condition(k2[w].0, l2[w], k2[w].1) == Err::<(), Seq<char>>(e)
                        && forall|j: int| 0 <= j < w ==> (#[trigger] spec_check_condition(k2[j].0, l2[j], k2[j].1)) is Ok;
                assert(spec_check_condition(keys[w + 1].0, lookups[w + 1], keys[w + 1].1) == Err::<(), Seq<char>>(e));
                assert forall|j: int| 0 <= j < w + 1 implies (#[trigger] spec_check_condition(
                    keys[j].0,
                    lookups[j],
                    keys[j].1,
                )) is Ok by {
                    if j > 0 {
                        assert(spec_check_condition(k2[j - 1].0, l2[j - 1], k2[j - 1].1) is Ok);
                    }
                }
            }
        } else {
            assert(spec_check_condition(keys[0].0, lookups[0], keys[0].1) is Err);
        }
    }
}

/// Which sensor types occur among the capabilities.
fn sensor_types_present(caps: &Vec<DeviceCapability>) -> (r: (bool, bool, bool))
    ensures
        r.0 == caps_have_sensor(caps@, SensorType::TempHumidity),
        r.1 == caps_have_sensor(caps@, SensorType::Presence),
        r.2 == caps_have_sensor(caps@, SensorType::EnergyMeter),
{
    let mut th = false;
    let mut pr = false;
    let mut em = false;
    let mut i: usize = 0;
    while i < caps.len()
        invariant
            i <= caps.len(),
            th == caps_have_sensor(caps@.take(i as int), SensorType::TempHumidity),
            pr == caps_have_sensor(caps@.take(i as int), SensorType::Presence),
            em == caps_have_sensor(caps@.take(i as int), SensorType::EnergyMeter),
        decreases caps.len() - i,
    {
        let ghost before = caps@.take(i as int);
        let ghost after = caps@.take(i + 1);
        assert(after =~= before.push(caps@[i as int]));
        match caps[i] {
            DeviceCapability::Sensor { sensor_type } => match sensor_type {
                SensorType::TempHumidity => {
                    th = true;
                },
                SensorType::Presence => {
                    pr = true;
                },
                SensorType::EnergyMeter => {
                    em = true;
                },
            },
            _ => {},
        }
        proof {
            lemma_have_sensor_push(before, caps@[i as int], SensorType::TempHumidity);
            lemma_have_sensor_push(before, caps@[i as int], SensorType::Presence);
            lemma_have_sensor_push(before, caps@[i as int], SensorType::EnergyMeter);
        }
        i = i + 1;
    }
    assert(caps@.take(i as int) =~= caps@);
    (th, pr, em)
}

proof fn lemma_have_sensor_push(s: Seq<DeviceCapability>, c: DeviceCapability, t: SensorType)
    ensures
        caps_have_sensor(s.push(c), t) == (caps_have_sensor(s, t) || c == (DeviceCapability::Sensor { sensor_type: t })),
{
    let p = s.push(c);
    if caps_have_sensor(s, t) {
        let k = choose|k: int| 0 <= k < s.len() && s[k] == (DeviceCapability::Sensor { sensor_type: t });
        assert(p[k] == s[k]);
    }
    if c == (DeviceCapability::Sensor { sensor_type: t }) {
        assert(p[s.len() as int] == c);
    }
    if caps_have_sensor(p, t) {
        let k = choose|k: int| 0 <= k < p.len() && p[k] == (DeviceCapability::Sensor { sensor_type: t });
        if k < s.len() {
            assert(s[k] == p[k]);
        }
    }
}

/// Whether `f` is reported, given which sensor types are present.
fn allowed_given(present: (bool, bool, bool), f: SensorField) -> (b: bool)
    ensures
        b == ((present.0 && type_allows(SensorType::TempHumidity, f)) || (present.1 && type_allows(
            SensorType::Presence,
            f,
        )) || (present.2 && type_allows(SensorType::EnergyMeter, f))),
{
    let th = match f {
        SensorField::Temperature | SensorField::Humidity | SensorField::Battery | SensorField::LinkQuality => true,
        _ => false,
    };
    let pr = match f {
        SensorField::Presence | SensorField::Illumination | SensorField::Battery | SensorField::LinkQuality => true,
        _ => false,
    };
    let em = match f {
        SensorField::Battery | SensorField::LinkQuality => true,
        _ => false,
    };
    (present.0 && th) || (present.1 && pr) || (present.2 && em)
}

/// Appends the name of `f` when `cond` holds.
fn push_field_if(v: &mut Vec<String>, cond: bool, f: SensorField)
    ensures
        strings_view(final(v)@) == strings_view(old(v)@) + opt_name(cond, f.spec_db_str()),
{
    if cond {
        let name = String::from_str(f.to_db_string());
        let ghost before = old(v)@;
        v.push(name);
        assert(strings_view(v@) =~= strings_view(before) + seq![f.spec_db_str()]);
    } else {
        assert(strings_view(v@) =~= strings_view(old(v)@) + Seq::<Seq<char>>::empty());
    }
}

/// The names of the fields the device reports, sorted and without
/// repetition.
pub fn valid_fields(caps: &Vec<DeviceCapability>) -> (r: Vec<String>)
    ensures
        strings_view(r@) == spec_valid_fields(caps@),
{
    let present = sensor_types_present(caps);
    let mut v: Vec<String> = Vec::new();
    assert(strings_view(v@) =~= Seq::<Seq<char>>::empty());
    push_field_if(&mut v, allowed_given(present, SensorField::Battery), SensorField::Battery);
    push_field_if(&mut v, allowed_given(present, SensorField::Humidity), SensorField::Humidity);
    push_field_if(&mut v, allowed_given(present, SensorField::Illumination), SensorField::Illumination);
    push_field_if(&mut v, allowed_given(present, SensorField::LinkQuality), SensorField::LinkQuality);
    push_field_if(&mut v, allowed_given(present, SensorField::Presence), SensorField::Presence);
    push_field_if(&mut v, allowed_given(present, SensorField::Temperature), SensorField::Temperature);
    assert(strings_view(v@) =~= spec_valid_fields(caps@));
    v
}

/// Checks that the device of a condition exists, is a sensor, and reports
/// the condition's field; each failure has its own message.
pub fn check_condition_field(device_id: &str, lookup: &DeviceLookup, field: SensorField) -> (r: Result<(), String>)
    ensures
        match (r, spec_check_condition(device_id@, *lookup, field)) {
            (Ok(_), Ok(_)) => true,
            (Err(m), Err(e)) => m@ == e,
            _ => false,
        },
{
    match lookup {
        Err(e) => {
            let mut m = String::from_str("Database error: ");
            m.append(e.as_str());
            Err(m)
        },
        Ok(None) => {
            let mut m = String::from_str("Device '");
            m.append(device_id);
            m.append("' not found");
            Err(m)
        },
        Ok(Some(caps)) => {
            let present = sensor_types_present(caps);
            if !(present.0 || present.1 || present.2) {
                let mut m = String::from_str("Device '");
                m.append(device_id);
                m.append("' is not a sensor");
                return Err(m);
            }
            if !allowed_given(present, field) {
                let names = valid_fields(caps);
                let joined = join_strings(&names, ", ");
                let mut m = String::from_str("Field '");
                m.append(field.to_db_string());
                m.append("' is not valid for device '");
                m.append(device_id);
                m.append("'. Valid fields: ");
                m.append(joined.as_str());
                return Err(m);
            }
            Ok(())
        },
    }
}

/// Checks every condition in order against its device lookup
/// (`lookups[i]` for `conditions[i]`) and reports the first failure.
pub fn validate_condition_fields(
    conditions: &Vec<AutomationCondition>,
    lookups: &Vec<DeviceLookup>,
) -> (r: Result<(), String>)
    requires
        lookups.len() == conditions.len(),
    ensures
        match (r, spec_validate_fields(condition_keys(conditions@), lookups@)) {
            (Ok(_), Ok(_)) => true,
            (Err(m), Err(e)) => m@ == e,
            _ => false,
        },
{
    let ghost keys = condition_keys(conditions@);
    assert(keys.skip(0) =~= keys);
    assert(lookups@.skip(0) =~= lookups@);
    let mut i: usize = 0;
    while i < conditions.len()
        invariant
            i <= conditions.len(),
            lookups.len() == conditions.len(),
            keys == condition_keys(conditions@),
            spec_validate_fields(keys, lookups@) == spec_validate_fields(
                keys.skip(i as int),
                lookups@.skip(i as int),
            ),
        decreases conditions.len() - i,
    {
        let c = &conditions[i];
        let res = check_condition_field(c.device_id.as_str(), &lookups[i], c.field);
        proof {
            let ks = keys.skip(i as int);
            let ls = lookups@.skip(i as int);
            assert(ks[0] == (c.device_id@, c.field));
            assert(ls[0] == lookups@[i as int]);
            assert(ks.drop_first() =~= keys.skip(i + 1));
            assert(ls.drop_first() =~= lookups@.skip(i + 1));
        }
        match res {
            Err(m) => {
                return Err(m);
            },
            Ok(_) => {},
        }
        i = i + 1;
    }
    assert(keys.skip(i as int).len() == 0);
    Ok(())
}

// ---------------------------------------------------------------------------
// Building conditions and actions from requests
// ---------------------------------------------------------------------------

/// `c` is the constant condition a request asks for, with a fresh id (any
/// variable target in the request is not carried over).
pub open spec fn built_condition(c: AutomationCondition, q: CreateConditionRequest) -> bool {
    &&& is_uuid_v4_text(c.id@)
    &&& c.device_id == q.device_id
    &&& c.field == q.field
    &&& c.operator == q.operator
    &&& c.value_bits == q.value_bits
    &&& c.target_device_id is None
    &&& c.target_field is None
}

pub open spec fn built_conditions(cs: Seq<AutomationCondition>, qs: Seq<CreateConditionRequest>) -> bool {
    &&& cs.len() == qs.len()
    &&& forall|i: int| 0 <= i < cs.len() ==> built_condition(#[trigger] cs[i], qs[i])
}

/// `a` is the action a request asks for, with a fresh id.
pub open spec fn built_action(a: AutomationAction, q: CreateActionRequest) -> bool {
    &&& is_uuid_v4_text(a.id@)
    &&& a.device_id == q.device_id
    &&& a.action == q.action
}

pub open spec fn built_actions(acts: Seq<AutomationAction>, qs: Seq<CreateActionRequest>) -> bool {
    &&& acts.len() == qs.len()
    &&& forall|i: int| 0 <= i < acts.len() ==> built_action(#[trigger] acts[i], qs[i])
}

/// One constant condition per request, in order.
pub fn conditions_from_requests(qs: &Vec<CreateConditionRequest>) -> (r: Vec<AutomationCondition>)
    ensures
        built_conditions(r@, qs@),
        condition_keys(r@) == request_keys(qs@),
{
    let mut out: Vec<AutomationCondition> = Vec::new();
    let mut i: usize = 0;
    while i < qs.len()
        invariant
            i <= qs.len(),
            out.len() == i,
            forall|k: int| 0 <= k < i ==> built_condition(#[trigger] out@[k], qs@[k]),
        decreases qs.len() - i,
    {
        let q = &qs[i];
        let c = AutomationCondition::new(q.device_id.clone(), q.field, q.operator, q.value_bits);
        out.push(c);
        i = i + 1;
    }
    assert(condition_keys(out@) =~= request_keys(qs@));
    out
}

/// One action per request, in order.
pub fn actions_from_requests(qs: &Vec<CreateActionRequest>) -> (r: Vec<AutomationAction>)
    ensures
        built_actions(r@, qs@),
{
    let mut out: Vec<AutomationAction> = Vec::new();
    let mut i: usize = 0;
    while i < qs.len()
        invariant
            i <= qs.len(),
            out.len() == i,
            forall|k: int| 0 <= k < i ==> built_action(#[trigger] out@[k], qs@[k]),
        decreases qs.len() - i,
    {
        let q = &qs[i];
        let a = AutomationAction::new(q.device_id.clone(), q.action);
        out.push(a);
        i = i + 1;
    }
    out
}

// ---------------------------------------------------------------------------
// Time windows
// ---------------------------------------------------------------------------

/// The time window after an update: each field given in the update
/// replaces the old one; the others stay.
pub open spec fn spec_update_time_window(tw: TimeWindow, u: TimeWindowRequest) -> TimeWindow {
    TimeWindow {
        enabled: match u.enabled {
            Some(e) => e,
            None => tw.enabled,
        },
        start_time: if u.start_time is Some {
            u.start_time
        } else {
            tw.start_time
        },
        end_time: if u.end_time is Some {
            u.end_time
        } else {
            tw.end_time
        },
        active_days: if u.active_days is Some {
            u.active_days
        } else {
            tw.active_days
        },
    }
}

/// Merges a time-window update into a rule; nothing else of the rule
/// changes.
pub fn apply_time_window_update(rule: &mut AutomationRule, update: TimeWindowRequest)
    ensures
        final(rule).time_window == spec_update_time_window(old(rule).time_window, update),
        final(rule).id == old(rule).id,
        final(rule).name == old(rule).name,
        final(rule).description == old(rule).description,
        final(rule).enabled == old(rule).enabled,
        final(rule).condition_operator == old(rule).condition_operator,
        final(rule).conditions == old(rule).conditions,
        final(rule).actions == old(rule).actions,
        final(rule).created_at == old(rule).created_at,
        final(rule).updated_at == old(rule).updated_at,
        final(rule).last_triggered_at == old(rule).last_triggered_at,
        final(rule).trigger_count == old(rule).trigger_count,
{
    if let Some(enabled) = update.enabled {
        rule.time_window.enabled = enabled;
    }
    if let Some(start_time) = update.start_time {
        rule.time_window.start_time = Some(start_time);
    }
    if let Some(end_time) = update.end_time {
        rule.time_window.end_time = Some(end_time);
    }
    if let Some(active_days) = update.active_days {
        rule.time_window.active_days = Some(active_days);
    }
}

// ---------------------------------------------------------------------------
// Creating and updating rules
// ---------------------------------------------------------------------------

/// The time window of a new rule.
pub open spec fn default_time_window() -> TimeWindow {
    TimeWindow { enabled: false, start_time: None, end_time: None, active_days: None }
}

/// Why a create request is refused, checked in this order: a blank name,
/// no conditions, no actions, then the first condition whose field the
/// device cannot report.
pub open spec fn spec_create_error(req: CreateAutomationRuleRequest, lookups: Seq<DeviceLookup>) -> Option<Seq<char>> {
    if trim(req.name@).len() == 0 {
        Some("Rule name cannot be empty"@)
    } else if req.conditions.len() == 0 {
        Some("At least one condition is required"@)
    } else if req.actions.len() == 0 {
        Some("At least one action is required"@)
    } else {
        match spec_validate_fields(request_keys(req.conditions@), lookups) {
            Err(e) => Some(e),
            Ok(_) => None,
        }
    }
}

/// `rule` is the new rule a create request describes.
pub open spec fn created_from(rule: AutomationRule, req: CreateAutomationRuleRequest) -> bool {
    &&& is_uuid_v4_text(rule.id@)
    &&& rule.name == req.name
    &&& rule.description == req.description
    &&& rule.enabled == match req.enabled {
        Some(e) => e,
        None => true,
    }
    &&& rule.condition_operator == req.condition_operator
    &&& built_conditions(rule.conditions@, req.conditions@)
    &&& built_actions(rule.actions@, req.actions@)
    &&& rule.created_at == rule.updated_at
    &&& rule.last_triggered_at is None
    &&& rule.trigger_count == 0
    &&& rule.time_window == match req.time_window {
        Some(u) => spec_update_time_window(default_time_window(), u),
        None => default_time_window(),
    }
}

/// The rule a create request describes, or the reason it is refused.
/// `lookups[i]` is the lookup of the device of `req.conditions[i]`.
pub fn rule_from_request(req: CreateAutomationRuleRequest, lookups: &Vec<DeviceLookup>) -> (r: Result<AutomationRule, String>)
    requires
        lookups.len() == req.conditions.len(),
    ensures
        match r {
            Err(m) => spec_create_error(req, lookups@) == Some(m@),
            Ok(rule) => spec_create_error(req, lookups@) is None && created_from(rule, req),
        },
{
    if is_blank(req.name.as_str()) {
        return Err(String::from_str("Rule name cannot be empty"));
    }
    if req.conditions.len() == 0 {
        return Err(String::from_str("At least one condition is required"));
    }
    if req.actions.len() == 0 {
        return Err(String::from_str("At least one action is required"));
    }
    let conditions = conditions_from_requests(&req.conditions);
    match validate_condition_fields(&conditions, lookups) {
        Err(m) => {
            return Err(m);
        },
        Ok(_) => {},
    }
    let actions = actions_from_requests(&req.actions);
    let mut rule = AutomationRule::new(req.name, req.description, req.condition_operator, conditions, actions);
    if let Some(enabled) = req.enabled {
        rule.enabled = enabled;
    }
    if let Some(tw) = req.time_window {
        apply_time_window_update(&mut rule, tw);
    }
    Ok(rule)
}

/// Why an update is refused when no action list is given, or the action
/// list is fine.
pub open spec fn spec_actions_error(u: UpdateAutomationRuleRequest) -> Option<Seq<char>> {
    match u.actions {
        Some(a) => if a.len() == 0 {
            Some("At least one action is required"@)
        } else {
            None
        },
        None => None,
    }
}

/// Why an update request is refused, checked in this order: a blank new
/// name, an empty new condition list, the first new condition whose field
/// the device cannot report, an empty new action list.
pub open spec fn spec_update_error(u: UpdateAutomationRuleRequest, lookups: Seq<DeviceLookup>) -> Option<Seq<char>> {
    let name_blank = match u.name {
        Some(n) => trim(n@).len() == 0,
        None => false,
    };
    if name_blank {
        Some("Rule name cannot be empty"@)
    } else {
        match u.conditions {
            Some(cs) => if cs.len() == 0 {
                Some("At least one condition is required"@)
            } else {
                match spec_validate_fields(request_keys(cs@), lookups) {
                    Err(e) => Some(e),
                    Ok(_) => spec_actions_error(u),
                }
            },
            None => spec_actions_error(u),
        }
    }
}

/// `new` is `old` after the update, stamped at `now`: each field the update
/// gives replaces the old one (new conditions and actions get fresh ids).
pub open spec fn updated_from(new: AutomationRule, old: AutomationRule, u: UpdateAutomationRuleRequest, now: i64) -> bool {
    &&& new.id == old.id
    &&& new.name == match u.name {
        Some(n) => n,
        None => old.name,
    }
    &&& new.description == if u.description is Some {
        u.description
    } else {
        old.description
    }
    &&& new.enabled == match u.enabled {
        Some(e) => e,
        None => old.enabled,
    }
    &&& new.condition_operator == match u.condition_operator {
        Some(o) => o,
        None => old.condition_operator,
    }
    &&& match u.conditions {
        Some(cs) => built_conditions(new.conditions@, cs@),
        None => new.conditions == old.conditions,
    }
    &&& match u.actions {
        Some(acts) => built_actions(new.actions@, acts@),
        None => new.actions == old.actions,
    }
    &&& new.created_at == old.created_at
    &&& new.updated_at == now
    &&& new.last_triggered_at == old.last_triggered_at
    &&& new.trigger_count == old.trigger_count
    &&& new.time_window == match u.time_window {
        Some(t) => spec_update_time_window(old.time_window, t),
        None => old.time_window,
    }
}

/// The rule after an update made at `now`, or the reason the update is
/// refused. `lookups[i]` is the lookup of the device of the i-th new
/// condition.
pub fn update_rule_at(
    rule: AutomationRule,
    update: UpdateAutomationRuleRequest,
    lookups: &Vec<DeviceLookup>,
    now: i64,
) -> (r: Result<AutomationRule, String>)
    requires
        match update.conditions {
            Some(cs) => lookups.len() == cs.len(),
            None => true,
        },
    ensures
        match r {
            Err(m) => spec_update_error(update, lookups@) == Some(m@),
            Ok(new) => spec_update_error(update, lookups@) is None && updated_from(new, rule, update, now),
        },
{
    let mut rule = rule;
    if let Some(name) = update.name {
        if is_blank(name.as_str()) {
            return Err(String::from_str("Rule name cannot be empty"));
        }
        rule.name = name;
    }
    if let Some(description) = update.description {
        rule.description = Some(description);
    }
    if let Some(enabled) = update.enabled {
        rule.enabled = enabled;
    }
    if let Some(op) = update.condition_operator {
        rule.condition_operator = op;
    }
    if let Some(cs) = update.conditions {
        if cs.len() == 0 {
            return Err(String::from_str("At least one condition is required"));
        }
        let conditions = conditions_from_requests(&cs);
        match validate_condition_fields(&conditions, lookups) {
            Err(m) => {
                return Err(m);
            },
            Ok(_) => {},
        }
        rule.conditions = conditions;
    }
    if let Some(acts) = update.actions {
        if acts.len() == 0 {
            return Err(String::from_str("At least one action is required"));
        }
        rule.actions = actions_from_requests(&acts);
    }
    if let Some(tw) = update.time_window {
        apply_time_window_update(&mut rule, tw);
    }
    rule.updated_at = now;
    Ok(rule)
}

/// The rule after an update stamped with the clock's current second.
pub fn apply_rule_update(
    rule: AutomationRule,
    update: UpdateAutomationRuleRequest,
    lookups: &Vec<DeviceLookup>,
) -> (r: Result<AutomationRule, String>)
    requires
        match update.conditions {
            Some(cs) => lookups.len() == cs.len(),
            None => true,
        },
    ensures
        match r {
            Err(m) => spec_update_error(update, lookups@) == Some(m@),
            Ok(new) => spec_update_error(update, lookups@) is None && updated_from(new, rule, update, new.updated_at),
        },
{
    let now = now_timestamp();
    update_rule_at(rule, update, lookups, now)
}

} // verus!
