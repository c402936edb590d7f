//! MQTT payload vocabulary: switch states and what a device payload reveals
//! about the device.

use vstd::prelude::*;
use vstd::string::*;

use crate::models::device::{CommanderType, DeviceCapability, SensorType};
use crate::sorted::{sorted_unique, strictly_sorted, strings_view};
use crate::text::{ascii_lower, str_eq};

verus! {

/// Switch state.
#[derive(Debug, Clone, Copy, PartialEq, Eq, Structural)]
pub enum SwitchState {
    On,
    Off,
}

/// Unicode upper-casing of a string, as `str::to_uppercase` performs it.
pub uninterp spec fn unicode_uppercase(s: Seq<char>) -> Seq<char>;

/// ASCII upper-casing of one character (`char::to_ascii_uppercase`).
pub open spec fn ascii_upper(c: char) -> char {
    if 'a' <= c && c <= 'z' {
        ((c as u32) - 32) as char
    } else {
        c
    }
}

/// Every character is ASCII.
pub open spec fn all_ascii(s: Seq<char>) -> bool {
    forall|i: int| 0 <= i < s.len() ==> (#[trigger] s[i] as u32) < 128
}

/// `str::to_uppercase`: the full Unicode upper-case mapping, character by
/// character (one character may map to several). Its result is a function
/// of the input alone; the contract names it, and states two facts of the
/// Unicode mapping on ASCII letters: `A`-`Z` and `a`-`z` both map to
/// `A`-`Z`, so ASCII lower-casing the input first changes nothing; and on
/// ASCII text the mapping is the ASCII one (every other ASCII character
/// unchanged).
#[verifier::external_body]
fn to_uppercase(s: &str) -> (r: String)
    ensures
        r@ == unicode_uppercase(s@),
        r@ == unicode_uppercase(s@.map_values(|c: char| ascii_lower(c))),
        all_ascii(s@) ==> r@ == s@.map_values(|c: char| ascii_upper(c)),
{
    s.to_uppercase()
}

/// The state an MQTT string names, ignoring case: on ASCII text, the state
/// its ASCII upper-casing names; on other text, the state that the Unicode
/// upper-casing of its ASCII lower-casing names.
pub open spec fn spec_from_mqtt(s: Seq<char>) -> Option<SwitchState> {
    if all_ascii(s) {
        spec_switch_state_from_upper(s.map_values(|c: char| ascii_upper(c)))
    } else {
        spec_switch_state_from_upper(unicode_uppercase(s.map_values(|c: char| ascii_lower(c))))
    }
}

/// The state named by an already upper-cased MQTT string.
pub open spec fn spec_switch_state_from_upper(u: Seq<char>) -> Option<SwitchState> {
    if u == "ON"@ {
        Some(SwitchState::On)
    } else if u == "OFF"@ {
        Some(SwitchState::Off)
    } else {
        None
    }
}

impl SwitchState {
    /// The MQTT string of this state.
    pub open spec fn spec_mqtt_str(self) -> Seq<char> {
        match self {
            SwitchState::On => "ON"@,
            SwitchState::Off => "OFF"@,
        }
    }

    /// The state named by `upper`, which must be spelled `ON` or `OFF` exactly.
    pub fn from_uppercase_str(upper: &str) -> (r: Option<Self>)
        ensures
            r == spec_switch_state_from_upper(upper@),
    {
        if str_eq(upper, "ON") {
            Some(SwitchState::On)
        } else if str_eq(upper, "OFF") {
            Some(SwitchState::Off)
        } else {
            None
        }
    }

    /// Parse from an MQTT string value, ignoring case.
    pub fn from_mqtt_string(s: &str) -> (r: Option<Self>)
        ensures
            r == spec_switch_state_from_upper(unicode_uppercase(s@)),
            r == spec_from_mqtt(s@),
            all_ascii(s@) ==> r == spec_switch_state_from_upper(s@.map_values(|c: char| ascii_upper(c))),
    {
        let upper = to_uppercase(s);
        Self::from_uppercase_str(upper.as_str())
    }

    pub fn to_mqtt_string(&self) -> (r: &'static str)
        ensures
            r@ == self.spec_mqtt_str(),
    {
        match self {
            SwitchState::On => "ON",
            SwitchState::Off => "OFF",
        }
    }

    /// `ON` is `true`, `OFF` is `false`.
    pub fn to_bool(&self) -> (b: bool)
        ensures
            b == (*self == SwitchState::On),
    {
        match self {
            SwitchState::On => true,
            SwitchState::Off => false,
        }
    }

    /// `ON` is 1, `OFF` is 0.
    pub fn to_integer(&self) -> (n: i32)
        ensures
            n == (if *self == SwitchState::On { 1i32 } else { 0i32 }),
    {
        match self {
            SwitchState::On => 1,
            SwitchState::Off => 0,
        }
    }

    /// `true` is `ON`, `false` is `OFF`.
    pub open spec fn spec_from_bool(b: bool) -> SwitchState {
        if b {
            SwitchState::On
        } else {
            SwitchState::Off
        }
    }

    /// The state a boolean stands for: `true` is `ON`, `false` is `OFF`.
    pub fn from_bool(b: bool) -> (r: Self)
        ensures
            r == Self::spec_from_bool(b),
    {
        if b {
            SwitchState::On
        } else {
            SwitchState::Off
        }
    }

    pub open spec fn spec_toggled(self) -> SwitchState {
        match self {
            SwitchState::On => SwitchState::Off,
            SwitchState::Off => SwitchState::On,
        }
    }

    /// The opposite state.
    pub fn toggled(self) -> (r: Self)
        ensures
            r == self.spec_toggled(),
    {
        match self {
            SwitchState::On => SwitchState::Off,
            SwitchState::Off => SwitchState::On,
        }
    }
}

impl Default for SwitchState {
    fn default() -> (r: Self)
        ensures
            r == SwitchState::Off,
    {
        SwitchState::Off
    }
}

/// Both MQTT strings read back as the state that produced them.
pub proof fn law_switch_state_mqtt_roundtrip(s: SwitchState)
    ensures
        spec_switch_state_from_upper(s.spec_mqtt_str()) == Some(s),
{
    reveal_strlit("ON");
    reveal_strlit("OFF");
    assert("ON"@.len() != "OFF"@.len());
}

/// Parsing ignores case: a text and its ASCII lower-casing name the same
/// state.
pub proof fn law_mqtt_parse_ignores_case(x: Seq<char>)
    ensures
        spec_from_mqtt(x) == spec_from_mqtt(x.map_values(|c: char| ascii_lower(c))),
{
    let l = x.map_values(|c: char| ascii_lower(c));
    assert forall|i: int| 0 <= i < x.len() implies #[trigger] ascii_lower(ascii_lower(x[i])) == ascii_lower(x[i])
        && ascii_upper(ascii_lower(x[i])) == ascii_upper(x[i]) && ((ascii_lower(x[i]) as u32) < 128 <==> (
        x[i] as u32) < 128) by {
        let c = x[i];
        if 'A' <= c && c <= 'Z' {
            assert((((c as u32) + 32) as char) as u32 == (c as u32) + 32);
        }
    }
    if all_ascii(x) {
        assert forall|i: int| 0 <= i < l.len() implies (#[trigger] l[i] as u32) < 128 by {
            assert(l[i] == ascii_lower(x[i]));
        }
        assert(l.map_values(|c: char| ascii_upper(c)) =~= x.map_values(|c: char| ascii_upper(c)));
    } else {
        let w = choose|i: int| 0 <= i < x.len() && !((x[i] as u32) < 128);
        assert(l[w] == ascii_lower(x[w]));
        assert(!all_ascii(l));
        assert(l.map_values(|c: char| ascii_lower(c)) =~= l);
    }
}

/// Both MQTT strings parse back, through the case-ignoring parse, as the
/// state that produced them.
pub proof fn law_switch_state_mqtt_parse_roundtrip(s: SwitchState)
    ensures
        spec_from_mqtt(s.spec_mqtt_str()) == Some(s),
{
    reveal_strlit("ON");
    reveal_strlit("OFF");
    let t = s.spec_mqtt_str();
    assert(all_ascii(t));
    assert(t.map_values(|c: char| ascii_upper(c)) =~= t);
    law_switch_state_mqtt_roundtrip(s);
}

/// Toggling changes the state, and toggling twice gives it back.
pub proof fn law_toggle_involutive(s: SwitchState)
    ensures
        s.spec_toggled() != s,
        s.spec_toggled().spec_toggled() == s,
{
}

/// Device state metrics extracted from an MQTT payload.
#[derive(Debug, Clone, Copy, PartialEq, Eq, Structural)]
pub struct DeviceStateFields {
    pub battery_level: Option<u8>,
    pub link_quality: Option<u8>,
    pub turbo_mode: Option<bool>,
}

/// Command to send to a switch device.
#[derive(Debug)]
pub struct SwitchCommand {
    /// Device id to control
    pub device_id: String,
    /// Desired state
    pub state: SwitchState,
}

/// Payload sent to the Zigbee bridge when setting a switch.
#[derive(Debug)]
pub struct SwitchCommandMessage {
    pub state: SwitchState,
}

/// A payload field that has no dedicated slot.
#[derive(Debug, Clone)]
pub struct OtherField {
    pub key: String,
    /// The JSON value is `null`
    pub is_null: bool,
}

/// What the device logic reads from a Zigbee2MQTT device payload. The
/// numeric sensor readings are kept as presence flags: whether a field is
/// present is all that capability detection and field listing depend on.
#[derive(Debug, Clone)]
pub struct DeviceMqttMessage {
    pub linkquality: Option<u8>,
    pub battery: Option<u8>,
    pub has_temperature: bool,
    pub has_humidity: bool,
    pub occupancy: Option<bool>,
    pub illumination: Option<String>,
    pub has_power: bool,
    pub has_voltage: bool,
    pub has_current: bool,
    pub has_ac_frequency: bool,
    pub has_power_factor: bool,
    pub has_energy: bool,
    pub has_produced_energy: bool,
    pub state: Option<SwitchState>,
    pub turbo_mode: Option<bool>,
    /// Remaining fields, in the order the payload map lists them
    pub other: Vec<OtherField>,
}

/// `[name]` when `present`, else empty.
pub open spec fn opt_name(present: bool, name: Seq<char>) -> Seq<Seq<char>> {
    if present {
        seq![name]
    } else {
        Seq::empty()
    }
}

/// Keys of the non-null extra fields, in order.
pub open spec fn other_names(o: Seq<OtherField>) -> Seq<Seq<char>>
    decreases o.len(),
{
    if o.len() == 0 {
        Seq::empty()
    } else {
        other_names(o.drop_last()) + opt_name(!o.last().is_null, o.last().key@)
    }
}

/// Names of the dedicated fields present in a payload, in listing order.
pub open spec fn fixed_names(m: DeviceMqttMessage) -> Seq<Seq<char>> {
    opt_name(m.linkquality is Some, "linkquality"@) + opt_name(m.battery is Some, "battery"@)
        + opt_name(m.has_temperature, "temperature"@) + opt_name(m.has_humidity, "humidity"@)
        + opt_name(m.occupancy is Some, "occupancy"@) + opt_name(
        m.illumination is Some,
        "illumination"@,
    ) + opt_name(m.has_power, "power"@) + opt_name(m.has_voltage, "voltage"@) + opt_name(
        m.has_current,
        "current"@,
    ) + opt_name(m.has_ac_frequency, "ac_frequency"@) + opt_name(
        m.has_power_factor,
        "power_factor"@,
    ) + opt_name(m.has_energy, "energy"@) + opt_name(m.has_produced_energy, "produced_energy"@)
        + opt_name(m.state is Some, "state"@) + opt_name(m.turbo_mode is Some, "turbo_mode"@)
}

/// Names of all fields present in a payload, in the order they are listed.
pub open spec fn candidate_names(m: DeviceMqttMessage) -> Seq<Seq<char>> {
    fixed_names(m) + other_names(m.other@)
}

/// Configuration keys that only switch devices publish.
pub open spec fn is_switch_config_key(k: Seq<char>) -> bool {
    ||| k == "inching_control"@
    ||| k == "inching_time"@
    ||| k == "inching_mode"@
    ||| k == "inching_control_set"@
    ||| k == "delayed_power_on_state"@
    ||| k == "delayed_power_on_time"@
    ||| k == "detach_relay_mode"@
    ||| k == "external_trigger_mode"@
}

/// Some extra field is a switch configuration key.
pub open spec fn spec_has_switch_config_hint(m: DeviceMqttMessage) -> bool {
    exists|i: int| 0 <= i < m.other@.len() && is_switch_config_key(#[trigger] m.other@[i].key@)
}

/// The payload carries data of this sensor type.
pub open spec fn spec_has_sensor_data(m: DeviceMqttMessage, t: SensorType) -> bool {
    match t {
        SensorType::TempHumidity => m.has_temperature,
        SensorType::Presence => m.occupancy is Some,
        SensorType::EnergyMeter => m.has_power,
    }
}

/// The payload carries data of this commander type.
pub open spec fn spec_has_commander_data(m: DeviceMqttMessage, t: CommanderType) -> bool {
    match t {
        CommanderType::Switch => m.state is Some,
    }
}

/// `[c]` when `present`, else empty.
pub open spec fn opt_cap(present: bool, c: DeviceCapability) -> Seq<DeviceCapability> {
    if present {
        seq![c]
    } else {
        Seq::empty()
    }
}

/// Capabilities advertised by a payload, in detection order.
pub open spec fn spec_detect_capabilities(m: DeviceMqttMessage) -> Seq<DeviceCapability> {
    opt_cap(
        spec_has_sensor_data(m, SensorType::TempHumidity),
        DeviceCapability::Sensor { sensor_type: SensorType::TempHumidity },
    ) + opt_cap(
        spec_has_sensor_data(m, SensorType::Presence),
        DeviceCapability::Sensor { sensor_type: SensorType::Presence },
    ) + opt_cap(
        spec_has_sensor_data(m, SensorType::EnergyMeter),
        DeviceCapability::Sensor { sensor_type: SensorType::EnergyMeter },
    ) + opt_cap(
        spec_has_commander_data(m, CommanderType::Switch) || spec_has_switch_config_hint(m),
        DeviceCapability::Commander { commander_type: CommanderType::Switch },
    )
}

fn push_name_if(v: &mut Vec<String>, present: bool, name: &str)
    ensures
        strings_view(final(v)@) == strings_view(old(v)@) + opt_name(present, name@),
{
    if present {
        v.push(String::from_str(name));
    }
    assert(strings_view(v@) =~= strings_view(old(v)@) + opt_name(present, name@));
}

fn push_cap_if(v: &mut Vec<DeviceCapability>, present: bool, c: DeviceCapability)
    ensures
        final(v)@ == old(v)@ + opt_cap(present, c),
{
    if present {
        v.push(c);
    }
    assert(v@ =~= old(v)@ + opt_cap(present, c));
}

impl DeviceMqttMessage {
    /// Battery level, link quality and turbo mode of the payload.
    pub fn extract_device_state(&self) -> (r: DeviceStateFields)
        ensures
            r == (DeviceStateFields {
                battery_level: self.battery,
                link_quality: self.linkquality,
                turbo_mode: self.turbo_mode,
            }),
    {
        DeviceStateFields {
            battery_level: self.battery,
            link_quality: self.linkquality,
            turbo_mode: self.turbo_mode,
        }
    }

    /// Whether the payload carries data for the given sensor type.
    pub fn has_sensor_data(&self, sensor_type: &SensorType) -> (b: bool)
        ensures
            b == spec_has_sensor_data(*self, *sensor_type),
    {
        match sensor_type {
            SensorType::TempHumidity => self.has_temperature,
            SensorType::Presence => self.occupancy.is_some(),
            SensorType::EnergyMeter => self.has_power,
        }
    }

    /// Whether the payload carries data for the given commander type.
    pub fn has_commander_data(&self, commander_type: &CommanderType) -> (b: bool)
        ensures
            b == spec_has_commander_data(*self, *commander_type),
    {
        match commander_type {
            CommanderType::Switch => self.state.is_some(),
        }
    }

    /// Heuristic for switch devices that publish configuration-only payloads
    /// before any state change.
    pub fn has_switch_config_hint(&self) -> (b: bool)
        ensures
            b == spec_has_switch_config_hint(*self),
    {
        let mut i: usize = 0;
        while i < self.other.len()
            invariant
                i <= self.other.len(),
                forall|j: int| 0 <= j < i ==> !is_switch_config_key(#[trigger] self.other@[j].key@),
            decreases self.other.len() - i,
        {
            let k = self.other[i].key.as_str();
            if str_eq(k, "inching_control") || str_eq(k, "inching_time") || str_eq(k, "inching_mode")
                || str_eq(k, "inching_control_set") || str_eq(k, "delayed_power_on_state") || str_eq(
                k,
                "delayed_power_on_time",
            ) || str_eq(k, "detach_relay_mode") || str_eq(k, "external_trigger_mode") {
                assert(is_switch_config_key(self.other@[i as int].key@));
                return true;
            }
            i = i + 1;
        }
        false
    }

    /// All capabilities advertised by this payload.
    pub fn detect_capabilities(&self) -> (r: Vec<DeviceCapability>)
        ensures
            r@ == spec_detect_capabilities(*self),
    {
        let mut caps: Vec<DeviceCapability> = Vec::new();
        let t = self.has_sensor_data(&SensorType::TempHumidity);
        push_cap_if(&mut caps, t, DeviceCapability::Sensor { sensor_type: SensorType::TempHumidity });
        let p = self.has_sensor_data(&SensorType::Presence);
        push_cap_if(&mut caps, p, DeviceCapability::Sensor { sensor_type: SensorType::Presence });
        let e = self.has_sensor_data(&SensorType::EnergyMeter);
        push_cap_if(&mut caps, e, DeviceCapability::Sensor { sensor_type: SensorType::EnergyMeter });
        let c = self.has_commander_data(&CommanderType::Switch) || self.has_switch_config_hint();
        push_cap_if(&mut caps, c, DeviceCapability::Commander { commander_type: CommanderType::Switch });
        assert(caps@ =~= spec_detect_capabilities(*self));
        caps
    }

    #[verifier::rlimit(30)]
    fn fixed_field_names(&self) -> (r: Vec<String>)
        ensures
            strings_view(r@) == fixed_names(*self),
    {
        let mut names: Vec<String> = Vec::new();
        push_name_if(&mut names, self.linkquality.is_some(), "linkquality");
        push_name_if(&mut names, self.battery.is_some(), "battery");
        push_name_if(&mut names, self.has_temperature, "temperature");
        push_name_if(&mut names, self.has_humidity, "humidity");
        push_name_if(&mut names, self.occupancy.is_some(), "occupancy");
        push_name_if(&mut names, self.illumination.is_some(), "illumination");
        push_name_if(&mut names, self.has_power, "power");
        push_name_if(&mut names, self.has_voltage, "voltage");
        push_name_if(&mut names, self.has_current, "current");
        push_name_if(&mut names, self.has_ac_frequency, "ac_frequency");
        push_name_if(&mut names, self.has_power_factor, "power_factor");
        push_name_if(&mut names, self.has_energy, "energy");
        push_name_if(&mut names, self.has_produced_energy, "produced_energy");
        push_name_if(&mut names, self.state.is_some(), "state");
        push_name_if(&mut names, self.turbo_mode.is_some(), "turbo_mode");
        names
    }

    fn push_other_names(&self, names: &mut Vec<String>)
        ensures
            strings_view(final(names)@) == strings_view(old(names)@) + other_names(self.other@),
    {
        let ghost fixed = strings_view(names@);
        let mut i: usize = 0;
        while i < self.other.len()
            invariant
                i <= self.other.len(),
                strings_view(names@) == fixed + other_names(self.other@.take(i as int)),
            decreases self.other.len() - i,
        {
            let f = &self.other[i];
            push_name_if(names, !f.is_null, f.key.as_str());
            assert(self.other@.take(i + 1).drop_last() =~= self.other@.take(i as int));
            assert(strings_view(names@) =~= fixed + other_names(self.other@.take(i + 1)));
            i = i + 1;
        }
        assert(self.other@.take(i as int) =~= self.other@);
    }

    /// Names of the fields present in this payload, sorted and without
    /// duplicates.
    pub fn available_fields(&self) -> (r: Vec<String>)
        ensures
            strictly_sorted(strings_view(r@)),
            forall|x: Seq<char>| strings_view(r@).contains(x) <==> candidate_names(*self).contains(x),
    {
        let mut names = self.fixed_field_names();
        self.push_other_names(&mut names);
        sorted_unique(names)
    }
}

/// The MQTT payload that sets a switch: `{"state":"ON"}` or
/// `{"state":"OFF"}`.
pub open spec fn spec_switch_command_payload(on: bool) -> Seq<char> {
    "{\"state\":\""@ + SwitchState::spec_from_bool(on).spec_mqtt_str() + "\"}"@
}

/// The payload of a switch command for the requested state.
pub fn switch_command_payload(on: bool) -> (r: String)
    ensures
        r@ == spec_switch_command_payload(on),
{
    let state = SwitchState::from_bool(on);
    let mut out = String::from_str("{\"state\":\"");
    out.append(state.to_mqtt_string());
    out.append("\"}");
    out
}

/// A payload is detected as a sensor of a type exactly when it carries that
/// type's reading (a temperature, an occupancy, a power value), and as a
/// switch exactly when it carries a state or a switch configuration key.
pub proof fn law_detected_capabilities(m: DeviceMqttMessage)
    ensures
        spec_has_sensor_data(m, SensorType::TempHumidity) == m.has_temperature,
        spec_has_sensor_data(m, SensorType::Presence) == m.occupancy is Some,
        spec_has_sensor_data(m, SensorType::EnergyMeter) == m.has_power,
        spec_detect_capabilities(m).contains(DeviceCapability::Sensor { sensor_type: SensorType::TempHumidity })
            == m.has_temperature,
        spec_detect_capabilities(m).contains(DeviceCapability::Sensor { sensor_type: SensorType::Presence })
            == m.occupancy is Some,
        spec_detect_capabilities(m).contains(DeviceCapability::Sensor { sensor_type: SensorType::EnergyMeter })
            == m.has_power,
        spec_detect_capabilities(m).contains(DeviceCapability::Commander { commander_type: CommanderType::Switch })
            == (m.state is Some || spec_has_switch_config_hint(m)),
{
    let d = spec_detect_capabilities(m);
    let th = DeviceCapability::Sensor { sensor_type: SensorType::TempHumidity };
    let pr = DeviceCapability::Sensor { sensor_type: SensorType::Presence };
    let em = DeviceCapability::Sensor { sensor_type: SensorType::EnergyMeter };
    let sw = DeviceCapability::Commander { commander_type: CommanderType::Switch };
    let parts = seq![
        (spec_has_sensor_data(m, SensorType::TempHumidity), th),
        (spec_has_sensor_data(m, SensorType::Presence), pr),
        (spec_has_sensor_data(m, SensorType::EnergyMeter), em),
        (m.state is Some || spec_has_switch_config_hint(m), sw),
    ];
    assert forall|c: DeviceCapability| d.contains(c) <==> exists|k: int| 0 <= k < 4 && (#[trigger] parts[k]).0 && parts[k].1 == c by {
        if d.contains(c) {
            let w = choose|w: int| 0 <= w < d.len() && d[w] == c;
            let a = opt_cap(parts[0].0, th);
            let b = opt_cap(parts[1].0, pr);
            let e = opt_cap(parts[2].0, em);
            let f = opt_cap(parts[3].0, sw);
            assert(d == a + b + e + f);
            if w < a.len() {
                assert(parts[0].0 && parts[0].1 == c);
            } else if w < a.len() + b.len() {
                assert(parts[1].0 && parts[1].1 == c);
            } else if w < a.len() + b.len() + e.len() {
                assert(parts[2].0 && parts[2].1 == c);
            } else {
                assert(parts[3].0 && parts[3].1 == c);
            }
        }
        if exists|k: int| 0 <= k < 4 && (#[trigger] parts[k]).0 && parts[k].1 == c {
            let k = choose|k: int| 0 <= k < 4 && (#[trigger] parts[k]).0 && parts[k].1 == c;
            let a = opt_cap(parts[0].0, th);
            let b = opt_cap(parts[1].0, pr);
            let e = opt_cap(parts[2].0, em);
            let f = opt_cap(parts[3].0, sw);
            if k == 0 {
                assert(d[0] == c);
            } else if k == 1 {
                assert(d[a.len() as int] == c);
            } else if k == 2 {
                assert(d[(a.len() + b.len()) as int] == c);
            } else {
                assert(d[(a.len() + b.len() + e.len()) as int] == c);
            }
        }
    }
    assert(parts[0].1 != pr && parts[0].1 != em && parts[0].1 != sw);
}

} // verus!
