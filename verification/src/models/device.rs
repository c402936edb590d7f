//! Device capabilities, power sources and topology records.

use vstd::prelude::*;
use vstd::string::*;

use crate::ids::{is_uuid_v4_text, new_uuid_v4};
use crate::models::db_enum::DbEnum;
use crate::readings::now_timestamp;
use crate::sorted::strings_view;
use crate::text::{is_blank, str_eq, trim};

verus! {

/// Device capability: what the device can do.
#[derive(Debug, Clone, Copy, PartialEq, Eq, Structural)]
pub enum DeviceCapability {
    Sensor { sensor_type: SensorType },
    Commander { commander_type: CommanderType },
    Router { turbo_mode: bool },
    Coordinator,
}

/// Type of sensor capability.
#[derive(Debug, Clone, Copy, PartialEq, Eq, Structural)]
pub enum SensorType {
    TempHumidity,
    Presence,
    EnergyMeter,
}

/// Type of commander capability.
#[derive(Debug, Clone, Copy, PartialEq, Eq, Structural)]
pub enum CommanderType {
    Switch,
}

/// Power source of a device.
#[derive(Debug, Clone, Copy, PartialEq, Eq, Structural)]
pub enum PowerSource {
    Battery,
    Plugged,
}

/// Minimal device info for API responses.
#[derive(Debug, Clone)]
pub struct DeviceInfo {
    pub device_id: String,
    pub name: String,
    pub capabilities: Vec<DeviceCapability>,
    pub available_fields: Vec<String>,
}

/// A parent-to-child link in the Zigbee mesh.
#[derive(Debug, Clone)]
pub struct NetworkEdge {
    /// Parent device id
    pub source_id: String,
    /// Child device id
    pub target_id: String,
    /// Link quality (0-255), if known
    pub link_quality: Option<u8>,
}

impl SensorType {
    /// The string that stores this value in the database.
    pub open spec fn spec_db_str(self) -> Seq<char> {
        match self {
            SensorType::TempHumidity => "temp_humidity"@,
            SensorType::Presence => "presence"@,
            SensorType::EnergyMeter => "energy_meter"@,
        }
    }

    /// The value stored as `s`, if any.
    pub open spec fn spec_from_db(s: Seq<char>) -> Option<SensorType> {
        if s == "temp_humidity"@ {
            Some(SensorType::TempHumidity)
        } else if s == "presence"@ {
            Some(SensorType::Presence)
        } else if s == "energy_meter"@ {
            Some(SensorType::EnergyMeter)
        } else {
            None
        }
    }
}

impl DbEnum for SensorType {
    fn to_db_string(&self) -> (r: &'static str)
        ensures
            r@ == self.spec_db_str(),
    {
        match self {
            SensorType::TempHumidity => "temp_humidity",
            SensorType::Presence => "presence",
            SensorType::EnergyMeter => "energy_meter",
        }
    }

    fn from_db_string(s: &str) -> (r: Option<Self>)
        ensures
            r == SensorType::spec_from_db(s@),
    {
        if str_eq(s, "temp_humidity") {
            return Some(SensorType::TempHumidity);
        }
        if str_eq(s, "presence") {
            return Some(SensorType::Presence);
        }
        if str_eq(s, "energy_meter") {
            return Some(SensorType::EnergyMeter);
        }
        None
    }
}

/// Every sensor type reads back as itself from its database string, and no
/// other string reads back as it.
pub proof fn law_sensor_type_db_roundtrip(x: SensorType, s: Seq<char>)
    ensures
        SensorType::spec_from_db(x.spec_db_str()) == Some(x),
        SensorType::spec_from_db(s) == Some(x) ==> s == x.spec_db_str(),
{
    reveal_strlit("temp_humidity");
    reveal_strlit("presence");
    reveal_strlit("energy_meter");
    assert("temp_humidity"@.len() != "presence"@.len());
    assert("temp_humidity"@.len() != "energy_meter"@.len());
    assert("presence"@.len() != "energy_meter"@.len());
}

impl CommanderType {
    /// The string that stores this value in the database.
    pub open spec fn spec_db_str(self) -> Seq<char> {
        match self {
            CommanderType::Switch => "switch"@,
        }
    }

    /// The value stored as `s`, if any.
    pub open spec fn spec_from_db(s: Seq<char>) -> Option<CommanderType> {
        if s == "switch"@ {
            Some(CommanderType::Switch)
        } else {
            None
        }
    }
}

impl DbEnum for CommanderType {
    fn to_db_string(&self) -> (r: &'static str)
        ensures
            r@ == self.spec_db_str(),
    {
        match self {
            CommanderType::Switch => "switch",
        }
    }

    fn from_db_string(s: &str) -> (r: Option<Self>)
        ensures
            r == CommanderType::spec_from_db(s@),
    {
        if str_eq(s, "switch") {
            return Some(CommanderType::Switch);
        }
        None
    }
}

/// Every commander type reads back as itself from its database string, and no
/// other string reads back as it.
pub proof fn law_commander_type_db_roundtrip(x: CommanderType, s: Seq<char>)
    ensures
        CommanderType::spec_from_db(x.spec_db_str()) == Some(x),
        CommanderType::spec_from_db(s) == Some(x) ==> s == x.spec_db_str(),
{
    reveal_strlit("switch");

}

impl PowerSource {
    /// The string that stores this value in the database.
    pub open spec fn spec_db_str(self) -> Seq<char> {
        match self {
            PowerSource::Battery => "battery"@,
            PowerSource::Plugged => "plugged"@,
        }
    }

    /// The value stored as `s`, if any.
    pub open spec fn spec_from_db(s: Seq<char>) -> Option<PowerSource> {
        if s == "battery"@ {
            Some(PowerSource::Battery)
        } else if s == "plugged"@ {
            Some(PowerSource::Plugged)
        } else {
            None
        }
    }
}

impl DbEnum for PowerSource {
    fn to_db_string(&self) -> (r: &'static str)
        ensures
            r@ == self.spec_db_str(),
    {
        match self {
            PowerSource::Battery => "battery",
            PowerSource::Plugged => "plugged",
        }
    }

    fn from_db_string(s: &str) -> (r: Option<Self>)
        ensures
            r == PowerSource::spec_from_db(s@),
    {
        if str_eq(s, "battery") {
            return Some(PowerSource::Battery);
        }
        if str_eq(s, "plugged") {
            return Some(PowerSource::Plugged);
        }
        None
    }
}

/// Every power source reads back as itself from its database string, and no
/// other string reads back as it.
pub proof fn law_power_source_db_roundtrip(x: PowerSource, s: Seq<char>)
    ensures
        PowerSource::spec_from_db(x.spec_db_str()) == Some(x),
        PowerSource::spec_from_db(s) == Some(x) ==> s == x.spec_db_str(),
{
    reveal_strlit("battery");
    reveal_strlit("plugged");
    assert("battery"@[0] != "plugged"@[0]);
}

// ---------------------------------------------------------------------------
// Devices
// ---------------------------------------------------------------------------

/// The device has a sensor capability of type `t`.
pub open spec fn caps_have_sensor(caps: Seq<DeviceCapability>, t: SensorType) -> bool {
    exists|i: int| 0 <= i < caps.len() && caps[i] == (DeviceCapability::Sensor { sensor_type: t })
}

/// The device has a commander capability of type `t`.
pub open spec fn caps_have_commander(caps: Seq<DeviceCapability>, t: CommanderType) -> bool {
    exists|i: int| 0 <= i < caps.len() && caps[i] == (DeviceCapability::Commander { commander_type: t })
}

/// The device has some commander capability (it is a switch).
pub open spec fn caps_any_commander(caps: Seq<DeviceCapability>) -> bool {
    exists|i: int| 0 <= i < caps.len() && caps[i] is Commander
}

/// Static metadata of a device. Times are seconds since the Unix epoch.
#[derive(Debug, Clone)]
pub struct Device {
    /// Unique identifier
    pub id: String,
    /// MQTT topic of the device
    pub mqtt_topic: String,
    /// IEEE address (usually the topic)
    pub ieee_addr: String,
    pub name: String,
    pub capabilities: Vec<DeviceCapability>,
    /// Fields the device reports
    pub available_fields: Vec<String>,
    pub power_source: PowerSource,
    pub added_at: i64,
    /// Acts as a router in the mesh
    pub is_bridge: bool,
    /// Parent in the mesh (none for the coordinator)
    pub parent_device_id: Option<String>,
}

/// Whether `c` occurs among the capabilities.
fn caps_position(caps: &Vec<DeviceCapability>, c: DeviceCapability) -> (r: bool)
    ensures
        r == (exists|i: int| 0 <= i < caps@.len() && caps@[i] == c),
{
    let mut i: usize = 0;
    while i < caps.len()
        invariant
            i <= caps.len(),
            forall|k: int| 0 <= k < i ==> caps@[k] != c,
        decreases caps.len() - i,
    {
        if caps[i] == c {
            return true;
        }
        i = i + 1;
    }
    false
}

impl Device {
    /// A device added now, with a fresh id; its IEEE address is its topic.
    pub fn new(
        mqtt_topic: String,
        name: String,
        capabilities: Vec<DeviceCapability>,
        available_fields: Vec<String>,
        power_source: PowerSource,
    ) -> (r: Self)
        ensures
            is_uuid_v4_text(r.id@),
            r.mqtt_topic == mqtt_topic,
            r.ieee_addr == mqtt_topic,
            r.name == name,
            r.capabilities == capabilities,
            r.available_fields == available_fields,
            r.power_source == power_source,
            !r.is_bridge,
            r.parent_device_id is None,
    {
        let ieee_addr = mqtt_topic.clone();
        Device {
            id: new_uuid_v4(),
            mqtt_topic,
            ieee_addr,
            name,
            capabilities,
            available_fields,
            power_source,
            added_at: now_timestamp(),
            is_bridge: false,
            parent_device_id: None,
        }
    }

    /// Whether the device runs on battery.
    pub fn is_battery_powered(&self) -> (b: bool)
        ensures
            b == (self.power_source == PowerSource::Battery),
    {
        match self.power_source {
            PowerSource::Battery => true,
            PowerSource::Plugged => false,
        }
    }

    /// Whether the device has exactly this capability.
    pub fn has_capability(&self, capability: &DeviceCapability) -> (b: bool)
        ensures
            b == (exists|i: int| 0 <= i < self.capabilities@.len() && self.capabilities@[i] == *capability),
    {
        caps_position(&self.capabilities, *capability)
    }

    /// Whether the device has a sensor capability of this type.
    pub fn has_sensor_type(&self, sensor_type: &SensorType) -> (b: bool)
        ensures
            b == caps_have_sensor(self.capabilities@, *sensor_type),
    {
        caps_position(&self.capabilities, DeviceCapability::Sensor { sensor_type: *sensor_type })
    }

    /// Whether the device has a commander capability of this type.
    pub fn has_commander_type(&self, commander_type: &CommanderType) -> (b: bool)
        ensures
            b == caps_have_commander(self.capabilities@, *commander_type),
    {
        caps_position(&self.capabilities, DeviceCapability::Commander { commander_type: *commander_type })
    }

    /// Whether the device reports a `turbo_mode` field.
    pub fn supports_turbo_mode(&self) -> (b: bool)
        ensures
            b == strings_view(self.available_fields@).contains("turbo_mode"@),
    {
        let mut i: usize = 0;
        while i < self.available_fields.len()
            invariant
                i <= self.available_fields.len(),
                forall|k: int| 0 <= k < i ==> self.available_fields@[k]@ != "turbo_mode"@,
            decreases self.available_fields.len() - i,
        {
            if str_eq(self.available_fields[i].as_str(), "turbo_mode") {
                assert(strings_view(self.available_fields@)[i as int] == "turbo_mode"@);
                return true;
            }
            i = i + 1;
        }
        proof {
            if strings_view(self.available_fields@).contains("turbo_mode"@) {
                let k = choose|k: int|
                    0 <= k < strings_view(self.available_fields@).len() && strings_view(self.available_fields@)[k]
                        == "turbo_mode"@;
                assert(self.available_fields@[k]@ == "turbo_mode"@);
            }
        }
        false
    }

    /// Reads the stored field list: a blank value is the empty list,
    /// anything else must be a JSON array of strings.
    pub fn available_fields_from_db(value: &str) -> (r: Option<Vec<String>>)
        ensures
            trim(value@).len() == 0 ==> (r matches Some(v) && v@.len() == 0),
            trim(value@).len() != 0 ==> match r {
                Some(v) => json_string_array(value@) == Some(strings_view(v@)),
                None => json_string_array(value@) is None,
            },
    {
        if is_blank(value) {
            return Some(Vec::new());
        }
        parse_json_string_array(value)
    }

    /// Whether the device has some commander capability.
    pub fn is_commander(&self) -> (b: bool)
        ensures
            b == caps_any_commander(self.capabilities@),
    {
        let mut i: usize = 0;
        while i < self.capabilities.len()
            invariant
                i <= self.capabilities.len(),
                forall|k: int| 0 <= k < i ==> !(self.capabilities@[k] is Commander),
            decreases self.capabilities.len() - i,
        {
            match self.capabilities[i] {
                DeviceCapability::Commander { .. } => {
                    return true;
                },
                _ => {},
            }
            i = i + 1;
        }
        false
    }
}

/// The strings of `s` read as a JSON array of strings, or `None` when `s`
/// is not one. The JSON grammar behind it is serde_json's.
pub uninterp spec fn json_string_array(s: Seq<char>) -> Option<Seq<Seq<char>>>;

/// `serde_json::from_str::<Vec<String>>(s).ok()`. Parsing is a function of
/// `s` alone; its result is given a name, not a definition.
#[verifier::external_body]
fn parse_json_string_array(s: &str) -> (r: Option<Vec<String>>)
    ensures
        match r {
            Some(v) => json_string_array(s@) == Some(strings_view(v@)),
            None => json_string_array(s@) is None,
        },
{
    serde_json::from_str::<Vec<String>>(s).ok()
}

/// Dynamic state of a device, rebuilt from its messages.
#[derive(Debug, Clone)]
pub struct DeviceState {
    pub device_id: String,
    /// Link quality (0-255)
    pub link_quality: Option<u8>,
    /// Battery level (0-100)
    pub battery_level: Option<u8>,
    /// Seconds since the epoch of the last message
    pub last_seen: i64,
    pub turbo_mode: Option<bool>,
}

impl DeviceState {
    /// A state with nothing known yet, seen now.
    pub fn new(device_id: String) -> (r: Self)
        ensures
            r.device_id == device_id,
            r.link_quality is None,
            r.battery_level is None,
            r.turbo_mode is None,
    {
        DeviceState {
            device_id,
            link_quality: None,
            battery_level: None,
            last_seen: now_timestamp(),
            turbo_mode: None,
        }
    }
}

/// Devices of the mesh and the parent-to-child links between them.
#[derive(Debug, Clone)]
pub struct NetworkTopology {
    pub devices: Vec<Device>,
    pub edges: Vec<NetworkEdge>,
}

/// The links of the mesh: one per device with a parent, from the parent
/// to the device, in device order, carrying the device's link quality.
pub open spec fn spec_topology_edges(devices: Seq<Device>, link_qualities: Seq<Option<u8>>) -> Seq<(Seq<char>, Seq<char>, Option<u8>)>
    decreases devices.len(),
{
    if devices.len() == 0 {
        Seq::empty()
    } else {
        let prev = spec_topology_edges(devices.drop_last(), link_qualities.take(devices.len() - 1));
        let d = devices.last();
        match d.parent_device_id {
            Some(p) => prev.push((p@, d.id@, link_qualities[devices.len() - 1])),
            None => prev,
        }
    }
}

pub open spec fn edges_view(e: Seq<NetworkEdge>) -> Seq<(Seq<char>, Seq<char>, Option<u8>)> {
    e.map_values(|x: NetworkEdge| (x.source_id@, x.target_id@, x.link_quality))
}

/// The mesh links of `devices`; `link_qualities[i]` is the link quality
/// known for `devices[i]`.
pub fn topology_edges(devices: &Vec<Device>, link_qualities: &Vec<Option<u8>>) -> (r: Vec<NetworkEdge>)
    requires
        link_qualities.len() == devices.len(),
    ensures
        edges_view(r@) == spec_topology_edges(devices@, link_qualities@),
{
    let mut out: Vec<NetworkEdge> = Vec::new();
    let mut i: usize = 0;
    while i < devices.len()
        invariant
            i <= devices.len(),
            link_qualities.len() == devices.len(),
            edges_view(out@) == spec_topology_edges(devices@.take(i as int), link_qualities@.take(i as int)),
        decreases devices.len() - i,
    {
        let ghost ds = devices@.take(i + 1);
        let ghost ls = link_qualities@.take(i + 1);
        assert(ds.drop_last() =~= devices@.take(i as int));
        assert(ls.take(ds.len() - 1) =~= link_qualities@.take(i as int));
        assert(ds.last() == devices@[i as int]);
        assert(ls[ds.len() - 1] == link_qualities@[i as int]);
        let d = &devices[i];
        match &d.parent_device_id {
            Some(p) => {
                let ghost before = edges_view(out@);
                out.push(NetworkEdge { source_id: p.clone(), target_id: d.id.clone(), link_quality: link_qualities[i] });
                assert(edges_view(out@) =~= before.push((p@, d.id@, link_qualities@[i as int])));
            },
            None => {},
        }
        i = i + 1;
    }
    assert(devices@.take(i as int) =~= devices@);
    assert(link_qualities@.take(i as int) =~= link_qualities@);
    out
}


// ---------------------------------------------------------------------------
// Capability maintenance
// ---------------------------------------------------------------------------

/// Some capability is the router role.
pub open spec fn caps_any_router(caps: Seq<DeviceCapability>) -> bool {
    exists|i: int| 0 <= i < caps.len() && caps[i] is Router
}

/// The capabilities other than the router role, in order.
pub open spec fn spec_without_routers(caps: Seq<DeviceCapability>) -> Seq<DeviceCapability>
    decreases caps.len(),
{
    if caps.len() == 0 {
        Seq::empty()
    } else if caps.last() is Router {
        spec_without_routers(caps.drop_last())
    } else {
        spec_without_routers(caps.drop_last()).push(caps.last())
    }
}

/// The capabilities of a device after its mesh role is set: a device that
/// becomes a router gains the router capability (with turbo mode when it
/// reports that field); one that stops being a router loses it; otherwise
/// they stay as they are.
pub open spec fn spec_role_capabilities(caps: Seq<DeviceCapability>, is_bridge: bool, turbo: bool) -> Seq<DeviceCapability> {
    if is_bridge && !caps_any_router(caps) {
        caps.push(DeviceCapability::Router { turbo_mode: turbo })
    } else if !is_bridge && caps_any_router(caps) {
        spec_without_routers(caps)
    } else {
        caps
    }
}

proof fn lemma_without_routers(caps: Seq<DeviceCapability>)
    ensures
        !caps_any_router(spec_without_routers(caps)),
    decreases caps.len(),
{
    if caps.len() > 0 {
        lemma_without_routers(caps.drop_last());
        let prev = spec_without_routers(caps.drop_last());
        if !(caps.last() is Router) {
            let now = prev.push(caps.last());
            assert forall|i: int| 0 <= i < now.len() implies !(now[i] is Router) by {
                if i < prev.len() {
                    assert(now[i] == prev[i]);
                }
            }
        }
    }
}

/// After its role is set, a device has the router capability exactly when
/// it is a router.
pub proof fn law_router_capability_follows_role(caps: Seq<DeviceCapability>, is_bridge: bool, turbo: bool)
    ensures
        caps_any_router(spec_role_capabilities(caps, is_bridge, turbo)) == is_bridge,
{
    if is_bridge && !caps_any_router(caps) {
        let r = caps.push(DeviceCapability::Router { turbo_mode: turbo });
        assert(r[caps.len() as int] is Router);
    } else if !is_bridge && caps_any_router(caps) {
        lemma_without_routers(caps);
    }
}

/// Whether some capability is the router role.
fn has_router(caps: &Vec<DeviceCapability>) -> (b: bool)
    ensures
        b == caps_any_router(caps@),
{
    let mut i: usize = 0;
    while i < caps.len()
        invariant
            i <= caps.len(),
            forall|k: int| 0 <= k < i ==> !(caps@[k] is Router),
        decreases caps.len() - i,
    {
        match caps[i] {
            DeviceCapability::Router { .. } => {
                return true;
            },
            _ => {},
        }
        i = i + 1;
    }
    false
}

impl Device {
    /// The device's capabilities once its mesh role is set to `is_bridge`.
    pub fn capabilities_for_role(&self, is_bridge: bool) -> (r: Vec<DeviceCapability>)
        ensures
            r@ == spec_role_capabilities(
                self.capabilities@,
                is_bridge,
                strings_view(self.available_fields@).contains("turbo_mode"@),
            ),
    {
        let router = has_router(&self.capabilities);
        let turbo = self.supports_turbo_mode();
        if is_bridge && !router {
            let mut caps = self.capabilities.clone();
            caps.push(DeviceCapability::Router { turbo_mode: turbo });
            return caps;
        }
        if !is_bridge && router {
            let mut out: Vec<DeviceCapability> = Vec::new();
            let mut i: usize = 0;
            while i < self.capabilities.len()
                invariant
                    i <= self.capabilities.len(),
                    out@ == spec_without_routers(self.capabilities@.take(i as int)),
                decreases self.capabilities.len() - i,
            {
                assert(self.capabilities@.take(i + 1).drop_last() =~= self.capabilities@.take(i as int));
                let c = self.capabilities[i];
                match c {
                    DeviceCapability::Router { .. } => {},
                    _ => {
                        out.push(c);
                    },
                }
                i = i + 1;
            }
            assert(self.capabilities@.take(i as int) =~= self.capabilities@);
            return out;
        }
        self.capabilities.clone()
    }
}

/// The capabilities recorded for a device stored in the legacy form (a
/// capability type and subtype column, and a bridge flag).
pub open spec fn spec_legacy_capabilities(
    cap_type: Option<Seq<char>>,
    cap_subtype: Option<Seq<char>>,
    is_bridge: bool,
) -> Seq<DeviceCapability> {
    let base: Seq<DeviceCapability> = match (cap_type, cap_subtype) {
        (Some(t), Some(sub)) => if t == "sensor"@ {
            match SensorType::spec_from_db(sub) {
                Some(st) => seq![DeviceCapability::Sensor { sensor_type: st }],
                None => Seq::empty(),
            }
        } else if t == "commander"@ {
            match CommanderType::spec_from_db(sub) {
                Some(ct) => seq![DeviceCapability::Commander { commander_type: ct }],
                None => Seq::empty(),
            }
        } else if t == "coordinator"@ {
            seq![DeviceCapability::Coordinator]
        } else {
            Seq::empty()
        },
        (Some(t), None) => if t == "coordinator"@ {
            seq![DeviceCapability::Coordinator]
        } else {
            Seq::empty()
        },
        _ => Seq::empty(),
    };
    if is_bridge {
        base.push(DeviceCapability::Router { turbo_mode: false })
    } else {
        base
    }
}

/// Capabilities migrated from the legacy columns.
pub fn legacy_capabilities(cap_type: Option<&str>, cap_subtype: Option<&str>, is_bridge: bool) -> (r: Vec<
    DeviceCapability,
>)
    ensures
        r@ == spec_legacy_capabilities(
            match cap_type {
                Some(t) => Some(t@),
                None => None,
            },
            match cap_subtype {
                Some(s) => Some(s@),
                None => None,
            },
            is_bridge,
        ),
{
    let mut caps: Vec<DeviceCapability> = Vec::new();
    match cap_type {
        Some(t) => {
            if str_eq(t, "sensor") {
                if let Some(sub) = cap_subtype {
                    if let Some(st) = SensorType::from_db_string(sub) {
                        caps.push(DeviceCapability::Sensor { sensor_type: st });
                    }
                }
            } else if str_eq(t, "commander") {
                if let Some(sub) = cap_subtype {
                    if let Some(ct) = CommanderType::from_db_string(sub) {
                        caps.push(DeviceCapability::Commander { commander_type: ct });
                    }
                }
            } else if str_eq(t, "coordinator") {
                caps.push(DeviceCapability::Coordinator);
            }
        },
        None => {},
    }
    if is_bridge {
        caps.push(DeviceCapability::Router { turbo_mode: false });
    }
    proof {
        reveal_strlit("sensor");
        reveal_strlit("commander");
        reveal_strlit("coordinator");
        assert("sensor"@.len() != "coordinator"@.len());
        assert("commander"@.len() != "coordinator"@.len());
        assert("sensor"@.len() != "commander"@.len());
        let b = spec_legacy_capabilities(
            match cap_type {
                Some(t) => Some(t@),
                None => None,
            },
            match cap_subtype {
                Some(s) => Some(s@),
                None => None,
            },
            is_bridge,
        );
        assert(caps@ =~= b);
    }
    caps
}

} // verus!
