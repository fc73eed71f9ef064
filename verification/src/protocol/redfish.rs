//! The Redfish resources of the gateway and the writes to its sensors.

use vstd::prelude::*;

use crate::config::{Access, Config, PipelineConfig, RegisterFunction, StageConfig, ValueType, WordOrder};
use crate::domain::{copy_text, MetricStatus};
use crate::number::Real;
use crate::protocol::views::{SensorFacts, SensorView};
use crate::protocol::WriteValue;
use crate::text::{contains_text, join2, join3, join5, same_text};

verus! {

// ---- kinds of sensors ----

/// The quantity that a sensor measures, by its unit.
#[derive(Debug, Clone, Copy, PartialEq, Eq, Structural)]
pub enum SensorKind {
    Temperature,
    Fan,
    Voltage,
    Current,
    Other,
}

/// The characters with the Unicode property `White_Space`.
pub open spec fn white(c: char) -> bool {
    ||| '\u{9}' <= c <= '\u{d}'
    ||| c == '\u{20}' || c == '\u{85}' || c == '\u{a0}' || c == '\u{1680}'
    ||| '\u{2000}' <= c <= '\u{200a}'
    ||| c == '\u{2028}' || c == '\u{2029}' || c == '\u{202f}' || c == '\u{205f}' || c == '\u{3000}'
}

/// A text without the white space around it.
pub open spec fn trimmed(text: Seq<char>) -> Seq<char>
    decreases text.len(),
{
    if text.len() == 0 {
        text
    } else if white(text[0]) {
        trimmed(text.skip(1))
    } else if white(text.last()) {
        trimmed(text.drop_last())
    } else {
        text
    }
}

/// A text in lower case, as `str::to_lowercase` gives it.
pub uninterp spec fn lowered(text: Seq<char>) -> Seq<char>;

fn is_white(c: char) -> (r: bool)
    ensures
        r == white(c),
{
    ('\u{9}' <= c && c <= '\u{d}') || c == '\u{20}' || c == '\u{85}' || c == '\u{a0}' || c == '\u{1680}' || ('\u{2000}'
        <= c && c <= '\u{200a}') || c == '\u{2028}' || c == '\u{2029}' || c == '\u{202f}' || c == '\u{205f}' || c
        == '\u{3000}'
}

/// A text without the white space around it.
pub fn trim_text(text: &str) -> (r: &str)
    ensures
        r@ == trimmed(text@),
{
    let cs = crate::text::characters(text);
    let n: usize = cs.len();
    let mut a: usize = 0;
    assert(text@.subrange(0, n as int) =~= text@);
    while a < n && is_white(cs[a])
        invariant
            cs@ == text@,
            a <= n == cs@.len(),
            trimmed(text@) == trimmed(text@.subrange(a as int, n as int)),
        decreases n - a,
    {
        assert(text@.subrange(a as int, n as int).skip(1) =~= text@.subrange(a + 1, n as int));
        a = a + 1;
    }
    let mut b: usize = n;
    while b > a && is_white(cs[b - 1])
        invariant
            cs@ == text@,
            a <= b <= n == cs@.len(),
            a < n ==> !white(text@[a as int]),
            trimmed(text@) == trimmed(text@.subrange(a as int, b as int)),
        decreases b,
    {
        assert(text@.subrange(a as int, b as int).drop_last() =~= text@.subrange(a as int, b - 1));
        b = b - 1;
    }
    text.substring_char(a, b)
}

/// Calls `str::to_lowercase`. The contract names its result as a function of
/// the text; how each character is lowered is left to that name.
#[verifier::external_body]
fn lower_text(text: &str) -> (r: String)
    ensures
        r@ == lowered(text@),
{
    text.to_lowercase()
}

/// The quantity that a unit, trimmed and in lower case, stands for.
pub open spec fn kind_of(unit: Seq<char>) -> SensorKind {
    if unit.len() == 0 {
        SensorKind::Other
    } else if crate::text::occurs(unit, "°c"@) || unit == "c"@ || crate::text::occurs(unit, "celsius"@)
        || crate::text::occurs(unit, "deg c"@) {
        SensorKind::Temperature
    } else if crate::text::occurs(unit, "rpm"@) {
        SensorKind::Fan
    } else if crate::text::occurs(unit, "v"@) {
        SensorKind::Voltage
    } else if unit == "a"@ || unit == "ma"@ || unit == "ka"@ {
        SensorKind::Current
    } else {
        SensorKind::Other
    }
}

/// The quantity that a unit, trimmed and in lower case, stands for.
pub fn classify_unit(unit: &str) -> (r: SensorKind)
    ensures
        r == kind_of(unit@),
{
    if unit.is_empty() {
        return SensorKind::Other;
    }
    if contains_text(unit, "°c") || same_text(unit, "c") || contains_text(unit, "celsius") || contains_text(
        unit,
        "deg c",
    ) {
        SensorKind::Temperature
    } else if contains_text(unit, "rpm") {
        SensorKind::Fan
    } else if contains_text(unit, "v") {
        SensorKind::Voltage
    } else if same_text(unit, "a") || same_text(unit, "ma") || same_text(unit, "ka") {
        SensorKind::Current
    } else {
        SensorKind::Other
    }
}

/// The unit that a sensor is classified by.
pub open spec fn plain_unit(f: SensorFacts) -> Seq<char> {
    lowered(
        trimmed(
            match f.unit {
                Some(u) => u,
                None => ""@,
            },
        ),
    )
}

/// The quantity that a sensor measures.
pub fn classify(view: &SensorView) -> (r: SensorKind)
    ensures
        r == kind_of(plain_unit(view@)),
{
    let unit = match &view.unit {
        Some(u) => u.as_str(),
        None => "",
    };
    let plain = lower_text(trim_text(unit));
    classify_unit(plain.as_str())
}

/// The Redfish reading type of a quantity.
pub open spec fn reading_type_name(kind: SensorKind) -> Seq<char> {
    match kind {
        SensorKind::Temperature => "Temperature"@,
        SensorKind::Fan => "Rotational"@,
        SensorKind::Voltage => "Voltage"@,
        SensorKind::Current => "Current"@,
        SensorKind::Other => "Other"@,
    }
}

/// The Redfish reading type of a quantity.
pub fn reading_type(kind: SensorKind) -> (r: &'static str)
    ensures
        r@ == reading_type_name(kind),
{
    match kind {
        SensorKind::Temperature => "Temperature",
        SensorKind::Fan => "Rotational",
        SensorKind::Voltage => "Voltage",
        SensorKind::Current => "Current",
        SensorKind::Other => "Other",
    }
}

// ---- sensor resources ----

/// State and health of a resource.
#[derive(Debug)]
pub struct StatusResource {
    pub state: &'static str,
    pub health: &'static str,
}

/// What is shown of the register behind a sensor.
#[derive(Debug)]
pub struct RegisterResource {
    pub access: &'static str,
    pub address: u16,
    pub function: &'static str,
    pub value_type: &'static str,
    pub word_order: &'static str,
}

/// A sensor resource.
#[derive(Debug)]
pub struct SensorResource {
    pub odata_id: String,
    pub id: String,
    pub name: String,
    pub reading_type: &'static str,
    pub status: StatusResource,
    pub computed: bool,
    pub formula: Option<String>,
    /// None for a computed sensor.
    pub register: Option<RegisterResource>,
    pub reading: Option<Real>,
    /// Shown beside a reading only.
    pub reading_units: Option<String>,
    /// Where a sensor that can be written takes its writes.
    pub set_reading_target: Option<String>,
    pub timestamp_ms: Option<u64>,
}

pub open spec fn sensor_path(device: Seq<char>, id: Seq<char>) -> Seq<char> {
    "/redfish/v1/Chassis/"@ + device + "/Sensors/"@ + id
}

fn sensor_path_text(device: &str, id: &str) -> (r: String)
    ensures
        r@ == sensor_path(device@, id@),
{
    let mut p = join3("/redfish/v1/Chassis/", device, "/Sensors/");
    p.append(id);
    p
}

pub open spec fn access_name(a: Access) -> Seq<char> {
    match a {
        Access::Read => "read"@,
        Access::ReadWrite => "read_write"@,
    }
}

pub open spec fn function_key(f: RegisterFunction) -> Seq<char> {
    match f {
        RegisterFunction::Holding => "holding"@,
        RegisterFunction::Input => "input"@,
        RegisterFunction::Coil => "coil"@,
        RegisterFunction::DiscreteInput => "discrete_input"@,
    }
}

pub open spec fn value_type_key(t: ValueType) -> Seq<char> {
    match t {
        ValueType::U16 => "u16"@,
        ValueType::I16 => "i16"@,
        ValueType::U32 => "u32"@,
        ValueType::I32 => "i32"@,
        ValueType::F32 => "f32"@,
        ValueType::Bool => "bool"@,
    }
}

pub open spec fn word_order_key(o: WordOrder) -> Seq<char> {
    match o {
        WordOrder::Big => "big"@,
        WordOrder::Little => "little"@,
    }
}

/// The name of an access as the configuration writes it.
pub fn access_str(a: Access) -> (r: &'static str)
    ensures
        r@ == access_name(a),
{
    match a {
        Access::Read => "read",
        Access::ReadWrite => "read_write",
    }
}

/// The name of an address space as the configuration writes it.
pub fn function_str(f: RegisterFunction) -> (r: &'static str)
    ensures
        r@ == function_key(f),
{
    match f {
        RegisterFunction::Holding => "holding",
        RegisterFunction::Input => "input",
        RegisterFunction::Coil => "coil",
        RegisterFunction::DiscreteInput => "discrete_input",
    }
}

/// The name of a value type as the configuration writes it.
pub fn value_type_str(t: ValueType) -> (r: &'static str)
    ensures
        r@ == value_type_key(t),
{
    match t {
        ValueType::U16 => "u16",
        ValueType::I16 => "i16",
        ValueType::U32 => "u32",
        ValueType::I32 => "i32",
        ValueType::F32 => "f32",
        ValueType::Bool => "bool",
    }
}

/// The name of a word order as the configuration writes it.
pub fn word_order_str(o: WordOrder) -> (r: &'static str)
    ensures
        r@ == word_order_key(o),
{
    match o {
        WordOrder::Big => "big",
        WordOrder::Little => "little",
    }
}

/// The health of a status.
pub open spec fn health_name(s: MetricStatus) -> Seq<char> {
    match s {
        MetricStatus::Normal => "OK"@,
        MetricStatus::Warning => "Warning"@,
        MetricStatus::Critical => "Critical"@,
        MetricStatus::Unknown => "Unknown"@,
    }
}

/// A sensor without a value is disabled; one with a value has the health of its
/// status.
pub open spec fn shows_status(r: StatusResource, value: Option<Real>, status: MetricStatus) -> bool {
    if value is None {
        r.state@ == "Disabled"@ && r.health@ == "NA"@
    } else {
        r.state@ == "Enabled"@ && r.health@ == health_name(status)
    }
}

/// The status of a sensor.
pub fn status_json(view: &SensorView) -> (r: StatusResource)
    ensures
        shows_status(r, view.value, view.status),
        view.value is None ==> r.state@ == "Disabled"@ && r.health@ == "NA"@,
        view.value is Some ==> r.state@ == "Enabled"@,
        view.value is Some && view.status == MetricStatus::Normal ==> r.health@ == "OK"@,
        view.value is Some && view.status == MetricStatus::Warning ==> r.health@ == "Warning"@,
        view.value is Some && view.status == MetricStatus::Critical ==> r.health@ == "Critical"@,
        view.value is Some && view.status == MetricStatus::Unknown ==> r.health@ == "Unknown"@,
{
    match view.value {
        None => StatusResource { state: "Disabled", health: "NA" },
        Some(_) => {
            let health = match view.status {
                MetricStatus::Normal => "OK",
                MetricStatus::Warning => "Warning",
                MetricStatus::Critical => "Critical",
                MetricStatus::Unknown => "Unknown",
            };
            StatusResource { state: "Enabled", health }
        },
    }
}

/// `r` is the resource of a sensor of this quantity.
pub open spec fn shows_sensor(r: SensorResource, f: SensorFacts, kind: SensorKind) -> bool {
    &&& r.odata_id@ == sensor_path(f.device, f.sensor_id)
    &&& r.id@ == f.sensor_id
    &&& r.name@ == f.name
    &&& r.reading_type@ == reading_type_name(kind)
    &&& shows_status(r.status, f.value, f.status)
    &&& r.computed == f.is_computed
    &&& crate::expression::text_of(r.formula) == f.formula
    &&& match r.register {
        None => f.is_computed,
        Some(g) => {
            &&& !f.is_computed
            &&& g.access@ == access_name(f.access)
            &&& g.address == f.address
            &&& g.function@ == function_key(f.function)
            &&& g.value_type@ == value_type_key(f.value_type)
            &&& g.word_order@ == word_order_key(f.word_order)
        },
    }
    &&& r.reading == f.value
    &&& crate::expression::text_of(r.reading_units) == (if f.value is Some {
        f.unit
    } else {
        None
    })
    &&& crate::expression::text_of(r.set_reading_target) == (if f.access == Access::ReadWrite {
        Some(sensor_path(f.device, f.sensor_id))
    } else {
        None
    })
    &&& r.timestamp_ms == f.timestamp_ms
}

/// The resource of a sensor of this quantity.
pub fn sensor_json_given(view: &SensorView, kind: SensorKind) -> (r: SensorResource)
    ensures
        shows_sensor(r, view@, kind),
{
    let register = if view.is_computed {
        None
    } else {
        Some(
            RegisterResource {
                access: access_str(view.access),
                address: view.address,
                function: function_str(view.function),
                value_type: value_type_str(view.value_type),
                word_order: word_order_str(view.word_order),
            },
        )
    };
    let reading_units = if view.value.is_some() {
        copy_text(&view.unit)
    } else {
        None
    };
    let set_reading_target = if view.access == Access::ReadWrite {
        Some(sensor_path_text(view.device.as_str(), view.sensor_id.as_str()))
    } else {
        None
    };
    SensorResource {
        odata_id: sensor_path_text(view.device.as_str(), view.sensor_id.as_str()),
        id: view.sensor_id.clone(),
        name: view.name.clone(),
        reading_type: reading_type(kind),
        status: status_json(view),
        computed: view.is_computed,
        formula: copy_text(&view.formula),
        register,
        reading: view.value,
        reading_units,
        set_reading_target,
        timestamp_ms: view.timestamp_ms,
    }
}

/// The resource of a sensor.
pub fn sensor_json(view: &SensorView) -> (r: SensorResource)
    ensures
        shows_sensor(r, view@, kind_of(plain_unit(view@))),
{
    let kind = classify(view);
    sensor_json_given(view, kind)
}

/// The seconds and nanoseconds of a time in milliseconds.
pub fn format_ts(ms: u64) -> (r: (u64, u32))
    ensures
        r.0 == ms / 1000,
        r.1 == (ms % 1000) * 1_000_000,
{
    (ms / 1000, ((ms % 1000) * 1_000_000) as u32)
}

// ---- chassis ----

/// The sensor belongs on this chassis: a register of the device, or a computed
/// sensor.
pub open spec fn on_chassis(f: SensorFacts, device: Seq<char>) -> bool {
    f.device == device || f.is_computed
}

/// Those of the first `n` views that belong on a chassis.
pub open spec fn chassis_part(vs: Seq<SensorView>, device: Seq<char>, n: int) -> Seq<SensorView>
    decreases n,
{
    if n <= 0 {
        Seq::empty()
    } else if on_chassis(vs[n - 1]@, device) {
        chassis_part(vs, device, n - 1).push(vs[n - 1])
    } else {
        chassis_part(vs, device, n - 1)
    }
}

/// The views that belong on a chassis.
pub fn chassis_views(views: &Vec<SensorView>, device: &str) -> (r: Vec<SensorView>)
    ensures
        r@ == chassis_part(views@, device@, views@.len() as int),
{
    let mut r: Vec<SensorView> = Vec::new();
    let mut i: usize = 0;
    while i < views.len()
        invariant
            i <= views@.len(),
            r@ == chassis_part(views@, device@, i as int),
        decreases views@.len() - i,
    {
        if same_text(views[i].device.as_str(), device) || views[i].is_computed {
            r.push(views[i].clone());
        }
        i = i + 1;
    }
    r
}

/// Whether a device of this name is configured.
pub fn device_exists(config: &Config, device: &str) -> (r: bool)
    ensures
        r == crate::validation::device_named(config.devices@, config.devices@.len() as int, device@),
{
    let mut i: usize = 0;
    while i < config.devices.len()
        invariant
            i <= config.devices@.len(),
            !crate::validation::device_named(config.devices@, i as int, device@),
        decreases config.devices@.len() - i,
    {
        if same_text(config.devices[i].name.as_str(), device) {
            assert(config.devices@[i as int].name@ == device@);
            return true;
        }
        i = i + 1;
    }
    false
}

/// What was asked for is not there; answered with status 404.
#[derive(Debug)]
pub struct NotFound {
    pub message: String,
}

/// The message about something that is not there.
pub open spec fn not_found_text(what: Seq<char>) -> Seq<char> {
    what + " not found"@
}

/// The answer about something that is not there.
pub fn not_found(what: &str) -> (r: NotFound)
    ensures
        r.message@ == not_found_text(what@),
{
    NotFound { message: join2(what, " not found") }
}

fn no_chassis(device: &str) -> (r: NotFound)
    ensures
        r.message@ == not_found_text("chassis `"@ + device@ + "`"@),
{
    let what = join3("chassis `", device, "`");
    not_found(what.as_str())
}

/// Some view has a value.
pub open spec fn any_value(vs: Seq<SensorView>) -> bool {
    exists|i: int| 0 <= i < vs.len() && (#[trigger] vs[i]).value is Some
}

/// A chassis resource: the paths of its parts follow from its name.
#[derive(Debug)]
pub struct ChassisResource {
    pub odata_id: String,
    pub id: String,
    pub name: String,
    pub status: StatusResource,
    pub thermal: String,
    pub power: String,
    pub sensors: String,
}

pub open spec fn chassis_path(device: Seq<char>, part: Seq<char>) -> Seq<char> {
    "/redfish/v1/Chassis/"@ + device + part
}

/// `r` is the resource of a chassis whose sensors are `vs`.
pub open spec fn shows_chassis(r: ChassisResource, device: Seq<char>, vs: Seq<SensorView>) -> bool {
    &&& r.odata_id@ == chassis_path(device, ""@)
    &&& r.id@ == device
    &&& r.name@ == device
    &&& r.status.state@ == (if any_value(vs) {
        "Enabled"@
    } else {
        "Disabled"@
    })
    &&& r.status.health@ == (if any_value(vs) {
        "OK"@
    } else {
        "NA"@
    })
    &&& r.thermal@ == chassis_path(device, "/Thermal"@)
    &&& r.power@ == chassis_path(device, "/Power"@)
    &&& r.sensors@ == chassis_path(device, "/Sensors"@)
}

/// The chassis of a device, whose views are given.
pub fn chassis(config: &Config, views: &Vec<SensorView>, device: &str) -> (r: Result<ChassisResource, NotFound>)
    ensures
        r is Ok <==> crate::validation::device_named(config.devices@, config.devices@.len() as int, device@),
        r matches Ok(c) ==> shows_chassis(c, device@, chassis_part(views@, device@, views@.len() as int)),
        r matches Err(e) ==> e.message@ == not_found_text("chassis `"@ + device@ + "`"@),
{
    if !device_exists(config, device) {
        return Err(no_chassis(device));
    }
    let vs = chassis_views(views, device);
    let mut fresh = false;
    let mut i: usize = 0;
    while i < vs.len()
        invariant
            i <= vs@.len(),
            fresh <==> exists|j: int| 0 <= j < i && (#[trigger] vs@[j]).value is Some,
        decreases vs@.len() - i,
    {
        if vs[i].value.is_some() {
            assert(vs@[i as int].value is Some);
            fresh = true;
        }
        i = i + 1;
    }
    Ok(
        ChassisResource {
            odata_id: join3("/redfish/v1/Chassis/", device, ""),
            id: device.to_owned(),
            name: device.to_owned(),
            status: StatusResource {
                state: if fresh {
                    "Enabled"
                } else {
                    "Disabled"
                },
                health: if fresh {
                    "OK"
                } else {
                    "NA"
                },
            },
            thermal: join3("/redfish/v1/Chassis/", device, "/Thermal"),
            power: join3("/redfish/v1/Chassis/", device, "/Power"),
            sensors: join3("/redfish/v1/Chassis/", device, "/Sensors"),
        },
    )
}

/// The root of the service.
#[derive(Debug)]
pub struct ServiceRoot {
    pub path: &'static str,
    pub resource_type: &'static str,
    pub id: &'static str,
    pub name: &'static str,
    pub version: &'static str,
    pub uuid: &'static str,
    /// The path of the chassis collection.
    pub chassis: &'static str,
}

/// The root of the service.
pub fn service_root() -> (r: ServiceRoot)
    ensures
        r.path@ == "/redfish/v1"@,
        r.resource_type@ == "#ServiceRoot.v1_16_0.ServiceRoot"@,
        r.id@ == "RootService"@,
        r.name@ == "Telemux Redfish Service"@,
        r.version@ == "1.16.0"@,
        r.uuid@ == "telemux-0000-0000-0000-000000000001"@,
        r.chassis@ == "/redfish/v1/Chassis"@,
{
    ServiceRoot {
        path: "/redfish/v1",
        resource_type: "#ServiceRoot.v1_16_0.ServiceRoot",
        id: "RootService",
        name: "Telemux Redfish Service",
        version: "1.16.0",
        uuid: "telemux-0000-0000-0000-000000000001",
        chassis: "/redfish/v1/Chassis",
    }
}

/// The paths of the chassis.
pub fn chassis_collection(config: &Config) -> (r: Vec<String>)
    ensures
        crate::expression::texts(r@) == config.devices@.map_values(
            |d: crate::config::DeviceConfig| chassis_path(d.name@, ""@),
        ),
{
    let mut r: Vec<String> = Vec::new();
    let mut i: usize = 0;
    while i < config.devices.len()
        invariant
            i <= config.devices@.len(),
            r@.len() == i,
            forall|j: int| 0 <= j < i ==> (#[trigger] r@[j])@ == chassis_path(config.devices@[j].name@, ""@),
        decreases config.devices@.len() - i,
    {
        r.push(join3("/redfish/v1/Chassis/", config.devices[i].name.as_str(), ""));
        i = i + 1;
    }
    assert(crate::expression::texts(r@) =~= config.devices@.map_values(
        |d: crate::config::DeviceConfig| chassis_path(d.name@, ""@),
    ));
    r
}

/// Those of the first `n` views that measure a quantity.
pub open spec fn kind_part(vs: Seq<SensorView>, kind: SensorKind, n: int) -> Seq<SensorView>
    decreases n,
{
    if n <= 0 {
        Seq::empty()
    } else if kind_of(plain_unit(vs[n - 1]@)) == kind {
        kind_part(vs, kind, n - 1).push(vs[n - 1])
    } else {
        kind_part(vs, kind, n - 1)
    }
}

/// The resources are those of the views, in order.
pub open spec fn show_sensors(rs: Seq<SensorResource>, vs: Seq<SensorView>) -> bool {
    &&& rs.len() == vs.len()
    &&& forall|i: int|
        0 <= i < rs.len() ==> shows_sensor(#[trigger] rs[i], vs[i]@, kind_of(plain_unit(vs[i]@)))
}

fn sensors_of_kind(vs: &Vec<SensorView>, kind: SensorKind) -> (r: Vec<SensorResource>)
    ensures
        show_sensors(r@, kind_part(vs@, kind, vs@.len() as int)),
{
    let mut r: Vec<SensorResource> = Vec::new();
    let mut i: usize = 0;
    while i < vs.len()
        invariant
            i <= vs@.len(),
            show_sensors(r@, kind_part(vs@, kind, i as int)),
        decreases vs@.len() - i,
    {
        let k = classify(&vs[i]);
        if k == kind {
            r.push(sensor_json_given(&vs[i], k));
        }
        i = i + 1;
    }
    r
}

/// Temperatures and fans of a chassis.
#[derive(Debug)]
pub struct ThermalResource {
    pub temperatures: Vec<SensorResource>,
    pub fans: Vec<SensorResource>,
}

/// The temperatures and fans of a chassis.
pub fn thermal(config: &Config, views: &Vec<SensorView>, device: &str) -> (r: Result<ThermalResource, NotFound>)
    ensures
        r is Ok <==> crate::validation::device_named(config.devices@, config.devices@.len() as int, device@),
        r matches Ok(t) ==> {
            let vs = chassis_part(views@, device@, views@.len() as int);
            &&& show_sensors(t.temperatures@, kind_part(vs, SensorKind::Temperature, vs.len() as int))
            &&& show_sensors(t.fans@, kind_part(vs, SensorKind::Fan, vs.len() as int))
        },
        r matches Err(e) ==> e.message@ == not_found_text("chassis `"@ + device@ + "`"@),
{
    if !device_exists(config, device) {
        return Err(no_chassis(device));
    }
    let vs = chassis_views(views, device);
    Ok(
        ThermalResource {
            temperatures: sensors_of_kind(&vs, SensorKind::Temperature),
            fans: sensors_of_kind(&vs, SensorKind::Fan),
        },
    )
}

/// The voltages of a chassis.
pub fn power(config: &Config, views: &Vec<SensorView>, device: &str) -> (r: Result<Vec<SensorResource>, NotFound>)
    ensures
        r is Ok <==> crate::validation::device_named(config.devices@, config.devices@.len() as int, device@),
        r matches Ok(p) ==> {
            let vs = chassis_part(views@, device@, views@.len() as int);
            show_sensors(p@, kind_part(vs, SensorKind::Voltage, vs.len() as int))
        },
        r matches Err(e) ==> e.message@ == not_found_text("chassis `"@ + device@ + "`"@),
{
    if !device_exists(config, device) {
        return Err(no_chassis(device));
    }
    let vs = chassis_views(views, device);
    Ok(sensors_of_kind(&vs, SensorKind::Voltage))
}

/// The paths of the sensors of a chassis.
pub fn sensor_collection(config: &Config, views: &Vec<SensorView>, device: &str) -> (r: Result<Vec<String>, NotFound>)
    ensures
        r is Ok <==> crate::validation::device_named(config.devices@, config.devices@.len() as int, device@),
        r matches Ok(p) ==> crate::expression::texts(p@) == chassis_part(
            views@,
            device@,
            views@.len() as int,
        ).map_values(|v: SensorView| sensor_path(device@, v.sensor_id@)),
        r matches Err(e) ==> e.message@ == not_found_text("chassis `"@ + device@ + "`"@),
{
    if !device_exists(config, device) {
        return Err(no_chassis(device));
    }
    let vs = chassis_views(views, device);
    let mut r: Vec<String> = Vec::new();
    let mut i: usize = 0;
    while i < vs.len()
        invariant
            i <= vs@.len(),
            r@.len() == i,
            forall|j: int| 0 <= j < i ==> (#[trigger] r@[j])@ == sensor_path(device@, vs@[j].sensor_id@),
        decreases vs@.len() - i,
    {
        r.push(sensor_path_text(device, vs[i].sensor_id.as_str()));
        i = i + 1;
    }
    assert(crate::expression::texts(r@) =~= vs@.map_values(|v: SensorView| sensor_path(device@, v.sensor_id@)));
    Ok(r)
}

/// The view of a sensor: the first one, from view `i` on.
pub open spec fn view_index(vs: Seq<SensorView>, id: Seq<char>, i: int) -> Option<int>
    decreases vs.len() - i,
{
    if i >= vs.len() {
        None
    } else if vs[i].sensor_id@ == id {
        Some(i)
    } else {
        view_index(vs, id, i + 1)
    }
}

fn find_view(vs: &Vec<SensorView>, id: &str) -> (r: Option<usize>)
    ensures
        r is Some <==> view_index(vs@, id@, 0) is Some,
        r matches Some(i) ==> i < vs@.len() && view_index(vs@, id@, 0) == Some(i as int),
{
    let mut i: usize = 0;
    while i < vs.len()
        invariant
            i <= vs@.len(),
            view_index(vs@, id@, 0) == view_index(vs@, id@, i as int),
        decreases vs@.len() - i,
    {
        if same_text(vs[i].sensor_id.as_str(), id) {
            return Some(i);
        }
        i = i + 1;
    }
    None
}

/// A sensor of a chassis.
pub fn sensor(views: &Vec<SensorView>, device: &str, sensor_id: &str) -> (r: Result<SensorResource, NotFound>)
    ensures
        ({
            let vs = chassis_part(views@, device@, views@.len() as int);
            match view_index(vs, sensor_id@, 0) {
                Some(k) => r matches Ok(s) && shows_sensor(s, vs[k]@, kind_of(plain_unit(vs[k]@))),
                None => r matches Err(e) && e.message@ == not_found_text(
                    "sensor `"@ + sensor_id@ + "` on chassis `"@ + device@ + "`"@,
                ),
            }
        }),
{
    let vs = chassis_views(views, device);
    match find_view(&vs, sensor_id) {
        Some(i) => Ok(sensor_json(&vs[i])),
        None => {
            let what = join5("sensor `", sensor_id, "` on chassis `", device, "`");
            Err(not_found(what.as_str()))
        },
    }
}

// ---- writes ----

/// A request that is not carried out: its HTTP status and message.
#[derive(Debug)]
pub struct Refusal {
    pub status: u16,
    pub message: String,
}

/// How the physical value is turned into the register's value.
#[derive(Debug, Clone, Copy, PartialEq, Eq, Structural)]
pub enum Reversal {
    /// They are the same.
    Identity,
    /// `(value - offset) / scale`.
    Linear { scale: Real, offset: Real },
}

/// A write that is carried out once the register's value is known.
#[derive(Debug, Clone, Copy, PartialEq, Eq, Structural)]
pub struct WritePlan {
    pub function: RegisterFunction,
    pub reading: Real,
    pub reversal: Reversal,
}

/// The first scale stage, from stage `k` on.
pub open spec fn first_scale(stages: Seq<StageConfig>, k: int) -> Option<(Real, Real)>
    decreases stages.len() - k,
{
    if k >= stages.len() {
        None
    } else if let StageConfig::Scale { scale, offset, .. } = stages[k] {
        Some((scale, offset))
    } else {
        first_scale(stages, k + 1)
    }
}

/// The pipeline of a sensor: the first one, from pipeline `i` on.
pub open spec fn pipeline_index(ps: Seq<PipelineConfig>, id: Seq<char>, i: int) -> Option<int>
    decreases ps.len() - i,
{
    if i >= ps.len() {
        None
    } else if ps[i].sensor_id@ == id {
        Some(i)
    } else {
        pipeline_index(ps, id, i + 1)
    }
}

/// How the conversion of a sensor is reversed: by its first scale stage, if
/// that has an inverse.
pub open spec fn reversal_of(c: Config, id: Seq<char>) -> Reversal {
    match pipeline_index(c.pipelines@, id, 0) {
        None => Reversal::Identity,
        Some(i) => match first_scale(c.pipelines@[i].stages@, 0) {
            Some((scale, offset)) => if scale.zero() {
                Reversal::Identity
            } else {
                Reversal::Linear { scale, offset }
            },
            None => Reversal::Identity,
        },
    }
}

fn find_scale(stages: &Vec<StageConfig>) -> (r: Option<(Real, Real)>)
    ensures
        r == first_scale(stages@, 0),
{
    let mut k: usize = 0;
    while k < stages.len()
        invariant
            k <= stages@.len(),
            first_scale(stages@, 0) == first_scale(stages@, k as int),
        decreases stages@.len() - k,
    {
        match &stages[k] {
            StageConfig::Scale { scale, offset, .. } => {
                return Some((*scale, *offset));
            },
            _ => {},
        }
        k = k + 1;
    }
    None
}

/// How the conversion of a sensor is reversed.
pub fn reverse_scale(config: &Config, sensor_id: &str) -> (r: Reversal)
    ensures
        r == reversal_of(*config, sensor_id@),
{
    let mut i: usize = 0;
    while i < config.pipelines.len()
        invariant
            i <= config.pipelines@.len(),
            pipeline_index(config.pipelines@, sensor_id@, 0) == pipeline_index(
                config.pipelines@,
                sensor_id@,
                i as int,
            ),
        decreases config.pipelines@.len() - i,
    {
        if same_text(config.pipelines[i].sensor_id.as_str(), sensor_id) {
            return match find_scale(&config.pipelines[i].stages) {
                Some((scale, offset)) => {
                    if scale.is_zero() {
                        Reversal::Identity
                    } else {
                        Reversal::Linear { scale, offset }
                    }
                },
                None => Reversal::Identity,
            };
        }
        i = i + 1;
    }
    Reversal::Identity
}

/// `e` refuses with this status and message.
pub open spec fn refuses(e: Refusal, status: u16, message: Seq<char>) -> bool {
    e.status == status && e.message@ == message
}

/// What becomes of a request to set a sensor to a reading.
pub open spec fn update_planned(
    c: Config,
    vs: Seq<SensorView>,
    id: Seq<char>,
    reading: Option<Real>,
    r: Result<WritePlan, Refusal>,
) -> bool {
    match reading {
        None => r matches Err(e) && refuses(e, 400, "`reading` is required"@),
        Some(x) => match view_index(vs, id, 0) {
            None => r matches Err(e) && refuses(e, 404, not_found_text("sensor `"@ + id + "`"@)),
            Some(k) => if vs[k].is_computed || vs[k].access != Access::ReadWrite {
                r matches Err(e) && refuses(e, 405, "sensor is not writable"@)
            } else if !vs[k].function.writable() {
                r matches Err(e) && refuses(e, 405, "register area is not writable"@)
            } else {
                r == Ok::<WritePlan, Refusal>(
                    WritePlan { function: vs[k].function, reading: x, reversal: reversal_of(c, id) },
                )
            },
        },
    }
}

/// Plans the write that sets a sensor to a reading, or says why it is refused.
pub fn update_sensor(config: &Config, views: &Vec<SensorView>, sensor_id: &str, reading: Option<Real>) -> (r: Result<
    WritePlan,
    Refusal,
>)
    ensures
        update_planned(*config, views@, sensor_id@, reading, r),
{
    let value = match reading {
        Some(x) => x,
        None => {
            return Err(Refusal { status: 400, message: "`reading` is required".to_owned() });
        },
    };
    let k: usize = match find_view(views, sensor_id) {
        Some(k) => k,
        None => {
            let what = join3("sensor `", sensor_id, "`");
            return Err(Refusal { status: 404, message: not_found(what.as_str()).message });
        },
    };
    let view = &views[k];
    if view.is_computed || view.access != Access::ReadWrite {
        return Err(Refusal { status: 405, message: "sensor is not writable".to_owned() });
    }
    if !view.function.is_writable() {
        return Err(Refusal { status: 405, message: "register area is not writable".to_owned() });
    }
    Ok(WritePlan { function: view.function, reading: value, reversal: reverse_scale(config, sensor_id) })
}

/// The value that goes to the register: a word without fraction, or a bit.
pub fn planned_value(plan: &WritePlan, raw: Real) -> (r: WriteValue)
    requires
        plan.function.writable(),
    ensures
        r == (if plan.function == RegisterFunction::Holding {
            WriteValue::Holding(raw.word())
        } else {
            WriteValue::Coil(!raw.zero())
        }),
{
    match plan.function {
        RegisterFunction::Holding => WriteValue::Holding(raw.to_word()),
        _ => WriteValue::Coil(!raw.is_zero()),
    }
}

/// The refusal of a write that did not reach its device.
pub fn write_failed(error: &crate::protocol::WriteError) -> (r: Refusal)
    ensures
        refuses(r, 503, "write failed: "@ + error.text()),
{
    let m = error.message();
    Refusal { status: 503, message: join2("write failed: ", m.as_str()) }
}

} // verus!
