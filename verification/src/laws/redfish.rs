//! What Redfish shows of sensors, and what becomes of writes to them.

use vstd::prelude::*;

use crate::config::{Access, Config, RegisterFunction, StageConfig, ValueType, WordOrder};
use crate::domain::MetricStatus;
use crate::number::Real;
use crate::protocol::redfish::{
    chassis, chassis_collection, classify_unit, format_ts, planned_value, power, reading_type, reverse_scale, sensor,
    sensor_collection, sensor_json, sensor_json_given, status_json, thermal, update_sensor, write_failed,
    ChassisResource, NotFound, Refusal, Reversal, SensorKind, SensorResource, StatusResource, ThermalResource,
    WritePlan,
};
use crate::protocol::views::SensorView;
use crate::protocol::{WriteError, WriteValue};

verus! {

proof fn lemma_healths_differ()
    ensures
        "OK"@ != "Warning"@,
        "OK"@ != "Critical"@,
        "OK"@ != "Unknown"@,
        "Warning"@ != "Critical"@,
        "Warning"@ != "Unknown"@,
        "Critical"@ != "Unknown"@,
        "OK"@ != "NA"@,
        "Warning"@ != "NA"@,
        "Critical"@ != "NA"@,
        "Unknown"@ != "NA"@,
{
    reveal_strlit("OK");
    reveal_strlit("Warning");
    reveal_strlit("Critical");
    reveal_strlit("Unknown");
    reveal_strlit("NA");
    assert("OK"@[0] != "NA"@[0]);
    assert("Warning"@[0] != "Unknown"@[0]);
}

/// The health of a sensor that has a value tells its status: OK exactly where it
/// is normal, Warning exactly where it is a warning, Critical exactly where it is
/// critical. A sensor without a value is disabled, whatever its status.
pub proof fn health_tells_the_status(view: &SensorView, r: StatusResource)
    requires
        call_ensures(status_json, (view,), r),
    ensures
        view.value is None ==> r.state@ == "Disabled"@ && r.health@ == "NA"@,
        view.value is Some ==> r.state@ == "Enabled"@,
        r.health@ == "OK"@ <==> view.value is Some && view.status == MetricStatus::Normal,
        r.health@ == "Warning"@ <==> view.value is Some && view.status == MetricStatus::Warning,
        r.health@ == "Critical"@ <==> view.value is Some && view.status == MetricStatus::Critical,
        r.health@ == "Unknown"@ <==> view.value is Some && view.status == MetricStatus::Unknown,
{
    lemma_healths_differ();
}

/// Two sensors with values show the same health only where their statuses are the
/// same.
pub proof fn different_statuses_show(a: &SensorView, b: &SensorView, ra: StatusResource, rb: StatusResource)
    requires
        call_ensures(status_json, (a,), ra),
        call_ensures(status_json, (b,), rb),
        a.value is Some,
        b.value is Some,
        ra.health@ == rb.health@,
    ensures
        a.status == b.status,
{
    lemma_healths_differ();
}

// ---- what is shown of a sensor ----

/// A sensor is shown with its own id, name, reading, time and formula. Its unit
/// stands beside a reading only, and a target for writes is given exactly where it
/// can be written.
pub proof fn a_sensor_is_shown_as_it_is(view: &SensorView, r: SensorResource)
    requires
        call_ensures(sensor_json, (view,), r),
    ensures
        r.id@ == view.sensor_id@,
        r.name@ == view.name@,
        r.odata_id@ == "/redfish/v1/Chassis/"@ + view.device@ + "/Sensors/"@ + view.sensor_id@,
        r.reading == view.value,
        r.timestamp_ms == view.timestamp_ms,
        r.computed == view.is_computed,
        crate::expression::text_of(r.formula) == crate::expression::text_of(view.formula),
        view.value is Some ==> crate::expression::text_of(r.reading_units) == crate::expression::text_of(view.unit),
        view.value is None ==> r.reading_units is None,
        r.set_reading_target is Some <==> view.access == Access::ReadWrite,
        r.set_reading_target matches Some(t) ==> t@ == r.odata_id@,
        r.register is None <==> view.is_computed,
        r.register matches Some(g) ==> g.address == view.address,
{
    let kind = crate::protocol::redfish::kind_of(crate::protocol::redfish::plain_unit(view@));
    assert(crate::protocol::redfish::shows_sensor(r, view@, kind));
}

/// The status shown of a sensor is that of the sensor.
pub proof fn a_sensor_is_shown_with_its_health(view: &SensorView, r: SensorResource)
    requires
        call_ensures(sensor_json, (view,), r),
    ensures
        r.status.state@ == (if view.value is Some {
            "Enabled"@
        } else {
            "Disabled"@
        }),
        r.status.health@ == "OK"@ <==> view.value is Some && view.status == MetricStatus::Normal,
        r.status.health@ == "Warning"@ <==> view.value is Some && view.status == MetricStatus::Warning,
        r.status.health@ == "Critical"@ <==> view.value is Some && view.status == MetricStatus::Critical,
{
    lemma_healths_differ();
    let kind = crate::protocol::redfish::kind_of(crate::protocol::redfish::plain_unit(view@));
    assert(crate::protocol::redfish::shows_sensor(r, view@, kind));
}

/// The register behind a sensor is shown under the names that the configuration
/// has for its parts.
pub proof fn a_register_is_shown_by_its_names(view: &SensorView, kind: SensorKind, r: SensorResource)
    requires
        call_ensures(sensor_json_given, (view, kind), r),
        !view.is_computed,
    ensures
        r.register matches Some(g) && {
            &&& view.access == Access::Read ==> g.access@ == "read"@
            &&& view.access == Access::ReadWrite ==> g.access@ == "read_write"@
            &&& view.function == RegisterFunction::Holding ==> g.function@ == "holding"@
            &&& view.function == RegisterFunction::Input ==> g.function@ == "input"@
            &&& view.function == RegisterFunction::Coil ==> g.function@ == "coil"@
            &&& view.function == RegisterFunction::DiscreteInput ==> g.function@ == "discrete_input"@
            &&& view.value_type == ValueType::U16 ==> g.value_type@ == "u16"@
            &&& view.value_type == ValueType::I16 ==> g.value_type@ == "i16"@
            &&& view.value_type == ValueType::U32 ==> g.value_type@ == "u32"@
            &&& view.value_type == ValueType::I32 ==> g.value_type@ == "i32"@
            &&& view.value_type == ValueType::F32 ==> g.value_type@ == "f32"@
            &&& view.value_type == ValueType::Bool ==> g.value_type@ == "bool"@
            &&& view.word_order == WordOrder::Big ==> g.word_order@ == "big"@
            &&& view.word_order == WordOrder::Little ==> g.word_order@ == "little"@
        },
        kind == SensorKind::Temperature ==> r.reading_type@ == "Temperature"@,
        kind == SensorKind::Fan ==> r.reading_type@ == "Rotational"@,
        kind == SensorKind::Voltage ==> r.reading_type@ == "Voltage"@,
        kind == SensorKind::Current ==> r.reading_type@ == "Current"@,
        kind == SensorKind::Other ==> r.reading_type@ == "Other"@,
{
    assert(crate::protocol::redfish::shows_sensor(r, view@, kind));
}

/// The text has this part somewhere in it.
pub open spec fn has_part(text: Seq<char>, part: Seq<char>) -> bool {
    exists|i: int| 0 <= i && i + part.len() <= text.len() && #[trigger] text.subrange(i, i + part.len()) == part
}

/// A unit is of a temperature where it is "c" or has one of the texts for degrees
/// Celsius in it; else of a fan where it has "rpm" in it; else of a voltage where
/// it has a "v" in it; else of a current where it is one of three.
pub proof fn a_unit_tells_the_quantity(unit: &str, r: SensorKind)
    requires
        call_ensures(classify_unit, (unit,), r),
        unit@.len() > 0,
    ensures
        unit@ == "c"@ || has_part(unit@, "°c"@) || has_part(unit@, "celsius"@) || has_part(unit@, "deg c"@) ==> r
            == SensorKind::Temperature,
        r == SensorKind::Temperature ==> unit@ == "c"@ || has_part(unit@, "°c"@) || has_part(unit@, "celsius"@)
            || has_part(unit@, "deg c"@),
        r != SensorKind::Temperature && has_part(unit@, "rpm"@) ==> r == SensorKind::Fan,
        r == SensorKind::Fan ==> has_part(unit@, "rpm"@),
        r != SensorKind::Temperature && r != SensorKind::Fan && has_part(unit@, "v"@) ==> r == SensorKind::Voltage,
        r == SensorKind::Voltage ==> has_part(unit@, "v"@),
        (unit@ == "a"@ || unit@ == "ma"@ || unit@ == "ka"@) && (r == SensorKind::Other || r == SensorKind::Current) ==> r
            == SensorKind::Current,
        r == SensorKind::Current ==> unit@ == "a"@ || unit@ == "ma"@ || unit@ == "ka"@,
{
    lemma_part(unit@, "°c"@);
    lemma_part(unit@, "celsius"@);
    lemma_part(unit@, "deg c"@);
    lemma_part(unit@, "rpm"@);
    lemma_part(unit@, "v"@);
}

proof fn lemma_part(text: Seq<char>, part: Seq<char>)
    ensures
        crate::text::occurs(text, part) <==> has_part(text, part),
{
    if crate::text::occurs(text, part) {
        let i = choose|i: int| crate::text::occurs_at(text, part, i);
        assert(text.subrange(i, i + part.len()) == part);
    }
    if has_part(text, part) {
        let i = choose|i: int|
            0 <= i && i + part.len() <= text.len() && #[trigger] text.subrange(i, i + part.len()) == part;
        assert(crate::text::occurs_at(text, part, i));
    }
}

/// Without a unit a sensor is of no known quantity.
pub proof fn no_unit_tells_nothing(unit: &str, r: SensorKind)
    requires
        call_ensures(classify_unit, (unit,), r),
        unit@.len() == 0,
    ensures
        r == SensorKind::Other,
{
}

/// The seconds and the nanoseconds make up the time.
pub proof fn a_time_is_split_without_loss(ms: u64, r: (u64, u32))
    requires
        call_ensures(format_ts, (ms,), r),
    ensures
        r.0 * 1000 + r.1 / 1_000_000 == ms,
        r.1 % 1_000_000 == 0,
        r.1 < 1_000_000_000,
{
}

// ---- chassis ----

/// The views of a chassis: those of its own registers, and the computed sensors.
pub open spec fn stands_on(v: SensorView, device: Seq<char>) -> bool {
    v.device@ == device || v.is_computed
}

proof fn lemma_chassis_part(vs: Seq<SensorView>, device: Seq<char>, n: int)
    requires
        0 <= n <= vs.len(),
    ensures
        forall|i: int|
            0 <= i < n && stands_on(#[trigger] vs[i], device) ==> crate::protocol::redfish::chassis_part(
                vs,
                device,
                n,
            ).contains(vs[i]),
        forall|k: int|
            #![trigger crate::protocol::redfish::chassis_part(vs, device, n)[k]]
            0 <= k < crate::protocol::redfish::chassis_part(vs, device, n).len() ==> stands_on(
                crate::protocol::redfish::chassis_part(vs, device, n)[k],
                device,
            ) && vs.contains(crate::protocol::redfish::chassis_part(vs, device, n)[k]),
    decreases n,
{
    if n > 0 {
        lemma_chassis_part(vs, device, n - 1);
        let before = crate::protocol::redfish::chassis_part(vs, device, n - 1);
        let now = crate::protocol::redfish::chassis_part(vs, device, n);
        if stands_on(vs[n - 1], device) {
            assert(now == before.push(vs[n - 1]));
            assert forall|i: int| 0 <= i < n && stands_on(#[trigger] vs[i], device) implies now.contains(vs[i]) by {
                if i < n - 1 {
                    let k = choose|k: int| 0 <= k < before.len() && before[k] == vs[i];
                    assert(now[k] == vs[i]);
                } else {
                    assert(now[before.len() as int] == vs[i]);
                }
            }
            assert forall|k: int| 0 <= k < now.len() implies stands_on(#[trigger] now[k], device) && vs.contains(
                now[k],
            ) by {
                if k < before.len() {
                    assert(now[k] == before[k]);
                }
            }
        } else {
            assert(now == before);
        }
    }
}

proof fn lemma_kind_part(vs: Seq<SensorView>, kind: SensorKind, n: int)
    requires
        0 <= n <= vs.len(),
    ensures
        forall|i: int|
            0 <= i < n && crate::protocol::redfish::kind_of(crate::protocol::redfish::plain_unit((#[trigger] vs[i])@))
                == kind ==> crate::protocol::redfish::kind_part(vs, kind, n).contains(vs[i]),
        forall|k: int|
            #![trigger crate::protocol::redfish::kind_part(vs, kind, n)[k]]
            0 <= k < crate::protocol::redfish::kind_part(vs, kind, n).len() ==> crate::protocol::redfish::kind_of(
                crate::protocol::redfish::plain_unit(crate::protocol::redfish::kind_part(vs, kind, n)[k]@),
            ) == kind && vs.contains(crate::protocol::redfish::kind_part(vs, kind, n)[k]),
    decreases n,
{
    if n > 0 {
        lemma_kind_part(vs, kind, n - 1);
        let before = crate::protocol::redfish::kind_part(vs, kind, n - 1);
        let now = crate::protocol::redfish::kind_part(vs, kind, n);
        if crate::protocol::redfish::kind_of(crate::protocol::redfish::plain_unit(vs[n - 1]@)) == kind {
            assert(now == before.push(vs[n - 1]));
            assert forall|i: int|
                0 <= i < n && crate::protocol::redfish::kind_of(
                    crate::protocol::redfish::plain_unit((#[trigger] vs[i])@),
                ) == kind implies now.contains(vs[i]) by {
                if i < n - 1 {
                    let k = choose|k: int| 0 <= k < before.len() && before[k] == vs[i];
                    assert(now[k] == vs[i]);
                } else {
                    assert(now[before.len() as int] == vs[i]);
                }
            }
            assert forall|k: int| 0 <= k < now.len() implies crate::protocol::redfish::kind_of(
                crate::protocol::redfish::plain_unit((#[trigger] now[k])@),
            ) == kind && vs.contains(now[k]) by {
                if k < before.len() {
                    assert(now[k] == before[k]);
                }
            }
        } else {
            assert(now == before);
        }
    }
}

/// A resource is among these with the id and the reading of this view.
pub open spec fn lists(rs: Seq<SensorResource>, v: SensorView) -> bool {
    exists|k: int| 0 <= k < rs.len() && (#[trigger] rs[k]).id@ == v.sensor_id@ && rs[k].reading == v.value
}

/// Every resource is of a view of the chassis.
pub open spec fn only_of(rs: Seq<SensorResource>, vs: Seq<SensorView>, device: Seq<char>, shown_as: Seq<char>) -> bool {
    forall|k: int|
        0 <= k < rs.len() ==> (#[trigger] rs[k]).reading_type@ == shown_as && exists|i: int|
            0 <= i < vs.len() && stands_on(#[trigger] vs[i], device) && rs[k].id@ == vs[i].sensor_id@ && rs[k].reading
                == vs[i].value
}

proof fn lemma_group(
    rs: Seq<SensorResource>,
    views: Seq<SensorView>,
    device: Seq<char>,
    kind: SensorKind,
)
    requires
        ({
            let vs = crate::protocol::redfish::chassis_part(views, device, views.len() as int);
            crate::protocol::redfish::show_sensors(
                rs,
                crate::protocol::redfish::kind_part(vs, kind, vs.len() as int),
            )
        }),
    ensures
        only_of(rs, views, device, crate::protocol::redfish::reading_type_name(kind)),
        forall|i: int|
            0 <= i < views.len() && stands_on(#[trigger] views[i], device) && crate::protocol::redfish::kind_of(
                crate::protocol::redfish::plain_unit(views[i]@),
            ) == kind ==> lists(rs, views[i]),
{
    let vs = crate::protocol::redfish::chassis_part(views, device, views.len() as int);
    let ks = crate::protocol::redfish::kind_part(vs, kind, vs.len() as int);
    lemma_chassis_part(views, device, views.len() as int);
    lemma_kind_part(vs, kind, vs.len() as int);
    assert forall|k: int| 0 <= k < rs.len() implies (#[trigger] rs[k]).reading_type@
        == crate::protocol::redfish::reading_type_name(kind) && exists|i: int|
        0 <= i < views.len() && stands_on(#[trigger] views[i], device) && rs[k].id@ == views[i].sensor_id@
            && rs[k].reading == views[i].value by {
        assert(crate::protocol::redfish::shows_sensor(
            rs[k],
            ks[k]@,
            crate::protocol::redfish::kind_of(crate::protocol::redfish::plain_unit(ks[k]@)),
        ));
        let j = choose|j: int| 0 <= j < vs.len() && vs[j] == ks[k];
        let i = choose|i: int| 0 <= i < views.len() && views[i] == vs[j];
        assert(stands_on(views[i], device));
    }
    assert forall|i: int|
        0 <= i < views.len() && stands_on(#[trigger] views[i], device) && crate::protocol::redfish::kind_of(
            crate::protocol::redfish::plain_unit(views[i]@),
        ) == kind implies lists(rs, views[i]) by {
        let j = choose|j: int| 0 <= j < vs.len() && vs[j] == views[i];
        let k = choose|k: int| 0 <= k < ks.len() && ks[k] == vs[j];
        assert(crate::protocol::redfish::shows_sensor(
            rs[k],
            ks[k]@,
            crate::protocol::redfish::kind_of(crate::protocol::redfish::plain_unit(ks[k]@)),
        ));
        assert(rs[k].id@ == views[i].sensor_id@);
    }
}

/// The thermal group of a chassis lists all of its temperatures and all of its
/// fans, and nothing else.
pub proof fn the_thermal_group_is_complete(
    config: &Config,
    views: &Vec<SensorView>,
    device: &str,
    r: Result<ThermalResource, NotFound>,
)
    requires
        call_ensures(thermal, (config, views, device), r),
        r is Ok,
    ensures
        only_of(r->Ok_0.temperatures@, views@, device@, "Temperature"@),
        only_of(r->Ok_0.fans@, views@, device@, "Rotational"@),
        forall|i: int|
            0 <= i < views@.len() && stands_on(#[trigger] views@[i], device@) && crate::protocol::redfish::kind_of(
                crate::protocol::redfish::plain_unit(views@[i]@),
            ) == SensorKind::Temperature ==> lists(r->Ok_0.temperatures@, views@[i]),
        forall|i: int|
            0 <= i < views@.len() && stands_on(#[trigger] views@[i], device@) && crate::protocol::redfish::kind_of(
                crate::protocol::redfish::plain_unit(views@[i]@),
            ) == SensorKind::Fan ==> lists(r->Ok_0.fans@, views@[i]),
{
    lemma_group(r->Ok_0.temperatures@, views@, device@, SensorKind::Temperature);
    lemma_group(r->Ok_0.fans@, views@, device@, SensorKind::Fan);
}

/// The power group of a chassis lists all of its voltages, and nothing else.
pub proof fn the_power_group_is_complete(
    config: &Config,
    views: &Vec<SensorView>,
    device: &str,
    r: Result<Vec<SensorResource>, NotFound>,
)
    requires
        call_ensures(power, (config, views, device), r),
        r is Ok,
    ensures
        only_of(r->Ok_0@, views@, device@, "Voltage"@),
        forall|i: int|
            0 <= i < views@.len() && stands_on(#[trigger] views@[i], device@) && crate::protocol::redfish::kind_of(
                crate::protocol::redfish::plain_unit(views@[i]@),
            ) == SensorKind::Voltage ==> lists(r->Ok_0@, views@[i]),
{
    lemma_group(r->Ok_0@, views@, device@, SensorKind::Voltage);
}

/// A chassis is found exactly where a device has its name.
pub proof fn every_device_is_a_chassis(
    config: &Config,
    views: &Vec<SensorView>,
    device: &str,
    c: Result<ChassisResource, NotFound>,
    t: Result<ThermalResource, NotFound>,
    p: Result<Vec<SensorResource>, NotFound>,
    s: Result<Vec<String>, NotFound>,
)
    requires
        call_ensures(chassis, (config, views, device), c),
        call_ensures(thermal, (config, views, device), t),
        call_ensures(power, (config, views, device), p),
        call_ensures(sensor_collection, (config, views, device), s),
    ensures
        c is Ok <==> exists|i: int| 0 <= i < config.devices@.len() && (#[trigger] config.devices@[i]).name@ == device@,
        t is Ok <==> c is Ok,
        p is Ok <==> c is Ok,
        s is Ok <==> c is Ok,
        c matches Err(e) ==> e.message@ == "chassis `"@ + device@ + "`"@ + " not found"@,
        t matches Err(e) ==> e.message@ == "chassis `"@ + device@ + "`"@ + " not found"@,
        p matches Err(e) ==> e.message@ == "chassis `"@ + device@ + "`"@ + " not found"@,
        s matches Err(e) ==> e.message@ == "chassis `"@ + device@ + "`"@ + " not found"@,
{
}

/// A chassis is enabled and in order exactly where one of its sensors has a value,
/// and its parts lie below its own path.
pub proof fn a_chassis_with_a_value_is_enabled(
    config: &Config,
    views: &Vec<SensorView>,
    device: &str,
    r: Result<ChassisResource, NotFound>,
)
    requires
        call_ensures(chassis, (config, views, device), r),
        r is Ok,
    ensures
        ({
            let c = r->Ok_0;
            let alive = exists|i: int|
                0 <= i < views@.len() && stands_on(#[trigger] views@[i], device@) && views@[i].value is Some;
            &&& alive ==> c.status.state@ == "Enabled"@ && c.status.health@ == "OK"@
            &&& !alive ==> c.status.state@ == "Disabled"@ && c.status.health@ == "NA"@
            &&& c.id@ == device@
            &&& c.name@ == device@
            &&& c.odata_id@ == "/redfish/v1/Chassis/"@ + device@
            &&& c.thermal@ == "/redfish/v1/Chassis/"@ + device@ + "/Thermal"@
            &&& c.power@ == "/redfish/v1/Chassis/"@ + device@ + "/Power"@
            &&& c.sensors@ == "/redfish/v1/Chassis/"@ + device@ + "/Sensors"@
        }),
{
    let vs = crate::protocol::redfish::chassis_part(views@, device@, views@.len() as int);
    lemma_chassis_part(views@, device@, views@.len() as int);
    reveal_strlit("");
    assert("/redfish/v1/Chassis/"@ + device@ + ""@ =~= "/redfish/v1/Chassis/"@ + device@);
    if exists|i: int| 0 <= i < views@.len() && stands_on(#[trigger] views@[i], device@) && views@[i].value is Some {
        let i = choose|i: int|
            0 <= i < views@.len() && stands_on(#[trigger] views@[i], device@) && views@[i].value is Some;
        let j = choose|j: int| 0 <= j < vs.len() && vs[j] == views@[i];
        assert(vs[j].value is Some);
        assert(crate::protocol::redfish::any_value(vs));
    }
    if crate::protocol::redfish::any_value(vs) {
        let j = choose|j: int| 0 <= j < vs.len() && (#[trigger] vs[j]).value is Some;
        let i = choose|i: int| 0 <= i < views@.len() && views@[i] == vs[j];
        assert(stands_on(views@[i], device@) && views@[i].value is Some);
    }
}

/// The chassis collection names every device, in the order of the configuration.
pub proof fn the_collection_names_every_device(config: &Config, r: Vec<String>)
    requires
        call_ensures(chassis_collection, (config,), r),
    ensures
        r@.len() == config.devices@.len(),
        forall|i: int|
            0 <= i < r@.len() ==> (#[trigger] r@[i])@ == "/redfish/v1/Chassis/"@ + config.devices@[i].name@,
{
    let ps = config.devices@.map_values(
        |d: crate::config::DeviceConfig| crate::protocol::redfish::chassis_path(d.name@, ""@),
    );
    assert(crate::expression::texts(r@).len() == r@.len());
    assert forall|i: int| 0 <= i < r@.len() implies (#[trigger] r@[i])@ == "/redfish/v1/Chassis/"@
        + config.devices@[i].name@ by {
        assert(crate::expression::texts(r@)[i] == ps[i]);
        reveal_strlit("");
        assert("/redfish/v1/Chassis/"@ + config.devices@[i].name@ + ""@ =~= "/redfish/v1/Chassis/"@
            + config.devices@[i].name@);
    }
}

proof fn lemma_view_index(vs: Seq<SensorView>, id: Seq<char>, i: int)
    requires
        0 <= i,
    ensures
        match crate::protocol::redfish::view_index(vs, id, i) {
            Some(k) => i <= k < vs.len() && vs[k].sensor_id@ == id && forall|j: int|
                i <= j < k ==> (#[trigger] vs[j]).sensor_id@ != id,
            None => forall|j: int| i <= j < vs.len() ==> (#[trigger] vs[j]).sensor_id@ != id,
        },
    decreases vs.len() - i,
{
    if i < vs.len() && vs[i].sensor_id@ != id {
        lemma_view_index(vs, id, i + 1);
    }
}

/// A sensor is found on a chassis exactly where one of that id stands there, and
/// is shown with that one's reading.
pub proof fn a_sensor_is_found_by_its_id(
    views: &Vec<SensorView>,
    device: &str,
    sensor_id: &str,
    r: Result<SensorResource, NotFound>,
)
    requires
        call_ensures(sensor, (views, device, sensor_id), r),
    ensures
        r is Ok <==> exists|i: int|
            0 <= i < views@.len() && stands_on(#[trigger] views@[i], device@) && views@[i].sensor_id@ == sensor_id@,
        r matches Ok(s) ==> s.id@ == sensor_id@ && exists|i: int|
            0 <= i < views@.len() && stands_on(#[trigger] views@[i], device@) && views@[i].sensor_id@ == sensor_id@
                && s.reading == views@[i].value && s.timestamp_ms == views@[i].timestamp_ms,
        r matches Err(e) ==> e.message@ == "sensor `"@ + sensor_id@ + "` on chassis `"@ + device@ + "`"@
            + " not found"@,
{
    let vs = crate::protocol::redfish::chassis_part(views@, device@, views@.len() as int);
    lemma_chassis_part(views@, device@, views@.len() as int);
    lemma_view_index(vs, sensor_id@, 0);
    if exists|i: int|
        0 <= i < views@.len() && stands_on(#[trigger] views@[i], device@) && views@[i].sensor_id@ == sensor_id@ {
        let i = choose|i: int|
            0 <= i < views@.len() && stands_on(#[trigger] views@[i], device@) && views@[i].sensor_id@ == sensor_id@;
        let j = choose|j: int| 0 <= j < vs.len() && vs[j] == views@[i];
        assert(vs[j].sensor_id@ == sensor_id@);
    }
    if let Some(k) = crate::protocol::redfish::view_index(vs, sensor_id@, 0) {
        let i = choose|i: int| 0 <= i < views@.len() && views@[i] == vs[k];
        assert(stands_on(views@[i], device@));
    }
}

// ---- writes ----

/// A request to set a sensor is carried out exactly where there is a reading and
/// the sensor of that id is a register that can be written. Otherwise the answer
/// says what is wrong: 400 without a reading, 404 for an unknown sensor, 405 for
/// one that cannot be written.
pub proof fn a_request_to_write_is_judged(
    config: &Config,
    views: &Vec<SensorView>,
    sensor_id: &str,
    reading: Option<Real>,
    r: Result<WritePlan, Refusal>,
    k: int,
)
    requires
        call_ensures(update_sensor, (config, views, sensor_id, reading), r),
        0 <= k < views@.len(),
        views@[k].sensor_id@ == sensor_id@,
        forall|j: int| 0 <= j < k ==> (#[trigger] views@[j]).sensor_id@ != sensor_id@,
    ensures
        ({
            let v = views@[k];
            &&& reading is None ==> (r matches Err(e) && e.status == 400 && e.message@ == "`reading` is required"@)
            &&& reading is Some && (v.is_computed || v.access == Access::Read) ==> (r matches Err(e) && e.status == 405
                && e.message@ == "sensor is not writable"@)
            &&& reading is Some && !v.is_computed && v.access == Access::ReadWrite && (v.function
                == RegisterFunction::Input || v.function == RegisterFunction::DiscreteInput) ==> (r matches Err(e)
                && e.status == 405 && e.message@ == "register area is not writable"@)
            &&& reading is Some && !v.is_computed && v.access == Access::ReadWrite && (v.function
                == RegisterFunction::Holding || v.function == RegisterFunction::Coil) ==> (r matches Ok(p) && p.function
                == v.function && p.reading == reading->0)
        }),
{
    lemma_view_index(views@, sensor_id@, 0);
}

/// A request to set a sensor that is not there is answered with 404.
pub proof fn a_write_to_an_unknown_sensor_is_not_found(
    config: &Config,
    views: &Vec<SensorView>,
    sensor_id: &str,
    reading: Option<Real>,
    r: Result<WritePlan, Refusal>,
)
    requires
        call_ensures(update_sensor, (config, views, sensor_id, reading), r),
        reading is Some,
        forall|j: int| 0 <= j < views@.len() ==> (#[trigger] views@[j]).sensor_id@ != sensor_id@,
    ensures
        r matches Err(e) && e.status == 404 && e.message@ == "sensor `"@ + sensor_id@ + "`"@ + " not found"@,
{
    lemma_view_index(views@, sensor_id@, 0);
}

proof fn lemma_pipeline_index(c: Config, id: Seq<char>, i: int, k: int)
    requires
        0 <= i <= k < c.pipelines@.len(),
        c.pipelines@[k].sensor_id@ == id,
        forall|j: int| i <= j < k ==> (#[trigger] c.pipelines@[j]).sensor_id@ != id,
    ensures
        crate::protocol::redfish::pipeline_index(c.pipelines@, id, i) == Some(k),
    decreases k - i,
{
    if i < k {
        lemma_pipeline_index(c, id, i + 1, k);
    }
}

proof fn lemma_no_pipeline(c: Config, id: Seq<char>, i: int)
    requires
        0 <= i,
        forall|j: int| i <= j < c.pipelines@.len() ==> (#[trigger] c.pipelines@[j]).sensor_id@ != id,
    ensures
        crate::protocol::redfish::pipeline_index(c.pipelines@, id, i) is None,
    decreases c.pipelines@.len() - i,
{
    if i < c.pipelines@.len() {
        lemma_no_pipeline(c, id, i + 1);
    }
}

proof fn lemma_first_scale(stages: Seq<StageConfig>, k: int, m: int)
    requires
        0 <= k <= m < stages.len(),
        stages[m] is Scale,
        forall|j: int| k <= j < m ==> !(#[trigger] stages[j] is Scale),
    ensures
        crate::protocol::redfish::first_scale(stages, k) == Some((stages[m]->scale, stages[m]->offset)),
    decreases m - k,
{
    if k < m {
        assert(!(stages[k] is Scale));
        lemma_first_scale(stages, k + 1, m);
    }
}

proof fn lemma_no_scale(stages: Seq<StageConfig>, k: int)
    requires
        0 <= k,
        forall|j: int| k <= j < stages.len() ==> !(#[trigger] stages[j] is Scale),
    ensures
        crate::protocol::redfish::first_scale(stages, k) is None,
    decreases stages.len() - k,
{
    if k < stages.len() {
        assert(!(stages[k] is Scale));
        lemma_no_scale(stages, k + 1);
    }
}

/// A write undoes the conversion of the sensor: the factor and the offset are
/// those of the first scale stage of its pipeline.
pub proof fn a_conversion_is_reversed(config: &Config, sensor_id: &str, r: Reversal, i: int, m: int)
    requires
        call_ensures(reverse_scale, (config, sensor_id), r),
        0 <= i < config.pipelines@.len(),
        config.pipelines@[i].sensor_id@ == sensor_id@,
        forall|j: int| 0 <= j < i ==> (#[trigger] config.pipelines@[j]).sensor_id@ != sensor_id@,
        0 <= m < config.pipelines@[i].stages@.len(),
        config.pipelines@[i].stages@[m] is Scale,
        forall|j: int| 0 <= j < m ==> !(#[trigger] config.pipelines@[i].stages@[j] is Scale),
    ensures
        ({
            let stage = config.pipelines@[i].stages@[m];
            &&& stage->scale.bits != 0 && stage->scale.bits != 0x8000_0000_0000_0000 ==> r == (Reversal::Linear {
                scale: stage->scale,
                offset: stage->offset,
            })
            &&& stage->scale.bits == 0 || stage->scale.bits == 0x8000_0000_0000_0000 ==> r == Reversal::Identity
        }),
{
    lemma_pipeline_index(*config, sensor_id@, 0, i);
    lemma_first_scale(config.pipelines@[i].stages@, 0, m);
}

/// Without a pipeline, or without a scale stage in it, the reading itself goes to
/// the register.
pub proof fn an_unconverted_value_is_written_as_it_is(config: &Config, sensor_id: &str, r: Reversal)
    requires
        call_ensures(reverse_scale, (config, sensor_id), r),
        forall|i: int, k: int|
            #![trigger config.pipelines@[i].stages@[k]]
            0 <= i < config.pipelines@.len() && config.pipelines@[i].sensor_id@ == sensor_id@ && 0 <= k
                < config.pipelines@[i].stages@.len() ==> !(config.pipelines@[i].stages@[k] is Scale),
    ensures
        r == Reversal::Identity,
{
    if let Some(i) = crate::protocol::redfish::pipeline_index(config.pipelines@, sensor_id@, 0) {
        lemma_found_pipeline(*config, sensor_id@, 0);
        lemma_no_scale(config.pipelines@[i].stages@, 0);
    }
}

proof fn lemma_found_pipeline(c: Config, id: Seq<char>, i: int)
    requires
        0 <= i,
    ensures
        crate::protocol::redfish::pipeline_index(c.pipelines@, id, i) matches Some(k) ==> i <= k < c.pipelines@.len()
            && c.pipelines@[k].sensor_id@ == id,
    decreases c.pipelines@.len() - i,
{
    if i < c.pipelines@.len() && c.pipelines@[i].sensor_id@ != id {
        lemma_found_pipeline(c, id, i + 1);
    }
}

/// A request to set a sensor plans the reversal of that sensor's conversion.
pub proof fn a_planned_write_reverses_the_conversion(
    config: &Config,
    views: &Vec<SensorView>,
    sensor_id: &str,
    reading: Option<Real>,
    r: Result<WritePlan, Refusal>,
    reversal: Reversal,
)
    requires
        call_ensures(update_sensor, (config, views, sensor_id, reading), r),
        call_ensures(reverse_scale, (config, sensor_id), reversal),
        r is Ok,
    ensures
        r->Ok_0.reversal == reversal,
{
}

/// A whole number within the range of a word is written to a holding register as
/// it is; a coil is switched on exactly for a value other than zero.
pub proof fn a_whole_number_is_written(plan: &WritePlan, raw: Real, r: WriteValue, n: int)
    requires
        call_ensures(planned_value, (plan, raw), r),
        raw.is_integer(n),
    ensures
        plan.function == RegisterFunction::Holding && 0 <= n <= 0xffff ==> r == WriteValue::Holding(n as u16),
        plan.function == RegisterFunction::Holding && n < 0 ==> r == WriteValue::Holding(0),
        plan.function == RegisterFunction::Holding && n > 0xffff ==> r == WriteValue::Holding(0xffff),
        plan.function == RegisterFunction::Coil ==> r == WriteValue::Coil(n != 0),
{
    crate::number::integer_is_zero(raw, n);
    if n >= 0 {
        crate::laws::numbers::a_whole_number_has_no_fraction(raw, n);
    }
}

/// A write that did not reach its device is answered with 503 and the reason.
pub proof fn a_failed_write_is_told(error: &WriteError, r: Refusal)
    requires
        call_ensures(write_failed, (error,), r),
    ensures
        r.status == 503,
        r.message@ == "write failed: "@ + error.text(),
{
}

/// What is missing is told by what was asked for.
pub proof fn what_is_missing_is_told(what: &str, r: crate::protocol::redfish::NotFound)
    requires
        call_ensures(crate::protocol::redfish::not_found, (what,), r),
    ensures
        r.message@ == what@ + " not found"@,
{
}

/// A device is there exactly where one of the configuration has its name.
pub proof fn a_configured_device_exists(config: &Config, device: &str, r: bool)
    requires
        call_ensures(crate::protocol::redfish::device_exists, (config, device), r),
    ensures
        r <==> exists|i: int| 0 <= i < config.devices@.len() && (#[trigger] config.devices@[i]).name@ == device@,
{
    if exists|i: int| 0 <= i < config.devices@.len() && (#[trigger] config.devices@[i]).name@ == device@ {
        let i = choose|i: int| 0 <= i < config.devices@.len() && (#[trigger] config.devices@[i]).name@ == device@;
        assert(config.devices@[i].name@ == device@);
    }
}

/// The root of the service leads to the chassis.
pub proof fn the_root_leads_to_the_chassis(r: crate::protocol::redfish::ServiceRoot)
    requires
        call_ensures(crate::protocol::redfish::service_root, (), r),
    ensures
        r.path@ == "/redfish/v1"@,
        r.chassis@ == r.path@ + "/Chassis"@,
        r.id@ == "RootService"@,
        r.resource_type@ == "#ServiceRoot.v1_16_0.ServiceRoot"@,
        r.version@ == "1.16.0"@,
{
    reveal_strlit("/redfish/v1");
    reveal_strlit("/Chassis");
    reveal_strlit("/redfish/v1/Chassis");
    assert(r.chassis@ =~= r.path@ + "/Chassis"@);
}

/// A space of Unicode: a tab, an end of line or of page, a blank of any width.
pub open spec fn is_space(c: char) -> bool {
    let n = c as int;
    ||| n == 9 || n == 10 || n == 11 || n == 12 || n == 13
    ||| n == 32
    ||| n == 0x85
    ||| n == 0xa0
    ||| n == 0x1680
    ||| 0x2000 <= n <= 0x200a
    ||| n == 0x2028 || n == 0x2029
    ||| n == 0x202f
    ||| n == 0x205f
    ||| n == 0x3000
}

/// Only spaces stand before `a`, and from `b` on.
pub open spec fn spaces_around(text: Seq<char>, a: int, b: int) -> bool {
    &&& 0 <= a <= b <= text.len()
    &&& forall|i: int| 0 <= i < a ==> is_space(#[trigger] text[i])
    &&& forall|i: int| b <= i < text.len() ==> is_space(#[trigger] text[i])
}

proof fn lemma_space(c: char)
    ensures
        crate::protocol::redfish::white(c) <==> is_space(c),
{
}

proof fn lemma_trimmed(text: Seq<char>) -> (r: (int, int))
    ensures
        spaces_around(text, r.0, r.1),
        crate::protocol::redfish::trimmed(text) == text.subrange(r.0, r.1),
        r.0 < r.1 ==> !is_space(text[r.0]) && !is_space(text[r.1 - 1]),
    decreases text.len(),
{
    if text.len() == 0 {
        assert(crate::protocol::redfish::trimmed(text) =~= text.subrange(0, 0));
        (0, 0)
    } else {
        lemma_space(text[0]);
        lemma_space(text.last());
        if crate::protocol::redfish::white(text[0]) {
            let rest = text.skip(1);
            let r = lemma_trimmed(rest);
            assert(rest.subrange(r.0, r.1) =~= text.subrange(r.0 + 1, r.1 + 1));
            assert forall|i: int| 0 <= i < r.0 + 1 implies is_space(#[trigger] text[i]) by {
                if i > 0 {
                    assert(rest[i - 1] == text[i]);
                }
            }
            assert forall|i: int| r.1 + 1 <= i < text.len() implies is_space(#[trigger] text[i]) by {
                assert(rest[i - 1] == text[i]);
            }
            (r.0 + 1, r.1 + 1)
        } else if crate::protocol::redfish::white(text.last()) {
            let rest = text.drop_last();
            let r = lemma_trimmed(rest);
            assert(rest.subrange(r.0, r.1) =~= text.subrange(r.0, r.1));
            assert forall|i: int| 0 <= i < r.0 implies is_space(#[trigger] text[i]) by {
                assert(rest[i] == text[i]);
            }
            assert forall|i: int| r.1 <= i < text.len() implies is_space(#[trigger] text[i]) by {
                if i < rest.len() {
                    assert(rest[i] == text[i]);
                }
            }
            r
        } else {
            assert(crate::protocol::redfish::trimmed(text) =~= text.subrange(0, text.len() as int));
            (0, text.len() as int)
        }
    }
}

/// Trimming a unit takes the spaces around it away, all of them and nothing else.
pub proof fn spaces_around_a_unit_are_taken_away(text: &str, r: &str)
    requires
        call_ensures(crate::protocol::redfish::trim_text, (text,), r),
    ensures
        exists|a: int, b: int| #[trigger] spaces_around(text@, a, b) && r@ == text@.subrange(a, b),
        r@.len() > 0 ==> !is_space(r@[0]) && !is_space(r@.last()),
{
    let (a, b) = lemma_trimmed(text@);
    assert(spaces_around(text@, a, b));
}

/// The quantity of a sensor is that of its unit, without the spaces around it and
/// in lower case; a sensor without a unit counts as one with an empty unit.
pub proof fn a_quantity_is_that_of_the_plain_unit(
    view: &SensorView,
    unit: &str,
    bare: &str,
    plain: &str,
    of_plain: SensorKind,
    r: SensorKind,
)
    requires
        call_ensures(crate::protocol::redfish::classify, (view,), r),
        match view.unit {
            Some(u) => u@ == unit@,
            None => unit@ == ""@,
        },
        call_ensures(crate::protocol::redfish::trim_text, (unit,), bare),
        plain@ == crate::protocol::redfish::lowered(bare@),
        call_ensures(classify_unit, (plain,), of_plain),
    ensures
        r == of_plain,
{
}

} // verus!
