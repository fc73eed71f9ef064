//! What the web interface of the simulator answers and shows.

use vstd::prelude::*;

use crate::engine::ControlFault;
use crate::evaluation::Round;
use crate::number::Real;
use crate::protocol::modbus_server::{ModbusException, ModbusRequest, ModbusResponse};
use crate::sim::model::{SimConfig, SimEngine, SimSensor, Storage};
use crate::sim::registers::{HoldingSlot, Readings};
use crate::sim::server::SimSlaveState;
use crate::sim::web::{InputView, SensorView, SlotView, StateView};
use crate::sim::web_assets::{asset_name, index_or_static, mime_for, AssetAnswer};

verus! {

// ---- files ----

/// A path is the name of its file behind slashes alone, and the name begins with
/// none.
pub proof fn a_file_name_has_no_leading_slash(path: &str, r: &str)
    requires
        call_ensures(asset_name, (path,), r),
    ensures
        exists|n: int|
            {
                &&& 0 <= n <= path@.len()
                &&& r@ == #[trigger] path@.skip(n)
                &&& forall|i: int| 0 <= i < n ==> #[trigger] path@[i] == '/'
            },
        r@.len() > 0 ==> r@[0] != '/',
{
    lemma_after_slashes(path@, 0);
    let n = crate::sim::web_assets::after_slashes(path@, 0);
    assert(r@ =~= path@.skip(n));
}

proof fn lemma_after_slashes(path: Seq<char>, i: int)
    requires
        0 <= i <= path.len(),
    ensures
        i <= crate::sim::web_assets::after_slashes(path, i) <= path.len(),
        forall|k: int| i <= k < crate::sim::web_assets::after_slashes(path, i) ==> #[trigger] path[k] == '/',
        crate::sim::web_assets::after_slashes(path, i) < path.len() ==> path[crate::sim::web_assets::after_slashes(
            path,
            i,
        )] != '/',
    decreases path.len() - i,
{
    if i < path.len() && path[i] == '/' {
        lemma_after_slashes(path, i + 1);
    }
}

/// A file that is there is what is answered. Where it is not, a path that does not
/// begin with `/api` gets the start page, and one that does, or that comes while
/// there is no start page, is not found.
pub proof fn a_missing_file_is_answered(path: &str, file_exists: bool, index_exists: bool, r: AssetAnswer)
    requires
        call_ensures(index_or_static, (path, file_exists, index_exists), r),
    ensures
        ({
            let api = path@.len() >= 4 && path@[0] == '/' && path@[1] == 'a' && path@[2] == 'p' && path@[3] == 'i';
            &&& (file_exists <==> r == AssetAnswer::File)
            &&& (!file_exists && !api && index_exists <==> r == AssetAnswer::Index)
            &&& (!file_exists && (api || !index_exists) <==> r == AssetAnswer::NotFound)
        }),
{
    reveal_strlit("/api");
    if path@.len() >= 4 {
        if path@[0] == '/' && path@[1] == 'a' && path@[2] == 'p' && path@[3] == 'i' {
            assert(path@.take(4) =~= "/api"@);
        }
        if path@.take(4) == "/api"@ {
            assert(path@.take(4)[0] == path@[0] && path@.take(4)[1] == path@[1] && path@.take(4)[2] == path@[2]
                && path@.take(4)[3] == path@[3]);
        }
    }
}

/// A page, a script, a style sheet and data have their media types; what is not
/// known goes out as bytes.
pub proof fn files_have_their_media_types(ext: &str, r: &'static str)
    requires
        call_ensures(mime_for, (ext,), r),
    ensures
        ext@ == "html"@ ==> r@ == "text/html; charset=utf-8"@,
        ext@ == "js"@ || ext@ == "mjs"@ ==> r@ == "application/javascript; charset=utf-8"@,
        ext@ == "css"@ ==> r@ == "text/css; charset=utf-8"@,
        ext@ == "json"@ || ext@ == "map"@ ==> r@ == "application/json"@,
        ext@ == "svg"@ ==> r@ == "image/svg+xml"@,
        ext@ == "png"@ ==> r@ == "image/png"@,
        ext@ == "jpg"@ || ext@ == "jpeg"@ ==> r@ == "image/jpeg"@,
        ext@ == "webp"@ ==> r@ == "image/webp"@,
        ext@ == "ico"@ ==> r@ == "image/x-icon"@,
        ext@ == "woff"@ ==> r@ == "font/woff"@,
        ext@ == "woff2"@ ==> r@ == "font/woff2"@,
        ext@ == "ttf"@ ==> r@ == "font/ttf"@,
        ext@ == "txt"@ ==> r@ == "text/plain; charset=utf-8"@,
        ext@.len() == 0 || ext@.len() > 5 ==> r@ == "application/octet-stream"@,
{
    reveal_strlit("html");
    reveal_strlit("js");
    reveal_strlit("mjs");
    reveal_strlit("css");
    reveal_strlit("json");
    reveal_strlit("map");
    reveal_strlit("svg");
    reveal_strlit("png");
    reveal_strlit("jpg");
    reveal_strlit("jpeg");
    reveal_strlit("webp");
    reveal_strlit("ico");
    reveal_strlit("woff");
    reveal_strlit("woff2");
    reveal_strlit("ttf");
    reveal_strlit("txt");
    assert("js"@.len() == 2 && "mjs"@.len() == 3 && "css"@.len() == 3 && "map"@.len() == 3 && "svg"@.len() == 3
        && "png"@.len() == 3 && "jpg"@.len() == 3 && "ico"@.len() == 3 && "ttf"@.len() == 3 && "txt"@.len() == 3);
    assert("html"@.len() == 4 && "json"@.len() == 4 && "jpeg"@.len() == 4 && "webp"@.len() == 4 && "woff"@.len() == 4
        && "woff2"@.len() == 5);
    assert("html"@[0] == 'h' && "js"@[0] == 'j' && "mjs"@[1] == 'j' && "css"@[0] == 'c' && "json"@[0] == 'j'
        && "json"@[1] == 's' && "map"@[0] == 'm' && "map"@[1] == 'a' && "svg"@[0] == 's' && "png"@[0] == 'p'
        && "jpg"@[0] == 'j' && "jpeg"@[0] == 'j' && "jpeg"@[1] == 'p' && "webp"@[0] == 'w' && "webp"@[1] == 'e'
        && "ico"@[0] == 'i' && "woff"@[0] == 'w' && "woff"@[1] == 'o' && "ttf"@[0] == 't' && "ttf"@[1] == 't'
        && "txt"@[0] == 't' && "txt"@[1] == 'x' && "mjs"@[0] == 'm' && "jpg"@[1] == 'p');
}

// ---- controls ----

proof fn lemma_control_at(names: Seq<String>, id: Seq<char>, k: int, i: int)
    requires
        0 <= i <= k < names.len(),
        names[k]@ == id,
        forall|j: int| i <= j < k ==> (#[trigger] names[j])@ != id,
    ensures
        crate::evaluation::control_index(names, id, i) == Some(k),
    decreases k - i,
{
    if i < k {
        lemma_control_at(names, id, k, i + 1);
    }
}

/// Every control is shown with its name, unit and access as they are set, and with
/// the value that it has.
pub proof fn every_control_is_shown(view: StateView, s: SimSlaveState, readings: Readings, k: int)
    requires
        s.wf(),
        crate::sim::web::state_shown(view, s, readings),
        0 <= k < s.engine.sim.controls@.len(),
        forall|j: int|
            0 <= j < k ==> (#[trigger] s.engine.sim.controls@[j]).name@ != s.engine.sim.controls@[k].name@,
    ensures
        view.controls@.len() == s.engine.sim.controls@.len(),
        view.controls@[k].name@ == s.engine.sim.controls@[k].name@,
        view.controls@[k].unit == s.engine.sim.controls@[k].unit,
        view.controls@[k].writable == s.engine.sim.controls@[k].writable,
        view.controls@[k].value == s.engine.engine.values@[k],
{
    let names = s.engine.engine.model.controls@;
    let id = s.engine.sim.controls@[k].name@;
    assert forall|j: int| 0 <= j < k implies (#[trigger] names[j])@ != id by {
        assert(s.engine.sim.controls@[j].name@ != id);
    }
    lemma_control_at(names, id, k, 0);
    assert(view.controls@[k] == crate::sim::web::control_shown(s, s.engine.sim.controls@[k]));
}

/// A control that was set is shown with what it was set to; the others are shown
/// as before.
pub proof fn a_set_control_is_shown(
    before: SimSlaveState,
    name: Seq<char>,
    value: Real,
    after: SimSlaveState,
    view: StateView,
    readings: Readings,
    k: int,
    other: int,
)
    requires
        before.wf(),
        after.wf(),
        after.engine.sim == before.engine.sim,
        crate::engine::control_set(before.engine.engine, name, value, None, after.engine.engine),
        crate::sim::web::state_shown(view, after, readings),
        0 <= k < after.engine.sim.controls@.len(),
        after.engine.sim.controls@[k].name@ == name,
        0 <= other < after.engine.sim.controls@.len(),
        after.engine.sim.controls@[other].name@ != name,
    ensures
        view.controls@[k].value == value,
        view.controls@[other].value == (match before.engine.engine.control_value(
            after.engine.sim.controls@[other].name@,
        ) {
            Some(v) => v,
            None => after.engine.sim.controls@[other].initial,
        }),
{
    crate::engine::a_set_control_is_read_back(before.engine.engine, name, value, after.engine.engine);
    assert(view.controls@[k] == crate::sim::web::control_shown(after, after.engine.sim.controls@[k]));
    assert(view.controls@[other] == crate::sim::web::control_shown(after, after.engine.sim.controls@[other]));
}

/// The words for a control that cannot be set.
pub proof fn a_refused_control_is_told(name: Seq<char>)
    ensures
        crate::sim::model::fault_text(ControlFault::Unknown, name) == "unknown control `"@ + name + "`"@,
        crate::sim::model::fault_text(ControlFault::ReadOnly, name) == "control `"@ + name + "` is read-only"@,
{
}

// ---- sensors ----

/// The sensor is shown as it is set, with this value.
pub open spec fn shows_sensor(v: SensorView, s: SimSensor, value: Option<Real>) -> bool {
    &&& v.sensor_id@ == s.sensor_id@
    &&& v.name@ == s.name@
    &&& v.kind@ == s.kind@
    &&& v.unit == s.unit
    &&& v.formula@ == s.formula@
    &&& v.value == value
}

/// All sensors stand in this order: those of the primary side, first the inputs,
/// the outputs and the others, then those of the secondary side in the same order,
/// then those of no side.
pub proof fn sensors_stand_in_order(c: SimConfig, i: int)
    ensures
        ({
            let all = c.all_sensors();
            let first = match c.pri {
                Some(s) => s.input@.len() + s.output@.len() + s.auxiliary@.len(),
                None => 0,
            };
            let second = match c.sec {
                Some(s) => s.input@.len() + s.output@.len() + s.auxiliary@.len(),
                None => 0,
            };
            &&& all.len() == first + second + c.sensors@.len()
            &&& (c.pri matches Some(s) ==> {
                &&& (0 <= i < s.input@.len() ==> all[i] == s.input@[i])
                &&& (0 <= i < s.output@.len() ==> all[s.input@.len() + i] == s.output@[i])
                &&& (0 <= i < s.auxiliary@.len() ==> all[s.input@.len() + s.output@.len() + i] == s.auxiliary@[i])
            })
            &&& (c.sec matches Some(s) ==> {
                &&& (0 <= i < s.input@.len() ==> all[first + i] == s.input@[i])
                &&& (0 <= i < s.output@.len() ==> all[first + s.input@.len() + i] == s.output@[i])
                &&& (0 <= i < s.auxiliary@.len() ==> all[first + s.input@.len() + s.output@.len() + i]
                    == s.auxiliary@[i])
            })
            &&& (0 <= i < c.sensors@.len() ==> all[first + second + i] == c.sensors@[i])
        }),
{
}

/// Every sensor is shown as it is set, with the value that was read of it.
pub proof fn every_plant_sensor_is_shown(view: StateView, s: SimSlaveState, readings: Readings, i: int)
    requires
        crate::sim::web::state_shown(view, s, readings),
        0 <= i < s.engine.sim.all_sensors().len(),
    ensures
        view.sensors@.len() == s.engine.sim.all_sensors().len(),
        shows_sensor(view.sensors@[i], s.engine.sim.all_sensors()[i], readings.values@[i]),
{
    assert(view.sensors@[i] == crate::sim::web::sensor_shown(
        s.engine.sim.all_sensors()[i],
        readings.values@[0 + i],
    ));
}

/// What is shown of a sensor of a side is what is shown of it among all sensors.
pub proof fn the_sides_show_their_sensors(view: StateView, s: SimSlaveState, readings: Readings, i: int)
    requires
        crate::sim::web::state_shown(view, s, readings),
        0 <= i,
    ensures
        ({
            let c = s.engine.sim;
            let first = match c.pri {
                Some(p) => p.input@.len() + p.output@.len() + p.auxiliary@.len(),
                None => 0,
            };
            &&& (c.pri is Some <==> view.pri is Some)
            &&& (c.sec is Some <==> view.sec is Some)
            &&& (view.pri matches Some(v) ==> {
                &&& v.input@.len() == c.pri->0.input@.len()
                &&& v.output@.len() == c.pri->0.output@.len()
                &&& v.auxiliary@.len() == c.pri->0.auxiliary@.len()
                &&& (i < v.input@.len() ==> v.input@[i] == view.sensors@[i])
                &&& (i < v.output@.len() ==> v.output@[i] == view.sensors@[v.input@.len() + i])
                &&& (i < v.auxiliary@.len() ==> v.auxiliary@[i] == view.sensors@[v.input@.len() + v.output@.len() + i])
            })
            &&& (view.sec matches Some(v) ==> {
                &&& v.input@.len() == c.sec->0.input@.len()
                &&& v.output@.len() == c.sec->0.output@.len()
                &&& v.auxiliary@.len() == c.sec->0.auxiliary@.len()
                &&& (i < v.input@.len() ==> v.input@[i] == view.sensors@[first + i])
                &&& (i < v.output@.len() ==> v.output@[i] == view.sensors@[first + v.input@.len() + i])
                &&& (i < v.auxiliary@.len() ==> v.auxiliary@[i] == view.sensors@[first + v.input@.len()
                    + v.output@.len() + i])
            })
        }),
{
    let c = s.engine.sim;
    sensors_stand_in_order(c, i);
    let all = c.all_sensors();
    assert(view.sensors@.len() == all.len());
    assert forall|k: int| 0 <= k < all.len() implies #[trigger] view.sensors@[k] == crate::sim::web::sensor_shown(
        all[k],
        readings.values@[k],
    ) by {
        assert(view.sensors@[k] == crate::sim::web::sensor_shown(all[k], readings.values@[0 + k]));
    }
}

/// An evaluation of the plant gives the id and the value of every sensor that has
/// one.
pub proof fn every_value_is_given(e: SimEngine, round: Round, n: int, i: int)
    requires
        0 <= i < n <= e.sim.all_sensors().len(),
    ensures
        e.engine.sensor_value(round, e.sim.all_sensors()[i].sensor_id@) matches Some(v)
            ==> crate::sim::model::valued(e, round, n).contains((e.sim.all_sensors()[i].sensor_id, v)),
    decreases n,
{
    let all = crate::sim::model::valued(e, round, n);
    let before = crate::sim::model::valued(e, round, n - 1);
    let x = e.sim.all_sensors()[i];
    if let Some(v) = e.engine.sensor_value(round, x.sensor_id@) {
        if i == n - 1 {
            assert(all[all.len() - 1] == (x.sensor_id, v));
        } else {
            every_value_is_given(e, round, n - 1, i);
            let k = choose|k: int| 0 <= k < before.len() && before[k] == (x.sensor_id, v);
            assert(all[k] == (x.sensor_id, v));
        }
    }
}

/// Nothing else is given.
pub proof fn only_values_are_given(e: SimEngine, round: Round, n: int, k: int)
    requires
        0 <= n <= e.sim.all_sensors().len(),
        0 <= k < crate::sim::model::valued(e, round, n).len(),
    ensures
        exists|i: int|
            0 <= i < n && crate::sim::model::valued(e, round, n)[k].0@ == (#[trigger] e.sim.all_sensors()[i]).sensor_id@
                && e.engine.sensor_value(round, e.sim.all_sensors()[i].sensor_id@) == Some(
                crate::sim::model::valued(e, round, n)[k].1,
            ),
    decreases n,
{
    if n > 0 {
        let before = crate::sim::model::valued(e, round, n - 1);
        if k < before.len() {
            only_values_are_given(e, round, n - 1, k);
        } else {
            assert(e.sim.all_sensors()[n - 1] == e.sim.all_sensors()[n - 1]);
        }
    }
}

// ---- registers ----

/// Every holding register is shown at its address, with what a read of that
/// address answers.
pub proof fn a_holding_register_is_shown_as_it_reads(
    view: StateView,
    s: SimSlaveState,
    readings: Readings,
    a: u16,
    r: Result<ModbusResponse, ModbusException>,
    after: SimSlaveState,
)
    requires
        crate::sim::web::state_shown(view, s, readings),
        a < s.map.holding@.len(),
        crate::sim::server::handled(s, readings, ModbusRequest::ReadHoldingRegisters(a, 1), r, after),
    ensures
        view.holding@.len() == s.map.holding@.len(),
        view.holding@[a as int].addr == a,
        r matches Ok(ModbusResponse::ReadHoldingRegisters(w)) && w@.len() == 1 && w@[0] == view.holding@[a as int].raw,
        s.map.holding@[a as int] is None <==> view.holding@[a as int].slot is None,
        s.map.holding@[a as int] matches Some(HoldingSlot::Control { control, writable }) ==> (
        view.holding@[a as int].slot matches Some(SlotView::Control { control: c, writable: w }) && c@ == control@ && w
            == writable),
        s.map.holding@[a as int] matches Some(HoldingSlot::Sensor(x)) ==> (view.holding@[a as int].slot matches Some(
            SlotView::Sensor { sensor, storage },
        ) && sensor@ == x.sensor_id@ && storage == x.storage),
{
    let w = r->Ok_0->ReadHoldingRegisters_0@;
    assert(w[0] == s.map.holding_word(s.engine, readings, a + 0));
    assert(view.holding@[a as int].raw == s.map.holding_word(s.engine, readings, a as int));
}

/// The view is of the input register at address `a`: of the sensor there, with
/// what the address reads as, and for a number of two words with what the next
/// address reads as too.
pub open spec fn shows_input(v: InputView, s: SimSlaveState, readings: Readings, a: int) -> bool {
    &&& 0 <= a < s.map.inputs@.len()
    &&& (s.map.inputs@[a] matches Some(slot) && {
        &&& v.addr == a as usize
        &&& v.sensor@ == slot.sensor_id@
        &&& v.storage == slot.storage
        &&& v.raw_hi == s.map.input_word(readings, a)
        &&& (slot.storage == Storage::U16 ==> v.raw_lo is None && v.value_f32 is None)
        &&& (slot.storage == Storage::F32 ==> v.raw_lo == Some(s.map.input_word(readings, a + 1)) && v.value_f32
            == Some((65536 * v.raw_hi + v.raw_lo->0) as u32))
    })
}

/// Every view of an input register is of an address with a sensor.
pub proof fn an_input_register_is_shown_as_it_reads(s: SimSlaveState, readings: Readings, from: int, i: int)
    requires
        0 <= from,
        0 <= i < crate::sim::web::inputs_shown(s, readings, from).len(),
    ensures
        exists|a: int|
            from <= a && #[trigger] shows_input(crate::sim::web::inputs_shown(s, readings, from)[i], s, readings, a),
    decreases s.map.inputs@.len() - from + 1,
{
    let all = crate::sim::web::inputs_shown(s, readings, from);
    if from < s.map.inputs@.len() {
        match s.map.inputs@[from] {
            None => {
                an_input_register_is_shown_as_it_reads(s, readings, from + 1, i);
            },
            Some(slot) => {
                let step: int = match slot.storage {
                    Storage::F32 => 2,
                    Storage::U16 => 1,
                };
                if i == 0 {
                    assert(all[0] == crate::sim::web::input_shown(s, readings, slot, from));
                    assert(shows_input(all[i], s, readings, from));
                } else {
                    an_input_register_is_shown_as_it_reads(s, readings, from + step, i - 1);
                    let rest = crate::sim::web::inputs_shown(s, readings, from + step);
                    assert(all[i] == rest[i - 1]);
                    let v = rest[i - 1];
                    let next = from + step;
                    let a = choose|a: int| next <= a && #[trigger] shows_input(v, s, readings, a);
                    assert(shows_input(all[i], s, readings, a));
                }
            },
        }
    }
}

/// Every input register with a sensor is shown, unless it is the second word of
/// the one before it.
pub proof fn every_input_register_is_shown(s: SimSlaveState, readings: Readings, from: int, a: int)
    requires
        0 <= from <= a < s.map.inputs@.len(),
        s.map.inputs@[a] is Some,
    ensures
        (exists|i: int|
            0 <= i < crate::sim::web::inputs_shown(s, readings, from).len() && shows_input(
                #[trigger] crate::sim::web::inputs_shown(s, readings, from)[i],
                s,
                readings,
                a,
            )) || (a > from && (s.map.inputs@[a - 1] matches Some(x) && x.storage == Storage::F32)),
    decreases s.map.inputs@.len() - from + 1,
{
    let all = crate::sim::web::inputs_shown(s, readings, from);
    match s.map.inputs@[from] {
        None => {
            every_input_register_is_shown(s, readings, from + 1, a);
        },
        Some(slot) => {
            let step: int = match slot.storage {
                Storage::F32 => 2,
                Storage::U16 => 1,
            };
            if from == a {
                assert(all[0] == crate::sim::web::input_shown(s, readings, slot, from));
                assert(shows_input(all[0], s, readings, a));
            } else if from + step <= a {
                every_input_register_is_shown(s, readings, from + step, a);
                let rest = crate::sim::web::inputs_shown(s, readings, from + step);
                if exists|i: int| 0 <= i < rest.len() && shows_input(#[trigger] rest[i], s, readings, a) {
                    let i = choose|i: int| 0 <= i < rest.len() && shows_input(#[trigger] rest[i], s, readings, a);
                    assert(all[i + 1] == rest[i]);
                    assert(shows_input(all[i + 1], s, readings, a));
                }
            }
        },
    }
}

} // verus!
