//! What the Modbus server answers, and which writes it passes on.

use vstd::prelude::*;

use crate::acquisition::decoder::{decode_words, raw_sample, raw_sample_bool};
use crate::acquisition::AcquisitionError;
use crate::config::{
    Access, Config, DeviceConfig, RegisterConfig, RegisterFunction, SimControl, Transport, ValueType, WordOrder,
};
use crate::domain::RawSample;
use crate::laws::computed::latest_is;
use crate::number::Real;
use crate::protocol::modbus_server::{
    answer_write, encode_value, handle, BitView, ModbusException, ModbusOutcome, ModbusRequest, ModbusResponse,
    PendingWrite, WordView,
};
use crate::protocol::WriteValue;
use crate::store::{MetricStore, SensorState};

verus! {

// ---- values in words ----

/// Words hold the number that their type says: a signed one in two's complement,
/// a double word with the higher word first in big order and last in little
/// order, a bool as zero or not.
pub proof fn words_hold_their_number(words: &Vec<u16>, value_type: ValueType, order: WordOrder, r: Real)
    requires
        call_ensures(decode_words, (words, value_type, order), r),
        words@.len() == value_type.width(),
    ensures
        value_type == ValueType::U16 ==> r.is_integer(words@[0] as int),
        value_type == ValueType::I16 && words@[0] < 0x8000 ==> r.is_integer(words@[0] as int),
        value_type == ValueType::I16 && words@[0] >= 0x8000 ==> r.is_integer(words@[0] - 0x1_0000),
        value_type == ValueType::U32 && order == WordOrder::Big ==> r.is_integer(words@[0] * 0x1_0000 + words@[1]),
        value_type == ValueType::U32 && order == WordOrder::Little ==> r.is_integer(words@[1] * 0x1_0000 + words@[0]),
        value_type == ValueType::I32 && order == WordOrder::Big ==> r.is_integer(
            words@[0] * 0x1_0000 + words@[1] - (if words@[0] >= 0x8000 {
                0x1_0000_0000int
            } else {
                0
            }),
        ),
        value_type == ValueType::I32 && order == WordOrder::Little ==> r.is_integer(
            words@[1] * 0x1_0000 + words@[0] - (if words@[1] >= 0x8000 {
                0x1_0000_0000int
            } else {
                0
            }),
        ),
        value_type == ValueType::F32 && order == WordOrder::Big ==> crate::number::widens(
            (words@[0] * 0x1_0000 + words@[1]) as u32,
            r,
        ),
        value_type == ValueType::F32 && order == WordOrder::Little ==> crate::number::widens(
            (words@[1] * 0x1_0000 + words@[0]) as u32,
            r,
        ),
        value_type == ValueType::Bool && words@[0] == 0 ==> r.is_integer(0),
        value_type == ValueType::Bool && words@[0] != 0 ==> r.is_integer(1),
{
}

/// Values of 32 bits take two words, all others one.
pub proof fn wide_values_take_two_words(t: ValueType)
    ensures
        t.width() == 2 <==> t == ValueType::U32 || t == ValueType::I32 || t == ValueType::F32,
        t.width() == 1 <==> t == ValueType::U16 || t == ValueType::I16 || t == ValueType::Bool,
{
}

/// A whole number is encoded as itself where its type can hold it, and as the
/// nearest bound where it cannot.
pub proof fn a_whole_number_is_encoded(value: Real, n: int, value_type: ValueType, order: WordOrder, r: Vec<u16>)
    requires
        call_ensures(encode_value, (value, value_type, order), r),
        value.is_integer(n),
        -0x1_0000_0000 <= n <= 0x1_0000_0000,
    ensures
        r@.len() == value_type.width(),
        value_type == ValueType::U16 && 0 <= n <= 0xffff ==> r@[0] == n,
        value_type == ValueType::U16 && n < 0 ==> r@[0] == 0,
        value_type == ValueType::U16 && n > 0xffff ==> r@[0] == 0xffff,
        value_type == ValueType::I16 && 0 <= n <= 0x7fff ==> r@[0] == n,
        value_type == ValueType::I16 && -0x8000 <= n < 0 ==> r@[0] == n + 0x1_0000,
        value_type == ValueType::I16 && n > 0x7fff ==> r@[0] == 0x7fff,
        value_type == ValueType::I16 && n < -0x8000 ==> r@[0] == 0x8000,
        value_type == ValueType::U32 && order == WordOrder::Big && 0 <= n <= 0xffff_ffff ==> r@[0] * 0x1_0000 + r@[1]
            == n,
        value_type == ValueType::U32 && order == WordOrder::Little && 0 <= n <= 0xffff_ffff ==> r@[1] * 0x1_0000
            + r@[0] == n,
        value_type == ValueType::U32 && n < 0 ==> r@[0] == 0 && r@[1] == 0,
        value_type == ValueType::I32 && order == WordOrder::Big && 0 <= n <= 0x7fff_ffff ==> r@[0] * 0x1_0000 + r@[1]
            == n,
        value_type == ValueType::I32 && order == WordOrder::Big && -0x8000_0000 <= n < 0 ==> r@[0] * 0x1_0000 + r@[1]
            == n + 0x1_0000_0000,
        value_type == ValueType::I32 && order == WordOrder::Little && 0 <= n <= 0x7fff_ffff ==> r@[1] * 0x1_0000
            + r@[0] == n,
        value_type == ValueType::I32 && order == WordOrder::Little && -0x8000_0000 <= n < 0 ==> r@[1] * 0x1_0000
            + r@[0] == n + 0x1_0000_0000,
        value_type == ValueType::Bool ==> r@[0] == (if n == 0 {
            0u16
        } else {
            1u16
        }),
{
    crate::number::integer_is_rounded_to_itself(value, n);
    crate::number::integer_is_zero(value, n);
}

/// A value that came from single precision is encoded as the same bits, the higher
/// word first in big order and last in little order.
pub proof fn a_single_is_encoded_as_its_bits(b: u32, value: Real, order: WordOrder, r: Vec<u16>)
    requires
        call_ensures(encode_value, (value, ValueType::F32, order), r),
        crate::number::widens(b, value),
        crate::number::magnitude32(b) <= 0x7f80_0000,
    ensures
        r@.len() == 2,
        order == WordOrder::Big ==> r@[0] * 0x1_0000 + r@[1] == b,
        order == WordOrder::Little ==> r@[1] * 0x1_0000 + r@[0] == b,
{
    crate::number::single_is_narrowed_to_itself(b, value);
}

/// A sample of a register is of its sensor, under its name, with its unit, and of
/// the time of the reading. A reply that is too short is an error.
pub proof fn a_sample_is_of_its_register(
    device: &str,
    reg: &RegisterConfig,
    words: &Vec<u16>,
    now: i64,
    r: Result<RawSample, AcquisitionError>,
)
    requires
        call_ensures(raw_sample, (device, reg, words, now), r),
    ensures
        r is Err <==> words@.len() == 0 || (words@.len() == 1 && (reg.value_type == ValueType::U32 || reg.value_type
            == ValueType::I32 || reg.value_type == ValueType::F32)),
        r matches Ok(s) ==> {
            &&& s.sensor_id.0@ == reg.sensor_id@
            &&& s.name@ == reg.name@
            &&& s.unit == reg.unit
            &&& s.timestamp == now
            &&& reg.value_type == ValueType::U16 ==> s.raw_value.is_integer(words@[0] as int)
            &&& reg.value_type == ValueType::U32 && reg.word_order == WordOrder::Big ==> s.raw_value.is_integer(
                words@[0] * 0x1_0000 + words@[1],
            )
        },
{
}

/// A bit is sampled as 1 where it is on and as 0 where it is off, of registers of
/// type bool alone.
pub proof fn a_bit_is_sampled(
    device: &str,
    reg: &RegisterConfig,
    value: bool,
    now: i64,
    r: Result<RawSample, AcquisitionError>,
)
    requires
        call_ensures(raw_sample_bool, (device, reg, value, now), r),
    ensures
        r is Ok <==> reg.value_type == ValueType::Bool,
        r matches Ok(s) ==> {
            &&& s.sensor_id.0@ == reg.sensor_id@
            &&& s.name@ == reg.name@
            &&& s.unit == reg.unit
            &&& s.timestamp == now
            &&& value ==> s.raw_value.is_integer(1)
            &&& !value ==> s.raw_value.is_integer(0)
        },
{
}

// ---- where registers stand ----

/// How many of the first `n` registers of a device lie in a space.
pub open spec fn count_in(d: DeviceConfig, space: RegisterFunction, n: int) -> int
    decreases n,
{
    if n <= 0 {
        0
    } else {
        count_in(d, space, n - 1) + (if d.registers@[n - 1].function == space {
            1int
        } else {
            0
        })
    }
}

/// How many registers of a space come before register `j` of device `i`.
pub open spec fn bits_before(ds: Seq<DeviceConfig>, space: RegisterFunction, i: int, j: int) -> int
    decreases i,
{
    if i <= 0 {
        count_in(ds[0], space, j)
    } else {
        bits_before(ds, space, i - 1, ds[i - 1].registers@.len() as int) + count_in(ds[i], space, j)
    }
}

/// How many words the first `n` registers of a device take in a space.
pub open spec fn span_in(d: DeviceConfig, space: RegisterFunction, n: int) -> int
    decreases n,
{
    if n <= 0 {
        0
    } else {
        span_in(d, space, n - 1) + (if d.registers@[n - 1].function == space {
            d.registers@[n - 1].value_type.width() as int
        } else {
            0
        })
    }
}

/// How many words of a space come before register `j` of device `i`.
pub open spec fn words_before(ds: Seq<DeviceConfig>, space: RegisterFunction, i: int, j: int) -> int
    decreases i,
{
    if i <= 0 {
        span_in(ds[0], space, j)
    } else {
        words_before(ds, space, i - 1, ds[i - 1].registers@.len() as int) + span_in(ds[i], space, j)
    }
}

proof fn lemma_device_bits(d: DeviceConfig, space: RegisterFunction, j: int, n: int)
    requires
        0 <= j < n <= d.registers@.len(),
        d.registers@[j].function == space,
    ensures
        0 <= count_in(d, space, j) < crate::protocol::modbus_server::device_bits(d, space, n).len(),
        crate::protocol::modbus_server::device_bits(d, space, n)[count_in(d, space, j)] == Some(
            BitView {
                sensor: d.registers@[j].sensor_id@,
                device: d.name@,
                access: d.registers@[j].access,
            },
        ),
    decreases n,
{
    lemma_device_bits_len(d, space, n - 1);
    if j < n - 1 {
        lemma_device_bits(d, space, j, n - 1);
    }
}

proof fn lemma_device_bits_len(d: DeviceConfig, space: RegisterFunction, n: int)
    requires
        0 <= n <= d.registers@.len(),
    ensures
        crate::protocol::modbus_server::device_bits(d, space, n).len() == count_in(d, space, n),
        0 <= count_in(d, space, n),
    decreases n,
{
    if n > 0 {
        lemma_device_bits_len(d, space, n - 1);
    }
}

proof fn lemma_register_bits_len(ds: Seq<DeviceConfig>, space: RegisterFunction, i: int)
    requires
        0 <= i < ds.len(),
    ensures
        crate::protocol::modbus_server::register_bits(ds, space, i + 1).len() == bits_before(
            ds,
            space,
            i,
            ds[i].registers@.len() as int,
        ),
    decreases i,
{
    lemma_device_bits_len(ds[i], space, ds[i].registers@.len() as int);
    if i > 0 {
        lemma_register_bits_len(ds, space, i - 1);
    } else {
        reveal_with_fuel(crate::protocol::modbus_server::register_bits, 2);
    }
}

proof fn lemma_register_bits(ds: Seq<DeviceConfig>, space: RegisterFunction, i: int, j: int, n: int)
    requires
        0 <= i < n <= ds.len(),
        0 <= j < ds[i].registers@.len(),
        ds[i].registers@[j].function == space,
    ensures
        0 <= bits_before(ds, space, i, j) < crate::protocol::modbus_server::register_bits(ds, space, n).len(),
        crate::protocol::modbus_server::register_bits(ds, space, n)[bits_before(ds, space, i, j)] == Some(
            BitView {
                sensor: ds[i].registers@[j].sensor_id@,
                device: ds[i].name@,
                access: ds[i].registers@[j].access,
            },
        ),
    decreases n,
{
    if i < n - 1 {
        lemma_register_bits(ds, space, i, j, n - 1);
    } else {
        lemma_device_bits(ds[i], space, j, ds[i].registers@.len() as int);
        if i > 0 {
            lemma_register_bits_len(ds, space, i - 1);
        } else {
            reveal_with_fuel(crate::protocol::modbus_server::register_bits, 2);
        }
    }
}

proof fn lemma_device_words_len(d: DeviceConfig, space: RegisterFunction, n: int)
    requires
        0 <= n <= d.registers@.len(),
    ensures
        crate::protocol::modbus_server::device_words(d, space, n).len() == span_in(d, space, n),
        0 <= span_in(d, space, n),
    decreases n,
{
    if n > 0 {
        lemma_device_words_len(d, space, n - 1);
    }
}

proof fn lemma_device_words(d: DeviceConfig, space: RegisterFunction, j: int, n: int, part: int)
    requires
        0 <= j < n <= d.registers@.len(),
        d.registers@[j].function == space,
        0 <= part < d.registers@[j].value_type.width(),
    ensures
        0 <= span_in(d, space, j) + part < crate::protocol::modbus_server::device_words(d, space, n).len(),
        crate::protocol::modbus_server::device_words(d, space, n)[span_in(d, space, j) + part] == Some(
            WordView {
                sensor: d.registers@[j].sensor_id@,
                device: d.name@,
                value_type: d.registers@[j].value_type,
                word_order: d.registers@[j].word_order,
                index: part as nat,
                access: d.registers@[j].access,
            },
        ),
    decreases n,
{
    lemma_device_words_len(d, space, n - 1);
    if j < n - 1 {
        lemma_device_words(d, space, j, n - 1, part);
    }
}

proof fn lemma_register_words_len(ds: Seq<DeviceConfig>, space: RegisterFunction, i: int)
    requires
        0 <= i < ds.len(),
    ensures
        crate::protocol::modbus_server::register_words(ds, space, i + 1).len() == words_before(
            ds,
            space,
            i,
            ds[i].registers@.len() as int,
        ),
    decreases i,
{
    lemma_device_words_len(ds[i], space, ds[i].registers@.len() as int);
    if i > 0 {
        lemma_register_words_len(ds, space, i - 1);
    } else {
        reveal_with_fuel(crate::protocol::modbus_server::register_words, 2);
    }
}

proof fn lemma_register_words(ds: Seq<DeviceConfig>, space: RegisterFunction, i: int, j: int, n: int, part: int)
    requires
        0 <= i < n <= ds.len(),
        0 <= j < ds[i].registers@.len(),
        ds[i].registers@[j].function == space,
        0 <= part < ds[i].registers@[j].value_type.width(),
    ensures
        0 <= words_before(ds, space, i, j) + part < crate::protocol::modbus_server::register_words(ds, space, n).len(),
        crate::protocol::modbus_server::register_words(ds, space, n)[words_before(ds, space, i, j) + part] == Some(
            WordView {
                sensor: ds[i].registers@[j].sensor_id@,
                device: ds[i].name@,
                value_type: ds[i].registers@[j].value_type,
                word_order: ds[i].registers@[j].word_order,
                index: part as nat,
                access: ds[i].registers@[j].access,
            },
        ),
    decreases n,
{
    if i < n - 1 {
        lemma_register_words(ds, space, i, j, n - 1, part);
    } else {
        lemma_device_words(ds[i], space, j, ds[i].registers@.len() as int, part);
        if i > 0 {
            lemma_register_words_len(ds, space, i - 1);
        } else {
            reveal_with_fuel(crate::protocol::modbus_server::register_words, 2);
        }
    }
}

/// Coils and discrete inputs stand one behind the other, in the order of the
/// configuration, each with its own sensor, device and access.
pub proof fn bits_stand_in_order(c: Config, i: int, j: int)
    requires
        0 <= i < c.devices@.len(),
        0 <= j < c.devices@[i].registers@.len(),
    ensures
        ({
            let reg = c.devices@[i].registers@[j];
            let slot = Some(BitView { sensor: reg.sensor_id@, device: c.devices@[i].name@, access: reg.access });
            let a = bits_before(c.devices@, reg.function, i, j);
            &&& reg.function == RegisterFunction::Coil ==> 0 <= a < crate::protocol::modbus_server::coil_area(c).len()
                && crate::protocol::modbus_server::coil_area(c)[a] == slot
            &&& reg.function == RegisterFunction::DiscreteInput ==> 0 <= a
                < crate::protocol::modbus_server::discrete_area(c).len()
                && crate::protocol::modbus_server::discrete_area(c)[a] == slot
        }),
{
    let reg = c.devices@[i].registers@[j];
    lemma_register_bits(c.devices@, reg.function, i, j, c.devices@.len() as int);
}

/// Holding and input registers stand one behind the other, in the order of the
/// configuration; each takes as many addresses as its value has words.
pub proof fn words_stand_in_order(c: Config, i: int, j: int, part: int)
    requires
        0 <= i < c.devices@.len(),
        0 <= j < c.devices@[i].registers@.len(),
        0 <= part < c.devices@[i].registers@[j].value_type.width(),
    ensures
        ({
            let reg = c.devices@[i].registers@[j];
            let slot = Some(
                WordView {
                    sensor: reg.sensor_id@,
                    device: c.devices@[i].name@,
                    value_type: reg.value_type,
                    word_order: reg.word_order,
                    index: part as nat,
                    access: reg.access,
                },
            );
            let a = words_before(c.devices@, reg.function, i, j) + part;
            &&& reg.function == RegisterFunction::Holding ==> 0 <= a < crate::protocol::modbus_server::holding_area(
                c,
            ).len() && crate::protocol::modbus_server::holding_area(c)[a] == slot
            &&& reg.function == RegisterFunction::Input ==> 0 <= a < crate::protocol::modbus_server::input_area(c).len()
                && crate::protocol::modbus_server::input_area(c)[a] == slot
        }),
{
    let reg = c.devices@[i].registers@[j];
    lemma_register_words(c.devices@, reg.function, i, j, c.devices@.len() as int, part);
}

proof fn lemma_tail(c: Config, device: Seq<char>, n: int)
    requires
        0 <= n,
    ensures
        n <= c.computed@.len() ==> crate::protocol::modbus_server::computed_words(c.computed@, n).len() == 2 * n,
        n <= c.sim.sensors@.len() ==> crate::protocol::modbus_server::sim_words(c.sim.sensors@, device, n).len() == 2
            * n,
    decreases n,
{
    if n > 0 {
        lemma_tail(c, device, n - 1);
    }
}

proof fn lemma_computed_slot(c: Config, k: int, n: int, part: int)
    requires
        0 <= k < n <= c.computed@.len(),
        0 <= part < 2,
    ensures
        crate::protocol::modbus_server::computed_words(c.computed@, n).len() == 2 * n,
        crate::protocol::modbus_server::computed_words(c.computed@, n)[2 * k + part] == Some(
            WordView {
                sensor: c.computed@[k].sensor_id@,
                device: ""@,
                value_type: ValueType::F32,
                word_order: WordOrder::Big,
                index: part as nat,
                access: Access::Read,
            },
        ),
    decreases n,
{
    lemma_tail(c, ""@, n);
    lemma_tail(c, ""@, n - 1);
    if k < n - 1 {
        lemma_computed_slot(c, k, n - 1, part);
    }
}

/// Behind the input registers of the devices stand the computed sensors, two words
/// each: read-only, in single precision, the higher word first.
pub proof fn computed_sensors_stand_behind_registers(c: Config, k: int, part: int)
    requires
        0 <= k < c.computed@.len(),
        0 <= part < 2,
    ensures
        ({
            let a = crate::protocol::modbus_server::all_register_words(c, RegisterFunction::Input).len() + 2 * k + part;
            &&& a < crate::protocol::modbus_server::input_area(c).len()
            &&& crate::protocol::modbus_server::input_area(c)[a] == Some(
                WordView {
                    sensor: c.computed@[k].sensor_id@,
                    device: ""@,
                    value_type: ValueType::F32,
                    word_order: WordOrder::Big,
                    index: part as nat,
                    access: Access::Read,
                },
            )
        }),
{
    lemma_computed_slot(c, k, c.computed@.len() as int, part);
}

proof fn lemma_sim_slot(c: Config, device: Seq<char>, k: int, n: int, part: int)
    requires
        0 <= k < n <= c.sim.sensors@.len(),
        0 <= part < 2,
    ensures
        crate::protocol::modbus_server::sim_words(c.sim.sensors@, device, n).len() == 2 * n,
        crate::protocol::modbus_server::sim_words(c.sim.sensors@, device, n)[2 * k + part] == Some(
            WordView {
                sensor: c.sim.sensors@[k].sensor_id@,
                device,
                value_type: ValueType::F32,
                word_order: WordOrder::Big,
                index: part as nat,
                access: Access::Read,
            },
        ),
    decreases n,
{
    lemma_tail(c, device, n);
    lemma_tail(c, device, n - 1);
    if k < n - 1 {
        lemma_sim_slot(c, device, k, n - 1, part);
    }
}

/// Behind the computed sensors stand the simulated ones, in the same form.
pub proof fn simulated_sensors_stand_last(c: Config, k: int, part: int)
    requires
        0 <= k < c.sim.sensors@.len(),
        0 <= part < 2,
    ensures
        ({
            let a = crate::protocol::modbus_server::all_register_words(c, RegisterFunction::Input).len() + 2
                * c.computed@.len() + 2 * k + part;
            &&& a < crate::protocol::modbus_server::input_area(c).len()
            &&& crate::protocol::modbus_server::input_area(c)[a as int] matches Some(w) && w.sensor
                == c.sim.sensors@[k].sensor_id@ && w.value_type == ValueType::F32 && w.word_order == WordOrder::Big
                && w.index == part && w.access == Access::Read
        }),
{
    lemma_tail(c, ""@, c.computed@.len() as int);
    lemma_sim_slot(
        c,
        crate::protocol::modbus_server::sim_device(c.devices@, 0),
        k,
        c.sim.sensors@.len() as int,
        part,
    );
}

/// How many of the first `n` controls can be written.
pub open spec fn writable_before(ks: Seq<SimControl>, n: int) -> int
    decreases n,
{
    if n <= 0 {
        0
    } else {
        writable_before(ks, n - 1) + (if ks[n - 1].writable {
            1int
        } else {
            0
        })
    }
}

proof fn lemma_controls_len(ks: Seq<SimControl>, device: Seq<char>, n: int)
    requires
        0 <= n <= ks.len(),
    ensures
        crate::protocol::modbus_server::control_words(ks, device, n).len() == writable_before(ks, n),
        0 <= writable_before(ks, n),
    decreases n,
{
    if n > 0 {
        lemma_controls_len(ks, device, n - 1);
    }
}

proof fn lemma_control_slot(ks: Seq<SimControl>, device: Seq<char>, k: int, n: int)
    requires
        0 <= k < n <= ks.len(),
        ks[k].writable,
    ensures
        0 <= writable_before(ks, k) < crate::protocol::modbus_server::control_words(ks, device, n).len(),
        crate::protocol::modbus_server::control_words(ks, device, n)[writable_before(ks, k)] == Some(
            WordView {
                sensor: ks[k].name@,
                device,
                value_type: ValueType::U16,
                word_order: WordOrder::Big,
                index: 0,
                access: Access::ReadWrite,
            },
        ),
    decreases n,
{
    lemma_controls_len(ks, device, n - 1);
    if k < n - 1 {
        lemma_control_slot(ks, device, k, n - 1);
    }
}

/// Behind the holding registers of the devices stand the controls that can be
/// written, one word each, which can be read and written.
pub proof fn controls_stand_behind_registers(c: Config, k: int)
    requires
        0 <= k < c.sim.controls@.len(),
        c.sim.controls@[k].writable,
    ensures
        ({
            let a = crate::protocol::modbus_server::all_register_words(c, RegisterFunction::Holding).len()
                + writable_before(c.sim.controls@, k);
            &&& 0 <= a < crate::protocol::modbus_server::holding_area(c).len()
            &&& crate::protocol::modbus_server::holding_area(c)[a] matches Some(w) && w.sensor
                == c.sim.controls@[k].name@ && w.value_type == ValueType::U16 && w.index == 0 && w.access
                == Access::ReadWrite
        }),
{
    lemma_control_slot(
        c.sim.controls@,
        crate::protocol::modbus_server::sim_device(c.devices@, 0),
        k,
        c.sim.controls@.len() as int,
    );
}

// ---- writes ----

/// The bit that a client writes is the bit that goes to the device, and the bit
/// that the client is answered.
pub proof fn a_coil_write_keeps_its_bit(
    config: &Config,
    store: &MetricStore,
    addr: u16,
    coil: bool,
    req: &ModbusRequest,
    out: ModbusOutcome,
)
    requires
        *req == ModbusRequest::WriteSingleCoil(addr, coil),
        call_ensures(handle, (config, store, req), out),
    ensures
        !(out is Answer),
        out matches ModbusOutcome::Forward(w, reply) ==> w.value == WriteValue::Coil(coil) && reply
            == ModbusResponse::WriteSingleCoil(addr, coil),
{
}

/// A write to a coil goes to the device and the sensor of the register that stands
/// at that address, where it can be written; it is refused where it cannot, and
/// where nothing stands there.
pub proof fn a_coil_write_reaches_its_register(
    config: &Config,
    store: &MetricStore,
    addr: u16,
    coil: bool,
    req: &ModbusRequest,
    out: ModbusOutcome,
    i: int,
    j: int,
)
    requires
        *req == ModbusRequest::WriteSingleCoil(addr, coil),
        call_ensures(handle, (config, store, req), out),
        0 <= i < config.devices@.len(),
        0 <= j < config.devices@[i].registers@.len(),
        config.devices@[i].registers@[j].function == RegisterFunction::Coil,
        addr == bits_before(config.devices@, RegisterFunction::Coil, i, j),
    ensures
        config.devices@[i].registers@[j].access == Access::ReadWrite ==> (out matches ModbusOutcome::Forward(w, _)
            && w.device@ == config.devices@[i].name@ && w.sensor_id@ == config.devices@[i].registers@[j].sensor_id@
            && w.value == WriteValue::Coil(coil)),
        config.devices@[i].registers@[j].access == Access::Read ==> out == ModbusOutcome::Refuse(
            ModbusException::IllegalFunction,
        ),
{
    bits_stand_in_order(*config, i, j);
}

/// The word that a client writes is the word that goes to the device, and the
/// client is answered as the protocol asks: with the address and the word, or with
/// the address and the number of words, of which the first is passed on.
pub proof fn a_register_write_keeps_its_word(
    config: &Config,
    store: &MetricStore,
    req: &ModbusRequest,
    out: ModbusOutcome,
)
    requires
        call_ensures(handle, (config, store, req), out),
    ensures
        *req matches ModbusRequest::WriteSingleRegister(addr, word) ==> !(out is Answer) && (out
            matches ModbusOutcome::Forward(w, reply) ==> w.value == WriteValue::Holding(word) && reply
            == ModbusResponse::WriteSingleRegister(addr, word)),
        *req matches ModbusRequest::WriteMultipleRegisters(addr, words) ==> !(out is Answer) && (out
            matches ModbusOutcome::Forward(w, reply) ==> {
            &&& words@.len() > 0 ==> w.value == WriteValue::Holding(words@[0])
            &&& words@.len() <= 0xffff ==> reply == ModbusResponse::WriteMultipleRegisters(addr, words@.len() as u16)
        }),
{
}

/// A write to a holding register goes to the device and the sensor of the register
/// that stands at that address, where it can be written and has a single word; it
/// is refused otherwise.
pub proof fn a_register_write_reaches_its_register(
    config: &Config,
    store: &MetricStore,
    addr: u16,
    word: u16,
    req: &ModbusRequest,
    out: ModbusOutcome,
    i: int,
    j: int,
)
    requires
        *req == ModbusRequest::WriteSingleRegister(addr, word),
        call_ensures(handle, (config, store, req), out),
        0 <= i < config.devices@.len(),
        0 <= j < config.devices@[i].registers@.len(),
        config.devices@[i].registers@[j].function == RegisterFunction::Holding,
        addr == words_before(config.devices@, RegisterFunction::Holding, i, j),
    ensures
        ({
            let reg = config.devices@[i].registers@[j];
            let narrow = reg.value_type == ValueType::U16 || reg.value_type == ValueType::I16 || reg.value_type
                == ValueType::Bool;
            &&& reg.access == Access::ReadWrite && narrow ==> (out matches ModbusOutcome::Forward(w, _) && w.device@
                == config.devices@[i].name@ && w.sensor_id@ == reg.sensor_id@ && w.value == WriteValue::Holding(word))
            &&& reg.access == Access::Read || !narrow ==> out == ModbusOutcome::Refuse(
                ModbusException::IllegalFunction,
            )
        }),
{
    words_stand_in_order(*config, i, j, 0);
}

/// Nothing stands behind the last register: a write there, and a read of registers
/// that goes there, is of an illegal address; bits read there are off.
pub proof fn nothing_stands_behind_the_last_register(
    config: &Config,
    store: &MetricStore,
    req: &ModbusRequest,
    out: ModbusOutcome,
)
    requires
        call_ensures(handle, (config, store, req), out),
    ensures
        (*req matches ModbusRequest::WriteSingleCoil(addr, _) && addr >= crate::protocol::modbus_server::coil_area(
            *config,
        ).len()) ==> out == ModbusOutcome::Refuse(ModbusException::IllegalDataAddress),
        (*req matches ModbusRequest::WriteSingleRegister(addr, _) && addr
            >= crate::protocol::modbus_server::holding_area(*config).len()) ==> out == ModbusOutcome::Refuse(
            ModbusException::IllegalDataAddress,
        ),
        (*req matches ModbusRequest::ReadHoldingRegisters(addr, cnt) && addr + cnt
            > crate::protocol::modbus_server::holding_area(*config).len()) ==> out == ModbusOutcome::Refuse(
            ModbusException::IllegalDataAddress,
        ),
        (*req matches ModbusRequest::ReadInputRegisters(addr, cnt) && addr + cnt
            > crate::protocol::modbus_server::input_area(*config).len()) ==> out == ModbusOutcome::Refuse(
            ModbusException::IllegalDataAddress,
        ),
        *req matches ModbusRequest::ReadCoils(addr, cnt) ==> (out matches ModbusOutcome::Answer(
            ModbusResponse::ReadCoils(bits),
        ) && bits@.len() == cnt && forall|k: int|
            0 <= k < cnt && addr + k >= crate::protocol::modbus_server::coil_area(*config).len() ==> !(
            #[trigger] bits@[k])),
        *req matches ModbusRequest::Other ==> out == ModbusOutcome::Refuse(ModbusException::IllegalFunction),
{
}

/// A write is answered as promised once it has arrived, and with a device failure
/// where it has not.
pub proof fn a_write_is_answered_when_it_arrived(
    arrived: bool,
    reply: ModbusResponse,
    r: Result<ModbusResponse, ModbusException>,
)
    requires
        call_ensures(answer_write, (arrived, reply), r),
    ensures
        arrived ==> r == Ok::<ModbusResponse, ModbusException>(reply),
        !arrived ==> r == Err::<ModbusResponse, ModbusException>(ModbusException::ServerDeviceFailure),
{
}

// ---- reads ----

proof fn lemma_current(store: Map<Seq<char>, SensorState>, id: Seq<char>, v: Real)
    requires
        latest_is(store, id, v),
    ensures
        crate::protocol::modbus_server::current_value(store, id) == Some(v),
{
}

/// A coil reads as on exactly where the latest value of its sensor is not zero.
pub proof fn a_coil_reads_as_its_value(
    config: &Config,
    store: &MetricStore,
    addr: u16,
    cnt: u16,
    req: &ModbusRequest,
    out: ModbusOutcome,
    i: int,
    j: int,
    v: Real,
)
    requires
        *req == ModbusRequest::ReadCoils(addr, cnt),
        call_ensures(handle, (config, store, req), out),
        0 <= i < config.devices@.len(),
        0 <= j < config.devices@[i].registers@.len(),
        config.devices@[i].registers@[j].function == RegisterFunction::Coil,
        addr <= bits_before(config.devices@, RegisterFunction::Coil, i, j) < addr + cnt,
        latest_is(store@, config.devices@[i].registers@[j].sensor_id@, v),
    ensures
        out matches ModbusOutcome::Answer(ModbusResponse::ReadCoils(bits)) && bits@.len() == cnt && bits@[bits_before(
            config.devices@,
            RegisterFunction::Coil,
            i,
            j,
        ) - addr] == (v.bits != 0 && v.bits != 0x8000_0000_0000_0000),
{
    bits_stand_in_order(*config, i, j);
    lemma_current(store@, config.devices@[i].registers@[j].sensor_id@, v);
}

/// A discrete input reads as on exactly where the latest value of its sensor is
/// not zero.
pub proof fn a_discrete_input_reads_as_its_value(
    config: &Config,
    store: &MetricStore,
    addr: u16,
    cnt: u16,
    req: &ModbusRequest,
    out: ModbusOutcome,
    i: int,
    j: int,
    v: Real,
)
    requires
        *req == ModbusRequest::ReadDiscreteInputs(addr, cnt),
        call_ensures(handle, (config, store, req), out),
        0 <= i < config.devices@.len(),
        0 <= j < config.devices@[i].registers@.len(),
        config.devices@[i].registers@[j].function == RegisterFunction::DiscreteInput,
        addr <= bits_before(config.devices@, RegisterFunction::DiscreteInput, i, j) < addr + cnt,
        latest_is(store@, config.devices@[i].registers@[j].sensor_id@, v),
    ensures
        out matches ModbusOutcome::Answer(ModbusResponse::ReadDiscreteInputs(bits)) && bits@.len() == cnt
            && bits@[bits_before(config.devices@, RegisterFunction::DiscreteInput, i, j) - addr] == (v.bits != 0
            && v.bits != 0x8000_0000_0000_0000),
{
    bits_stand_in_order(*config, i, j);
    lemma_current(store@, config.devices@[i].registers@[j].sensor_id@, v);
}

/// A coil write that reached its device reads back: once the device's bit has been
/// sampled into the store, the same address answers the bit that was written.
pub proof fn a_written_coil_reads_back(
    config: &Config,
    store: &MetricStore,
    addr: u16,
    coil: bool,
    write: &ModbusRequest,
    forwarded: ModbusOutcome,
    later: &MetricStore,
    read: &ModbusRequest,
    out: ModbusOutcome,
    w: PendingWrite,
    v: Real,
    switched: bool,
)
    requires
        *write == ModbusRequest::WriteSingleCoil(addr, coil),
        call_ensures(handle, (config, store, write), forwarded),
        forwarded matches ModbusOutcome::Forward(p, _) && p == w,
        w.value == WriteValue::Coil(switched),
        v.is_integer(
            if switched {
                1
            } else {
                0
            },
        ),
        latest_is(later@, w.sensor_id@, v),
        *read == ModbusRequest::ReadCoils(addr, 1),
        call_ensures(handle, (config, later, read), out),
    ensures
        out matches ModbusOutcome::Answer(ModbusResponse::ReadCoils(bits)) && bits@ == seq![coil],
{
    lemma_current(later@, w.sensor_id@, v);
    crate::number::integer_is_zero(
        v,
        if switched {
            1
        } else {
            0
        },
    );
    assert(out is Answer);
    let bits = out->Answer_0->ReadCoils_0;
    assert(bits@ =~= seq![coil]);
}

/// The words of a register read as what they are on the device: a value that was
/// decoded from words is served as those words, at the addresses of the register.
pub proof fn holding_words_are_served_as_they_were_read(
    config: &Config,
    store: &MetricStore,
    addr: u16,
    cnt: u16,
    req: &ModbusRequest,
    out: ModbusOutcome,
    i: int,
    j: int,
    words: Seq<u16>,
    v: Real,
)
    requires
        *req == ModbusRequest::ReadHoldingRegisters(addr, cnt),
        call_ensures(handle, (config, store, req), out),
        0 <= i < config.devices@.len(),
        0 <= j < config.devices@[i].registers@.len(),
        config.devices@[i].registers@[j].function == RegisterFunction::Holding,
        addr <= words_before(config.devices@, RegisterFunction::Holding, i, j),
        words_before(config.devices@, RegisterFunction::Holding, i, j) + words.len() <= addr + cnt,
        addr + cnt <= crate::protocol::modbus_server::holding_area(*config).len(),
        ({
            let reg = config.devices@[i].registers@[j];
            &&& words.len() == reg.value_type.width()
            &&& crate::acquisition::decoder::decodes(words, reg.value_type, reg.word_order, v)
            &&& reg.value_type == ValueType::F32 ==> crate::number::magnitude32(
                crate::acquisition::decoder::combined(words, reg.word_order),
            ) <= crate::number::INFINITY32
            &&& reg.value_type == ValueType::Bool ==> words[0] <= 1
            &&& latest_is(store@, reg.sensor_id@, v)
        }),
    ensures
        out matches ModbusOutcome::Answer(ModbusResponse::ReadHoldingRegisters(answer)) && answer@.len() == cnt
            && forall|k: int|
            0 <= k < words.len() ==> answer@[words_before(config.devices@, RegisterFunction::Holding, i, j) - addr + k]
                == #[trigger] words[k],
{
    let reg = config.devices@[i].registers@[j];
    let a = words_before(config.devices@, RegisterFunction::Holding, i, j);
    crate::protocol::modbus_server::encoding_inverts_decoding(words, reg.value_type, reg.word_order, v);
    lemma_current(store@, reg.sensor_id@, v);
    assert(out is Answer);
    let answer = out->Answer_0->ReadHoldingRegisters_0;
    assert forall|k: int| 0 <= k < words.len() implies answer@[a - addr + k] == #[trigger] words[k] by {
        words_stand_in_order(*config, i, j, k);
        assert(crate::protocol::modbus_server::word_at(
            store@,
            crate::protocol::modbus_server::holding_area(*config),
            addr + (a - addr + k),
            answer@[a - addr + k],
        ));
    }
}

/// The same holds of input registers.
pub proof fn input_words_are_served_as_they_were_read(
    config: &Config,
    store: &MetricStore,
    addr: u16,
    cnt: u16,
    req: &ModbusRequest,
    out: ModbusOutcome,
    i: int,
    j: int,
    words: Seq<u16>,
    v: Real,
)
    requires
        *req == ModbusRequest::ReadInputRegisters(addr, cnt),
        call_ensures(handle, (config, store, req), out),
        0 <= i < config.devices@.len(),
        0 <= j < config.devices@[i].registers@.len(),
        config.devices@[i].registers@[j].function == RegisterFunction::Input,
        addr <= words_before(config.devices@, RegisterFunction::Input, i, j),
        words_before(config.devices@, RegisterFunction::Input, i, j) + words.len() <= addr + cnt,
        addr + cnt <= crate::protocol::modbus_server::input_area(*config).len(),
        ({
            let reg = config.devices@[i].registers@[j];
            &&& words.len() == reg.value_type.width()
            &&& crate::acquisition::decoder::decodes(words, reg.value_type, reg.word_order, v)
            &&& reg.value_type == ValueType::F32 ==> crate::number::magnitude32(
                crate::acquisition::decoder::combined(words, reg.word_order),
            ) <= crate::number::INFINITY32
            &&& reg.value_type == ValueType::Bool ==> words[0] <= 1
            &&& latest_is(store@, reg.sensor_id@, v)
        }),
    ensures
        out matches ModbusOutcome::Answer(ModbusResponse::ReadInputRegisters(answer)) && answer@.len() == cnt
            && forall|k: int|
            0 <= k < words.len() ==> answer@[words_before(config.devices@, RegisterFunction::Input, i, j) - addr + k]
                == #[trigger] words[k],
{
    let reg = config.devices@[i].registers@[j];
    let a = words_before(config.devices@, RegisterFunction::Input, i, j);
    crate::protocol::modbus_server::encoding_inverts_decoding(words, reg.value_type, reg.word_order, v);
    lemma_current(store@, reg.sensor_id@, v);
    assert(out is Answer);
    let answer = out->Answer_0->ReadInputRegisters_0;
    assert forall|k: int| 0 <= k < words.len() implies answer@[a - addr + k] == #[trigger] words[k] by {
        words_stand_in_order(*config, i, j, k);
        assert(crate::protocol::modbus_server::word_at(
            store@,
            crate::protocol::modbus_server::input_area(*config),
            addr + (a - addr + k),
            answer@[a - addr + k],
        ));
    }
}

/// A register write that reached its device reads back: once the device's word has
/// been sampled into the store, the same address answers the word that was written.
pub proof fn a_written_register_reads_back(
    config: &Config,
    store: &MetricStore,
    addr: u16,
    word: u16,
    write: &ModbusRequest,
    forwarded: ModbusOutcome,
    later: &MetricStore,
    read: &ModbusRequest,
    out: ModbusOutcome,
    w: PendingWrite,
    i: int,
    j: int,
    v: Real,
    landed: u16,
)
    requires
        *write == ModbusRequest::WriteSingleRegister(addr, word),
        call_ensures(handle, (config, store, write), forwarded),
        forwarded matches ModbusOutcome::Forward(p, _) && p == w,
        0 <= i < config.devices@.len(),
        0 <= j < config.devices@[i].registers@.len(),
        config.devices@[i].registers@[j].function == RegisterFunction::Holding,
        config.devices@[i].registers@[j].value_type == ValueType::U16,
        addr == words_before(config.devices@, RegisterFunction::Holding, i, j),
        w.value == WriteValue::Holding(landed),
        v.is_integer(landed as int),
        latest_is(later@, w.sensor_id@, v),
        *read == ModbusRequest::ReadHoldingRegisters(addr, 1),
        call_ensures(handle, (config, later, read), out),
    ensures
        out matches ModbusOutcome::Answer(ModbusResponse::ReadHoldingRegisters(answer)) && answer@ == seq![word],
{
    words_stand_in_order(*config, i, j, 0);
    holding_words_are_served_as_they_were_read(config, later, addr, 1, read, out, i, j, seq![landed], v);
    let answer = out->Answer_0->ReadHoldingRegisters_0;
    assert(answer@[0] == seq![landed][0]);
    assert(answer@ =~= seq![word]);
}

/// A computed sensor is served in single precision: a value that has one is read as
/// its bits, the higher word first.
pub proof fn a_computed_value_is_served(
    config: &Config,
    store: &MetricStore,
    addr: u16,
    req: &ModbusRequest,
    out: ModbusOutcome,
    k: int,
    b: u32,
    v: Real,
)
    requires
        *req == ModbusRequest::ReadInputRegisters(addr, 2),
        call_ensures(handle, (config, store, req), out),
        0 <= k < config.computed@.len(),
        addr == crate::protocol::modbus_server::all_register_words(*config, RegisterFunction::Input).len() + 2 * k,
        latest_is(store@, config.computed@[k].sensor_id@, v),
        crate::number::widens(b, v),
        crate::number::magnitude32(b) <= 0x7f80_0000,
    ensures
        out matches ModbusOutcome::Answer(ModbusResponse::ReadInputRegisters(words)) && words@.len() == 2 && words@[0]
            * 0x1_0000 + words@[1] == b,
{
    computed_sensors_stand_behind_registers(*config, k, 0);
    computed_sensors_stand_behind_registers(*config, k, 1);
    lemma_current(store@, config.computed@[k].sensor_id@, v);
    crate::number::single_is_narrowed_to_itself(b, v);
    assert(out is Answer);
    let words = out->Answer_0->ReadInputRegisters_0;
    assert(crate::protocol::modbus_server::word_at(
        store@,
        crate::protocol::modbus_server::input_area(*config),
        addr + 0,
        words@[0],
    ));
    assert(crate::protocol::modbus_server::word_at(
        store@,
        crate::protocol::modbus_server::input_area(*config),
        addr + 1,
        words@[1],
    ));
}

/// The sensor has neither a metric nor a raw sample.
pub open spec fn has_no_value(store: Map<Seq<char>, SensorState>, id: Seq<char>) -> bool {
    store.dom().contains(id) ==> store[id].metric is None && store[id].raw is None
}

/// A coil of a sensor that has no value yet reads as off.
pub proof fn a_coil_without_a_value_is_off(
    config: &Config,
    store: &MetricStore,
    addr: u16,
    cnt: u16,
    req: &ModbusRequest,
    out: ModbusOutcome,
    i: int,
    j: int,
)
    requires
        *req == ModbusRequest::ReadCoils(addr, cnt),
        call_ensures(handle, (config, store, req), out),
        0 <= i < config.devices@.len(),
        0 <= j < config.devices@[i].registers@.len(),
        config.devices@[i].registers@[j].function == RegisterFunction::Coil,
        addr <= bits_before(config.devices@, RegisterFunction::Coil, i, j) < addr + cnt,
        has_no_value(store@, config.devices@[i].registers@[j].sensor_id@),
    ensures
        out matches ModbusOutcome::Answer(ModbusResponse::ReadCoils(bits)) && bits@.len() == cnt && !bits@[bits_before(
            config.devices@,
            RegisterFunction::Coil,
            i,
            j,
        ) - addr],
{
    bits_stand_in_order(*config, i, j);
}

/// A holding register of a sensor that has no value yet reads as 65535 held to its type: a
/// word as all ones, a signed one as its highest number, a bool as on, a double
/// word with all ones in its lower word.
pub proof fn a_holding_register_without_a_value_is_marked(
    config: &Config,
    store: &MetricStore,
    addr: u16,
    cnt: u16,
    req: &ModbusRequest,
    out: ModbusOutcome,
    i: int,
    j: int,
    part: int,
)
    requires
        *req == ModbusRequest::ReadHoldingRegisters(addr, cnt),
        call_ensures(handle, (config, store, req), out),
        0 <= i < config.devices@.len(),
        0 <= j < config.devices@[i].registers@.len(),
        config.devices@[i].registers@[j].function == RegisterFunction::Holding,
        0 <= part < config.devices@[i].registers@[j].value_type.width(),
        addr <= words_before(config.devices@, RegisterFunction::Holding, i, j) + part < addr + cnt,
        addr + cnt <= crate::protocol::modbus_server::holding_area(*config).len(),
        has_no_value(store@, config.devices@[i].registers@[j].sensor_id@),
    ensures
        ({
            let reg = config.devices@[i].registers@[j];
            let at = words_before(config.devices@, RegisterFunction::Holding, i, j) + part - addr;
            out matches ModbusOutcome::Answer(ModbusResponse::ReadHoldingRegisters(answer)) && answer@.len() == cnt && {
                &&& (reg.value_type == ValueType::U16 ==> answer@[at] == 65535)
                &&& (reg.value_type == ValueType::I16 ==> answer@[at] == 32767)
                &&& (reg.value_type == ValueType::Bool ==> answer@[at] == 1)
                &&& ((reg.value_type == ValueType::U32 || reg.value_type == ValueType::I32) && (reg.word_order
                    == WordOrder::Big <==> part == 1) ==> answer@[at] == 65535)
                &&& ((reg.value_type == ValueType::U32 || reg.value_type == ValueType::I32) && (reg.word_order
                    == WordOrder::Big <==> part == 0) ==> answer@[at] == 0)
            }
        }),
{
    let reg = config.devices@[i].registers@[j];
    let a = words_before(config.devices@, RegisterFunction::Holding, i, j) + part;
    words_stand_in_order(*config, i, j, part);
    assert(out is Answer);
    let answer = out->Answer_0->ReadHoldingRegisters_0;
    let area = crate::protocol::modbus_server::holding_area(*config);
    let w = answer@[a - addr];
    assert(crate::protocol::modbus_server::word_at(store@, area, addr + (a - addr), w));
    let slot = area[a]->0;
    let v = choose|v: Real|
        {
            &&& match crate::protocol::modbus_server::current_value(store@, slot.sensor) {
                Some(x) => v == x,
                None => v.is_integer(0xffff),
            }
            &&& w == (if slot.index < crate::protocol::modbus_server::encoded(v, slot.value_type, slot.word_order).len() {
                (#[trigger] crate::protocol::modbus_server::encoded(v, slot.value_type, slot.word_order))[slot.index as int]
            } else {
                0xffff
            })
        };
    crate::number::integer_is_rounded_to_itself(v, 0xffff);
    crate::number::integer_is_zero(v, 0xffff);
}

/// An input register of a sensor that has no value yet reads as 65535 held to its type: a
/// word as all ones, a signed one as its highest number, a bool as on, a double
/// word with all ones in its lower word.
pub proof fn an_input_register_without_a_value_is_marked(
    config: &Config,
    store: &MetricStore,
    addr: u16,
    cnt: u16,
    req: &ModbusRequest,
    out: ModbusOutcome,
    i: int,
    j: int,
    part: int,
)
    requires
        *req == ModbusRequest::ReadInputRegisters(addr, cnt),
        call_ensures(handle, (config, store, req), out),
        0 <= i < config.devices@.len(),
        0 <= j < config.devices@[i].registers@.len(),
        config.devices@[i].registers@[j].function == RegisterFunction::Input,
        0 <= part < config.devices@[i].registers@[j].value_type.width(),
        addr <= words_before(config.devices@, RegisterFunction::Input, i, j) + part < addr + cnt,
        addr + cnt <= crate::protocol::modbus_server::input_area(*config).len(),
        has_no_value(store@, config.devices@[i].registers@[j].sensor_id@),
    ensures
        ({
            let reg = config.devices@[i].registers@[j];
            let at = words_before(config.devices@, RegisterFunction::Input, i, j) + part - addr;
            out matches ModbusOutcome::Answer(ModbusResponse::ReadInputRegisters(answer)) && answer@.len() == cnt && {
                &&& (reg.value_type == ValueType::U16 ==> answer@[at] == 65535)
                &&& (reg.value_type == ValueType::I16 ==> answer@[at] == 32767)
                &&& (reg.value_type == ValueType::Bool ==> answer@[at] == 1)
                &&& ((reg.value_type == ValueType::U32 || reg.value_type == ValueType::I32) && (reg.word_order
                    == WordOrder::Big <==> part == 1) ==> answer@[at] == 65535)
                &&& ((reg.value_type == ValueType::U32 || reg.value_type == ValueType::I32) && (reg.word_order
                    == WordOrder::Big <==> part == 0) ==> answer@[at] == 0)
            }
        }),
{
    let reg = config.devices@[i].registers@[j];
    let a = words_before(config.devices@, RegisterFunction::Input, i, j) + part;
    words_stand_in_order(*config, i, j, part);
    assert(out is Answer);
    let answer = out->Answer_0->ReadInputRegisters_0;
    let area = crate::protocol::modbus_server::input_area(*config);
    let w = answer@[a - addr];
    assert(crate::protocol::modbus_server::word_at(store@, area, addr + (a - addr), w));
    let slot = area[a]->0;
    let v = choose|v: Real|
        {
            &&& match crate::protocol::modbus_server::current_value(store@, slot.sensor) {
                Some(x) => v == x,
                None => v.is_integer(0xffff),
            }
            &&& w == (if slot.index < crate::protocol::modbus_server::encoded(v, slot.value_type, slot.word_order).len() {
                (#[trigger] crate::protocol::modbus_server::encoded(v, slot.value_type, slot.word_order))[slot.index as int]
            } else {
                0xffff
            })
        };
    crate::number::integer_is_rounded_to_itself(v, 0xffff);
    crate::number::integer_is_zero(v, 0xffff);
}

proof fn lemma_sim_device(ds: Seq<DeviceConfig>, i: int, k: int)
    requires
        0 <= i <= k < ds.len(),
        ds[k].transport == Transport::Sim,
        forall|j: int| i <= j < k ==> (#[trigger] ds[j]).transport != Transport::Sim,
    ensures
        crate::protocol::modbus_server::sim_device(ds, i) == ds[k].name@,
    decreases k - i,
{
    if i < k {
        lemma_sim_device(ds, i + 1, k);
    }
}

proof fn lemma_control_device(ks: Seq<SimControl>, device: Seq<char>, n: int, a: int)
    requires
        0 <= n <= ks.len(),
        0 <= a < crate::protocol::modbus_server::control_words(ks, device, n).len(),
    ensures
        crate::protocol::modbus_server::control_words(ks, device, n)[a] matches Some(w) && w.device == device,
    decreases n,
{
    if n > 0 {
        let before = crate::protocol::modbus_server::control_words(ks, device, n - 1);
        if a < before.len() {
            lemma_control_device(ks, device, n - 1, a);
        }
    }
}

/// A word written to the register of a control goes, as it is, to that control of
/// the first simulated device.
pub proof fn a_control_write_goes_to_the_simulated_device(
    config: &Config,
    store: &MetricStore,
    addr: u16,
    word: u16,
    req: &ModbusRequest,
    out: ModbusOutcome,
    k: int,
    d: int,
)
    requires
        *req == ModbusRequest::WriteSingleRegister(addr, word),
        call_ensures(handle, (config, store, req), out),
        0 <= k < config.sim.controls@.len(),
        config.sim.controls@[k].writable,
        addr == crate::protocol::modbus_server::all_register_words(*config, RegisterFunction::Holding).len()
            + writable_before(config.sim.controls@, k),
        0 <= d < config.devices@.len(),
        config.devices@[d].transport == Transport::Sim,
        forall|j: int| 0 <= j < d ==> (#[trigger] config.devices@[j]).transport != Transport::Sim,
    ensures
        out matches ModbusOutcome::Forward(w, reply) && w.device@ == config.devices@[d].name@ && w.sensor_id@
            == config.sim.controls@[k].name@ && w.value == WriteValue::Holding(word) && reply
            == ModbusResponse::WriteSingleRegister(addr, word),
{
    controls_stand_behind_registers(*config, k);
    lemma_control_slot(
        config.sim.controls@,
        crate::protocol::modbus_server::sim_device(config.devices@, 0),
        k,
        config.sim.controls@.len() as int,
    );
    lemma_sim_device(config.devices@, 0, d);
    let words = crate::protocol::modbus_server::all_control_words(*config);
    let registers = crate::protocol::modbus_server::all_register_words(*config, RegisterFunction::Holding);
    let area = crate::protocol::modbus_server::holding_area(*config);
    assert(area == registers + words);
    let a = addr - registers.len();
    assert(area[addr as int] == words[a]);
    lemma_control_device(
        config.sim.controls@,
        crate::protocol::modbus_server::sim_device(config.devices@, 0),
        config.sim.controls@.len() as int,
        a,
    );
}

} // verus!
