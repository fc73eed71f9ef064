//! Decoding of register words into values, by the register's configuration.

use vstd::prelude::*;

use crate::acquisition::AcquisitionError;
use crate::config::{RegisterConfig, ValueType, WordOrder};
use crate::domain::{copy_text, RawSample, SensorId};
use crate::number::Real;
use crate::text::{decimal_text, join3, join5};

verus! {

/// The 32-bit word made of two registers.
pub open spec fn combined(words: Seq<u16>, order: WordOrder) -> u32 {
    match order {
        WordOrder::Big => (words[0] * 0x1_0000 + words[1]) as u32,
        WordOrder::Little => (words[1] * 0x1_0000 + words[0]) as u32,
    }
}

/// A 16-bit word read as a signed number.
pub open spec fn signed16(w: u16) -> int {
    if w >= 0x8000 {
        w - 0x1_0000
    } else {
        w as int
    }
}

/// A 32-bit word read as a signed number.
pub open spec fn signed32(w: u32) -> int {
    if w >= 0x8000_0000 {
        w - 0x1_0000_0000
    } else {
        w as int
    }
}

/// `r` is the value that the words hold.
pub open spec fn decodes(words: Seq<u16>, value_type: ValueType, order: WordOrder, r: Real) -> bool {
    match value_type {
        ValueType::U16 => r.is_integer(words[0] as int),
        ValueType::I16 => r.is_integer(signed16(words[0])),
        ValueType::U32 => r.is_integer(combined(words, order) as int),
        ValueType::I32 => r.is_integer(signed32(combined(words, order))),
        ValueType::F32 => crate::number::widens(combined(words, order), r),
        ValueType::Bool => r.is_integer(
            if words[0] != 0 {
                1
            } else {
                0
            },
        ),
    }
}

/// Combines two registers into a 32-bit word.
pub fn combine(words: &Vec<u16>, order: WordOrder) -> (r: u32)
    requires
        words@.len() >= 2,
    ensures
        r == combined(words@, order),
{
    match order {
        WordOrder::Big => words[0] as u32 * 0x1_0000 + words[1] as u32,
        WordOrder::Little => words[1] as u32 * 0x1_0000 + words[0] as u32,
    }
}

fn signed(w: u32, range: i64) -> (r: i64)
    requires
        range == 0x1_0000 || range == 0x1_0000_0000,
        w < range,
    ensures
        r == (if w >= range / 2 {
            w - range
        } else {
            w as int
        }),
{
    if w as i64 >= range / 2 {
        w as i64 - range
    } else {
        w as i64
    }
}

/// Decodes the words of one register read.
pub fn decode_words(words: &Vec<u16>, value_type: ValueType, word_order: WordOrder) -> (r: Real)
    requires
        words@.len() >= value_type.width(),
    ensures
        decodes(words@, value_type, word_order, r),
{
    match value_type {
        ValueType::U16 => Real::from_integer(words[0] as i64),
        ValueType::I16 => Real::from_integer(signed(words[0] as u32, 0x1_0000)),
        ValueType::U32 => Real::from_integer(combine(words, word_order) as i64),
        ValueType::I32 => Real::from_integer(signed(combine(words, word_order), 0x1_0000_0000)),
        ValueType::F32 => Real::from_single(combine(words, word_order)),
        ValueType::Bool => {
            if words[0] != 0 {
                Real::from_integer(1)
            } else {
                Real::from_integer(0)
            }
        },
    }
}

/// The message about a reply that is too short.
pub open spec fn short_reply(got: nat, value_type: ValueType) -> Seq<char> {
    "slave returned "@ + crate::text::decimal(got) + " register(s), "@ + crate::text::decimal(
        value_type.width() as nat,
    ) + " required by value_type "@ + crate::validation::value_type_name(value_type)
}

/// The message about a bit read for a register that is no bool.
pub open spec fn not_bool(value_type: ValueType) -> Seq<char> {
    "register is not a bool register (value_type "@ + crate::validation::value_type_name(value_type) + ")"@
}

/// `e` is the error of this register.
pub open spec fn register_error(e: AcquisitionError, device: Seq<char>, reg: RegisterConfig, message: Seq<char>) -> bool {
    e matches AcquisitionError::Register { device: d, name: n, message: m } && d@ == device && n@ == reg.name@ && m@
        == message
}

/// `s` is a sample of this register.
pub open spec fn sample_of(s: RawSample, reg: RegisterConfig, now: i64) -> bool {
    &&& s.sensor_id.0@ == reg.sensor_id@
    &&& s.name@ == reg.name@
    &&& s.unit == reg.unit
    &&& s.timestamp == now
}

/// A sample from the words that a register read returned at time `now`. A
/// reply that is too short is an error.
pub fn raw_sample(device: &str, reg: &RegisterConfig, words: &Vec<u16>, now: i64) -> (r: Result<RawSample, AcquisitionError>)
    ensures
        r is Ok <==> words@.len() >= reg.value_type.width(),
        r matches Ok(s) ==> sample_of(s, *reg, now) && decodes(
            words@,
            reg.value_type,
            reg.word_order,
            s.raw_value,
        ),
        r matches Err(e) ==> register_error(e, device@, *reg, short_reply(words@.len(), reg.value_type)),
{
    let need: usize = reg.value_type.register_count() as usize;
    if words.len() < need {
        let a = decimal_text(words.len() as u128);
        let b = decimal_text(need as u128);
        let mut message = join5(
            "slave returned ",
            a.as_str(),
            " register(s), ",
            b.as_str(),
            " required by value_type ",
        );
        message.append(crate::validation::value_type_label(reg.value_type));
        return Err(
            AcquisitionError::Register { device: device.to_owned(), name: reg.name.clone(), message },
        );
    }
    Ok(
        RawSample {
            sensor_id: SensorId(reg.sensor_id.clone()),
            name: reg.name.clone(),
            raw_value: decode_words(words, reg.value_type, reg.word_order),
            unit: copy_text(&reg.unit),
            timestamp: now,
        },
    )
}

/// A sample from a coil or discrete input read at time `now`. A register of
/// another type is an error.
pub fn raw_sample_bool(device: &str, reg: &RegisterConfig, value: bool, now: i64) -> (r: Result<
    RawSample,
    AcquisitionError,
>)
    ensures
        r is Ok <==> reg.value_type == ValueType::Bool,
        r matches Ok(s) ==> sample_of(s, *reg, now) && s.raw_value.is_integer(
            if value {
                1
            } else {
                0
            },
        ),
        r matches Err(e) ==> register_error(e, device@, *reg, not_bool(reg.value_type)),
{
    if reg.value_type != ValueType::Bool {
        let message = join3(
            "register is not a bool register (value_type ",
            crate::validation::value_type_label(reg.value_type),
            ")",
        );
        return Err(
            AcquisitionError::Register { device: device.to_owned(), name: reg.name.clone(), message },
        );
    }
    Ok(
        RawSample {
            sensor_id: SensorId(reg.sensor_id.clone()),
            name: reg.name.clone(),
            raw_value: if value {
                Real::from_integer(1)
            } else {
                Real::from_integer(0)
            },
            unit: copy_text(&reg.unit),
            timestamp: now,
        },
    )
}

} // verus!
