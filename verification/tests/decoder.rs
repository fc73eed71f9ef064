use telemux::acquisition::decoder::{combine, decode_words, raw_sample, raw_sample_bool};
use telemux::config::{Access, RegisterConfig, RegisterFunction, ValueType, WordOrder};
use telemux::number::Real;

fn number(r: Real) -> f64 {
    f64::from_bits(r.bits)
}

fn decoded(words: &[u16], value_type: ValueType, word_order: WordOrder) -> f64 {
    number(decode_words(&words.to_vec(), value_type, word_order))
}

fn register(value_type: ValueType) -> RegisterConfig {
    RegisterConfig {
        name: "r".into(),
        sensor_id: "s.r".into(),
        function: RegisterFunction::Holding,
        address: 0,
        count: Some(2),
        value_type,
        word_order: WordOrder::Big,
        unit: None,
        access: Access::Read,
    }
}

#[test]
fn decode_u16() {
    assert_eq!(decoded(&[0x1234], ValueType::U16, WordOrder::Big), 0x1234 as f64);
}

#[test]
fn decode_i16_negative() {
    assert_eq!(decoded(&[0xFFFF], ValueType::I16, WordOrder::Big), -1.0);
}

#[test]
fn decode_u32_big() {
    assert_eq!(decoded(&[0xDEAD, 0xBEEF], ValueType::U32, WordOrder::Big), 0xDEAD_BEEFu32 as f64);
}

#[test]
fn decode_u32_little() {
    assert_eq!(decoded(&[0xBEEF, 0xDEAD], ValueType::U32, WordOrder::Little), 0xDEAD_BEEFu32 as f64);
}

#[test]
fn decode_i32_negative() {
    assert_eq!(decoded(&[0xFFFF, 0xFFFE], ValueType::I32, WordOrder::Big), -2.0);
}

#[test]
fn decode_f32_big() {
    assert_eq!(decoded(&[0x4148, 0x0000], ValueType::F32, WordOrder::Big), 12.5);
}

#[test]
fn decode_f32_little() {
    assert_eq!(decoded(&[0x0000, 0x4148], ValueType::F32, WordOrder::Little), 12.5);
}

#[test]
fn raw_sample_rejects_short_response() {
    let reg = register(ValueType::F32);
    let r = raw_sample("dev", &reg, &vec![0x4148], 0);
    assert!(r.is_err());
    assert_eq!(
        r.unwrap_err().message(),
        "device `dev` register `r`: slave returned 1 register(s), 2 required by value_type F32"
    );
}

#[test]
fn decode_bool_words() {
    assert_eq!(decoded(&[0], ValueType::Bool, WordOrder::Big), 0.0);
    assert_eq!(decoded(&[7], ValueType::Bool, WordOrder::Big), 1.0);
}

#[test]
fn combines_two_words() {
    assert_eq!(combine(&vec![0x1234, 0x5678], WordOrder::Big), 0x1234_5678);
    assert_eq!(combine(&vec![0x1234, 0x5678], WordOrder::Little), 0x5678_1234);
}

#[test]
fn sample_takes_the_register_settings() {
    let mut reg = register(ValueType::U16);
    reg.unit = Some("kPa".into());
    let s = raw_sample("dev", &reg, &vec![42, 43], 1234).unwrap();
    assert_eq!(s.sensor_id.as_str(), "s.r");
    assert_eq!(s.name, "r");
    assert_eq!(number(s.raw_value), 42.0);
    assert_eq!(s.unit.as_deref(), Some("kPa"));
    assert_eq!(s.timestamp_ms(), 1234);
}

#[test]
fn bit_samples_need_a_bool_register() {
    let reg = register(ValueType::Bool);
    assert_eq!(number(raw_sample_bool("dev", &reg, true, 0).unwrap().raw_value), 1.0);
    assert_eq!(number(raw_sample_bool("dev", &reg, false, 0).unwrap().raw_value), 0.0);
    let e = raw_sample_bool("dev", &register(ValueType::U16), true, 0).unwrap_err();
    assert_eq!(
        e.message(),
        "device `dev` register `r`: register is not a bool register (value_type U16)"
    );
}
