use telemux::acquisition::decoder::decode_words;
use telemux::acquisition::AcquisitionError;
use telemux::config::{
    Access, ComputedConfig, Config, DeviceConfig, EndpointsConfig, GeneralConfig, PipelineConfig, RegisterConfig,
    RegisterFunction, SimConfig, SimControl, StageConfig, Transport, ValueType, WordOrder,
};
use telemux::domain::{Metric, MetricStatus, RawSample, SensorId};
use telemux::number::Real;
use telemux::pipeline::describe::stage_numbers;
use telemux::protocol::modbus_server::{
    answer_write, build_table, encode_value, handle, read_bits, read_words, split32, value_of, write_bit, write_word,
    write_words, ModbusException, ModbusOutcome, ModbusRequest, ModbusResponse, ModbusTable,
};
use telemux::protocol::redfish::{
    chassis, chassis_collection, classify, classify_unit, device_exists, format_ts, not_found, planned_value, power,
    reading_type, reverse_scale, sensor, sensor_collection, sensor_json, sensor_json_given, service_root, status_json, thermal,
    trim_text, update_sensor, write_failed, Reversal, SensorKind,
};
use telemux::protocol::views::{build_views, latest_value, SensorView};
use telemux::protocol::{write_outcome, WriteError, WriteProgress, WriteValue};
use telemux::store::MetricStore;

fn num(v: f64) -> Real {
    Real { bits: v.to_bits() }
}

fn value(r: Real) -> f64 {
    f64::from_bits(r.bits)
}

fn register(
    name: &str,
    sensor_id: &str,
    function: RegisterFunction,
    access: Access,
    address: u16,
    value_type: ValueType,
    unit: &str,
) -> RegisterConfig {
    RegisterConfig {
        name: name.into(),
        sensor_id: sensor_id.into(),
        function,
        address,
        count: Some(value_type.register_count()),
        value_type,
        word_order: WordOrder::Big,
        unit: Some(unit.into()),
        access,
    }
}

fn device(registers: Vec<RegisterConfig>) -> DeviceConfig {
    DeviceConfig {
        name: "pcba-01".into(),
        transport: Transport::Tcp,
        unit_id: 1,
        host: "127.0.0.1".into(),
        port: 502,
        poll_interval_ms: 100,
        timeout_ms: 100,
        reconnect_initial_ms: 100,
        reconnect_max_ms: 1000,
        serial_port: None,
        baud_rate: None,
        registers,
    }
}

fn config(registers: Vec<RegisterConfig>, computed: Vec<ComputedConfig>) -> Config {
    Config {
        general: GeneralConfig::default(),
        devices: vec![device(registers)],
        pipelines: vec![],
        computed,
        endpoints: EndpointsConfig::default(),
        sim: SimConfig { controls: vec![], sensors: vec![] },
    }
}

fn dew(input: &str, expression: &str) -> ComputedConfig {
    ComputedConfig {
        sensor_id: "s.dew".into(),
        name: "dew".into(),
        unit: Some("°C".into()),
        inputs: vec![("t".into(), input.into())],
        expression: expression.into(),
    }
}

fn sample_config() -> Config {
    config(
        vec![
            register("fan1_duty", "s.fan_duty", RegisterFunction::Holding, Access::ReadWrite, 10, ValueType::U16, "%"),
            register("vcore", "s.vcore", RegisterFunction::Input, Access::Read, 4, ValueType::F32, "V"),
            register("leak", "s.leak", RegisterFunction::DiscreteInput, Access::Read, 0, ValueType::Bool, "leak"),
        ],
        vec![dew("s.vcore", "t")],
    )
}

fn raw(id: &str, v: f64) -> RawSample {
    RawSample { sensor_id: SensorId(id.into()), name: id.into(), raw_value: num(v), unit: None, timestamp: 1500 }
}

fn metric(id: &str, v: f64, status: MetricStatus) -> Metric {
    Metric { sensor_id: SensorId(id.into()), value: num(v), unit: None, status, timestamp: 2500 }
}

fn shown(config: &Config) -> Vec<Vec<Vec<String>>> {
    config
        .pipelines
        .iter()
        .map(|p| {
            p.stages
                .iter()
                .map(|s| stage_numbers(s).iter().map(|r| value(*r).to_string()).collect())
                .collect()
        })
        .collect()
}

fn views_of(config: &Config, store: &MetricStore) -> Vec<SensorView> {
    build_views(config, store, &shown(config))
}

// ---- the Modbus server ----

#[test]
fn table_lays_out_four_areas() {
    let table = build_table(&sample_config());
    assert_eq!(table.holding.len(), 1);
    assert_eq!(table.holding[0].as_ref().unwrap().sensor_id, "s.fan_duty");
    assert_eq!(table.holding[0].as_ref().unwrap().word_index, 0);
    assert_eq!(table.inputs.len(), 4);
    assert_eq!(table.inputs[0].as_ref().unwrap().sensor_id, "s.vcore");
    assert_eq!(table.inputs[1].as_ref().unwrap().word_index, 1);
    assert_eq!(table.inputs[2].as_ref().unwrap().sensor_id, "s.dew");
    assert_eq!(table.discrete_inputs.len(), 1);
    assert_eq!(table.coils.len(), 0);
}

#[test]
fn encodes_values_per_type() {
    assert_eq!(encode_value(num(27.4), ValueType::U16, WordOrder::Big), vec![27]);
    assert_eq!(encode_value(num(-2.0), ValueType::I16, WordOrder::Big), vec![0xFFFE]);
    assert_eq!(
        encode_value(num(0xDEAD_BEEFu32 as f64), ValueType::U32, WordOrder::Big),
        vec![0xDEAD, 0xBEEF]
    );
    assert_eq!(encode_value(num(12.5), ValueType::F32, WordOrder::Big), vec![0x4148, 0x0000]);
    assert_eq!(encode_value(num(12.5), ValueType::F32, WordOrder::Little), vec![0x0000, 0x4148]);
    assert_eq!(encode_value(num(1.0), ValueType::Bool, WordOrder::Big), vec![1]);
}

#[test]
fn encoding_saturates_and_rounds() {
    assert_eq!(encode_value(num(-3.0), ValueType::U16, WordOrder::Big), vec![0]);
    assert_eq!(encode_value(num(70000.0), ValueType::U16, WordOrder::Big), vec![0xFFFF]);
    assert_eq!(encode_value(num(0.5), ValueType::U16, WordOrder::Big), vec![1]);
    assert_eq!(encode_value(num(-40000.0), ValueType::I16, WordOrder::Big), vec![0x8000]);
    assert_eq!(encode_value(num(f64::NAN), ValueType::U16, WordOrder::Big), vec![0]);
    assert_eq!(encode_value(num(-1.0), ValueType::I32, WordOrder::Little), vec![0xFFFF, 0xFFFF]);
    assert_eq!(encode_value(num(0.0), ValueType::Bool, WordOrder::Big), vec![0]);
    assert_eq!(split32(0x0001_0002, WordOrder::Little), vec![2, 1]);
}

#[test]
fn encoding_gives_decoded_words_back() {
    for words in [vec![0x0000u16, 0x0001], vec![0x4148, 0x0000], vec![0xC148, 0x1234], vec![0xFFFF, 0x0000]] {
        for order in [WordOrder::Big, WordOrder::Little] {
            for t in [ValueType::U32, ValueType::I32] {
                assert_eq!(encode_value(decode_words(&words, t, order), t, order), words);
            }
        }
    }
    let f = vec![0x4148, 0x0001];
    let back = encode_value(decode_words(&f, ValueType::F32, WordOrder::Big), ValueType::F32, WordOrder::Big);
    assert_eq!(back, f);
}

#[test]
fn read_out_of_range_is_illegal_data_address() {
    let store = MetricStore::new();
    let table = build_table(&sample_config());
    let err = read_words(&store, &table.holding, 0, 2).unwrap_err();
    assert_eq!(err, ModbusException::IllegalDataAddress);
    let err = read_words(&store, &table.holding, 5, 1).unwrap_err();
    assert_eq!(err, ModbusException::IllegalDataAddress);
}

#[test]
fn read_missing_slot_returns_placeholder() {
    let store = MetricStore::new();
    let table = build_table(&sample_config());
    let bits = read_bits(&store, &table.coils, 0, 3);
    assert_eq!(bits, vec![false, false, false]);
    let words = read_words(&store, &table.holding, 0, 1).unwrap();
    assert_eq!(words, vec![0xFFFF]);
}

#[test]
fn write_readonly_register_is_illegal_function() {
    let table = build_table(&sample_config());
    let err = write_bit(&table.discrete_inputs, 0, true).unwrap_err();
    assert_eq!(err, ModbusException::IllegalFunction);
    let w = write_word(&table.holding, 0, 60).unwrap();
    assert_eq!((w.device.as_str(), w.sensor_id.as_str()), ("pcba-01", "s.fan_duty"));
    assert_eq!(w.value, WriteValue::Holding(60));
}

#[test]
fn requests_are_answered_from_the_store() {
    let config = sample_config();
    let mut store = MetricStore::new();
    store.update_raw(raw("s.fan_duty", 55.0));
    store.update_raw(raw("s.leak", 1.0));
    store.update_metric(Some(raw("s.vcore", 1.0)), metric("s.vcore", 12.5, MetricStatus::Normal));
    assert_eq!(value_of(&store, &"s.vcore".to_string()).map(value), Some(12.5));
    match handle(&config, &store, &ModbusRequest::ReadHoldingRegisters(0, 1)) {
        ModbusOutcome::Answer(ModbusResponse::ReadHoldingRegisters(w)) => assert_eq!(w, vec![55]),
        other => panic!("{other:?}"),
    }
    match handle(&config, &store, &ModbusRequest::ReadInputRegisters(0, 4)) {
        ModbusOutcome::Answer(ModbusResponse::ReadInputRegisters(w)) => {
            assert_eq!(w, vec![0x4148, 0x0000, 0x477F, 0xFF00])
        }
        other => panic!("{other:?}"),
    }
    match handle(&config, &store, &ModbusRequest::ReadDiscreteInputs(0, 2)) {
        ModbusOutcome::Answer(ModbusResponse::ReadDiscreteInputs(b)) => assert_eq!(b, vec![true, false]),
        other => panic!("{other:?}"),
    }
    match handle(&config, &store, &ModbusRequest::WriteSingleRegister(0, 70)) {
        ModbusOutcome::Forward(w, reply) => {
            assert_eq!(w.value, WriteValue::Holding(70));
            assert!(matches!(answer_write(false, reply), Err(ModbusException::ServerDeviceFailure)));
        }
        other => panic!("{other:?}"),
    }
    match handle(&config, &store, &ModbusRequest::WriteSingleRegister(9, 70)) {
        ModbusOutcome::Refuse(e) => assert_eq!(e, ModbusException::IllegalDataAddress),
        other => panic!("{other:?}"),
    }
    match handle(&config, &store, &ModbusRequest::WriteMultipleRegisters(0, vec![7, 8])) {
        ModbusOutcome::Forward(w, reply) => {
            assert_eq!(w.value, WriteValue::Holding(7));
            assert!(matches!(
                answer_write(true, reply),
                Ok(ModbusResponse::WriteMultipleRegisters(0, 2))
            ));
        }
        other => panic!("{other:?}"),
    }
    match handle(&config, &store, &ModbusRequest::Other) {
        ModbusOutcome::Refuse(e) => assert_eq!(e, ModbusException::IllegalFunction),
        other => panic!("{other:?}"),
    }
}

#[test]
fn redfish_and_modbus_show_the_same_value() {
    let config = sample_config();
    let mut store = MetricStore::new();
    store.update_metric(Some(raw("s.fan_duty", 1.0)), metric("s.fan_duty", 55.0, MetricStatus::Normal));
    let views = views_of(&config, &store);
    for view in &views {
        assert_eq!(view.value, value_of(&store, &view.sensor_id));
    }
    assert_eq!(sensor(&views, "pcba-01", "s.fan_duty").unwrap().reading.map(value), Some(55.0));
    let table = build_table(&config);
    assert_eq!(read_words(&store, &table.holding, 0, 1).unwrap(), vec![55]);
}

#[test]
fn an_empty_table_has_no_slots() {
    let table = ModbusTable::default();
    assert_eq!(write_word(&table.holding, 0, 1).unwrap_err(), ModbusException::IllegalDataAddress);
    assert_eq!(
        write_words(&table.holding, 0, &vec![]).unwrap_err(),
        ModbusException::IllegalDataAddress
    );
}

#[test]
fn an_added_coil_moves_nothing() {
    let mut before = sample_config();
    before.sim.controls = vec![SimControl { name: "duty".into(), initial: num(1.0), unit: None, writable: true }];
    let mut after = before.clone();
    let coil = register("relay", "s.relay", RegisterFunction::Coil, Access::ReadWrite, 0, ValueType::Bool, "");
    after.add_register("pcba-01", coil, None).unwrap();
    let (a, b) = (build_table(&before), build_table(&after));
    assert_eq!((a.coils.len(), b.coils.len()), (0, 1));
    assert_eq!(format!("{:?}", a.holding), format!("{:?}", b.holding));
    assert_eq!(format!("{:?}", a.inputs), format!("{:?}", b.inputs));
}

#[test]
fn appended_registers_keep_addresses() {
    let before = build_table(&sample_config());
    let mut longer = sample_config();
    longer.devices[0].registers.push(register(
        "fan2_duty",
        "s.fan2",
        RegisterFunction::Holding,
        Access::ReadWrite,
        11,
        ValueType::U16,
        "%",
    ));
    let after = build_table(&longer);
    assert_eq!(after.holding.len(), before.holding.len() + 1);
    assert_eq!(
        after.holding[0].as_ref().unwrap().sensor_id,
        before.holding[0].as_ref().unwrap().sensor_id
    );
}

// ---- views ----

#[test]
fn views_include_registers_and_computed() {
    let cfg = config(
        vec![register("r1", "s.r1", RegisterFunction::Input, Access::Read, 0, ValueType::U16, "°C")],
        vec![dew("s.r1", "t * 2")],
    );
    let store = MetricStore::new();
    let views = views_of(&cfg, &store);
    assert_eq!(views.len(), 2);
    assert!(!views[0].is_computed);
    assert!(views[1].is_computed);
    assert!(views[1].value.is_none());
}

#[test]
fn views_show_the_latest_value_and_formula() {
    let mut cfg = sample_config();
    cfg.pipelines = vec![PipelineConfig {
        sensor_id: "s.fan_duty".into(),
        stages: vec![StageConfig::Scale { scale: num(0.5), offset: num(0.0), unit: Some("%".into()) }],
    }];
    let mut store = MetricStore::new();
    store.update_raw(raw("s.vcore", 3.5));
    store.update_metric(Some(raw("s.fan_duty", 50.0)), metric("s.fan_duty", 25.0, MetricStatus::Warning));
    let views = views_of(&cfg, &store);
    assert_eq!(views[0].value.map(value), Some(25.0));
    assert_eq!(views[0].status, MetricStatus::Warning);
    assert_eq!(views[0].timestamp_ms, Some(2500));
    assert_eq!(views[0].formula.as_deref(), Some("v = v × 0.5 → %"));
    assert_eq!(views[1].value.map(value), Some(3.5));
    assert_eq!(views[1].status, MetricStatus::Unknown);
    assert_eq!(views[1].timestamp_ms, Some(1500));
    let (v, s, t) = latest_value(&store, &"s.none".to_string());
    assert_eq!((v, s, t), (None, MetricStatus::Unknown, None));
}

// ---- Redfish ----

fn writable_config() -> Config {
    config(
        vec![register(
            "fan_duty",
            "pcba-01.fan_duty",
            RegisterFunction::Holding,
            Access::ReadWrite,
            0,
            ValueType::U16,
            "%",
        )],
        vec![],
    )
}

#[test]
fn service_root_and_collection() {
    let root = service_root();
    assert!(root.resource_type.contains("ServiceRoot"));
    assert_eq!((root.path, root.chassis), ("/redfish/v1", "/redfish/v1/Chassis"));
    assert_eq!((root.id, root.name, root.version), ("RootService", "Telemux Redfish Service", "1.16.0"));
    assert_eq!(root.uuid, "telemux-0000-0000-0000-000000000001");
    assert_eq!(chassis_collection(&writable_config()), vec!["/redfish/v1/Chassis/pcba-01"]);
}

#[test]
fn unknown_chassis_is_404() {
    let cfg = writable_config();
    let views = views_of(&cfg, &MetricStore::new());
    assert!(device_exists(&cfg, "pcba-01") && !device_exists(&cfg, "nope"));
    assert_eq!(chassis(&cfg, &views, "nope").unwrap_err().message, "chassis `nope` not found");
    assert_eq!(sensor_collection(&cfg, &views, "nope").unwrap_err().message, "chassis `nope` not found");
    assert_eq!(thermal(&cfg, &views, "nope").unwrap_err().message, "chassis `nope` not found");
    assert_eq!(power(&cfg, &views, "nope").unwrap_err().message, "chassis `nope` not found");
    assert_eq!(not_found("x").message, "x not found");
}

#[test]
fn unknown_sensor_is_404() {
    let cfg = writable_config();
    let views = views_of(&cfg, &MetricStore::new());
    assert_eq!(
        sensor(&views, "pcba-01", "nope").unwrap_err().message,
        "sensor `nope` on chassis `pcba-01` not found"
    );
    let e = update_sensor(&cfg, &views, "nope", Some(num(1.0))).unwrap_err();
    assert_eq!((e.status, e.message.as_str()), (404, "sensor `nope` not found"));
}

#[test]
fn patch_without_reading_is_400() {
    let cfg = writable_config();
    let views = views_of(&cfg, &MetricStore::new());
    let e = update_sensor(&cfg, &views, "pcba-01.fan_duty", None).unwrap_err();
    assert_eq!(e.status, 400);
}

#[test]
fn patch_writable_sensor_fails_without_broker_device() {
    let cfg = writable_config();
    let views = views_of(&cfg, &MetricStore::new());
    let plan = update_sensor(&cfg, &views, "pcba-01.fan_duty", Some(num(60.0))).unwrap();
    assert_eq!(plan.reversal, Reversal::Identity);
    assert_eq!(planned_value(&plan, plan.reading), WriteValue::Holding(60));
    let e = write_failed(&WriteError::UnknownDevice("pcba-01".into()));
    assert_eq!(e.status, 503);
    assert!(e.message.contains("write failed"));
    assert_eq!(e.message, "write failed: unknown device `pcba-01` (no poll task for it)");
}

#[test]
fn read_only_and_computed_sensors_refuse_writes() {
    let cfg = sample_config();
    let views = views_of(&cfg, &MetricStore::new());
    let e = update_sensor(&cfg, &views, "s.vcore", Some(num(1.0))).unwrap_err();
    assert_eq!((e.status, e.message.as_str()), (405, "sensor is not writable"));
    let e = update_sensor(&cfg, &views, "s.dew", Some(num(1.0))).unwrap_err();
    assert_eq!(e.status, 405);
}

#[test]
fn writes_reverse_the_first_scale() {
    let mut cfg = writable_config();
    let scale = |k: f64, o: f64| StageConfig::Scale { scale: num(k), offset: num(o), unit: None };
    cfg.pipelines = vec![PipelineConfig {
        sensor_id: "pcba-01.fan_duty".into(),
        stages: vec![StageConfig::Median { window: 3 }, scale(0.5, 10.0), scale(2.0, 0.0)],
    }];
    assert_eq!(
        reverse_scale(&cfg, "pcba-01.fan_duty"),
        Reversal::Linear { scale: num(0.5), offset: num(10.0) }
    );
    cfg.pipelines[0].stages = vec![scale(0.0, 10.0)];
    assert_eq!(reverse_scale(&cfg, "pcba-01.fan_duty"), Reversal::Identity);
    assert_eq!(reverse_scale(&cfg, "other"), Reversal::Identity);
}

#[test]
fn written_values_are_truncated_and_held_in_range() {
    let cfg = writable_config();
    let views = views_of(&cfg, &MetricStore::new());
    let plan = update_sensor(&cfg, &views, "pcba-01.fan_duty", Some(num(60.9))).unwrap();
    assert_eq!(planned_value(&plan, num(60.9)), WriteValue::Holding(60));
    assert_eq!(planned_value(&plan, num(-1.0)), WriteValue::Holding(0));
    assert_eq!(planned_value(&plan, num(1e9)), WriteValue::Holding(0xFFFF));
    let mut coil = plan;
    coil.function = RegisterFunction::Coil;
    assert_eq!(planned_value(&coil, num(0.1)), WriteValue::Coil(true));
    assert_eq!(planned_value(&coil, num(0.0)), WriteValue::Coil(false));
}

#[test]
fn units_are_classified_without_case_and_spaces() {
    let mut cfg = writable_config();
    for (unit, kind) in [
        ("  °C ", SensorKind::Temperature),
        ("C", SensorKind::Temperature),
        ("Deg C", SensorKind::Temperature),
        ("RPM", SensorKind::Fan),
        ("mV", SensorKind::Voltage),
        ("", SensorKind::Other),
        ("%", SensorKind::Other),
    ] {
        cfg.devices[0].registers[0].unit = Some(unit.into());
        let views = views_of(&cfg, &MetricStore::new());
        assert_eq!(classify(&views[0]), kind, "unit {unit:?}");
        assert_eq!(sensor_json(&views[0]).reading_type, reading_type(kind));
    }
    assert_eq!(classify_unit("°C"), SensorKind::Other);
    assert_eq!(classify_unit("°c"), SensorKind::Temperature);
    assert_eq!(reading_type(SensorKind::Fan), "Rotational");
}

#[test]
fn sensors_show_status_and_reading() {
    let cfg = writable_config();
    let mut store = MetricStore::new();
    let views = views_of(&cfg, &store);
    assert_eq!((status_json(&views[0]).state, status_json(&views[0]).health), ("Disabled", "NA"));
    store.update_metric(None, metric("pcba-01.fan_duty", 40.0, MetricStatus::Critical));
    let views = views_of(&cfg, &store);
    let s = sensor_json_given(&views[0], SensorKind::Fan);
    assert_eq!((s.status.state, s.status.health), ("Enabled", "Critical"));
    assert_eq!(s.reading.map(value), Some(40.0));
    assert_eq!(s.reading_units.as_deref(), Some("%"));
    assert_eq!(s.reading_type, "Rotational");
    assert_eq!(s.register.as_ref().unwrap().access, "read_write");
    assert_eq!(format_ts(2500), (2, 500_000_000));
}

#[test]
fn thermal_and_power_sort_sensors_by_kind() {
    let cfg = config(
        vec![
            register("t", "s.t", RegisterFunction::Input, Access::Read, 0, ValueType::U16, "°C"),
            register("f", "s.f", RegisterFunction::Input, Access::Read, 1, ValueType::U16, "rpm"),
            register("v", "s.v", RegisterFunction::Input, Access::Read, 2, ValueType::U16, "V"),
        ],
        vec![dew("s.t", "t")],
    );
    let views = views_of(&cfg, &MetricStore::new());
    let t = thermal(&cfg, &views, "pcba-01").unwrap();
    assert_eq!(t.temperatures.iter().map(|s| s.id.as_str()).collect::<Vec<_>>(), vec!["s.t", "s.dew"]);
    assert_eq!(t.fans.iter().map(|s| s.id.as_str()).collect::<Vec<_>>(), vec!["s.f"]);
    let p = power(&cfg, &views, "pcba-01").unwrap();
    assert_eq!(p.iter().map(|s| s.id.as_str()).collect::<Vec<_>>(), vec!["s.v"]);
    assert_eq!(sensor_collection(&cfg, &views, "pcba-01").unwrap().len(), 4);
    assert_eq!(chassis(&cfg, &views, "pcba-01").unwrap().id, "pcba-01");
    assert_eq!(sensor(&views, "pcba-01", "s.v").unwrap().name, "v");
}

#[test]
fn writes_come_to_what_their_progress_says() {
    let outcome = |p: WriteProgress| write_outcome("d", p);
    assert!(outcome(WriteProgress::Answered(Ok(()))).is_ok());
    assert!(matches!(outcome(WriteProgress::NoTask), Err(WriteError::UnknownDevice(d)) if d == "d"));
    assert!(matches!(outcome(WriteProgress::Closed), Err(WriteError::BrokerClosed)));
    assert!(matches!(outcome(WriteProgress::Unanswered), Err(WriteError::NoReply)));
    assert!(matches!(
        outcome(WriteProgress::Answered(Err(AcquisitionError::Timeout(5)))),
        Err(WriteError::Acquisition(AcquisitionError::Timeout(5)))
    ));
}

#[test]
fn write_errors_have_texts() {
    assert_eq!(WriteError::BrokerClosed.message(), "write channel closed");
    assert_eq!(WriteError::NoReply.message(), "no reply from acquisition layer");
    assert_eq!(
        WriteError::Acquisition(AcquisitionError::Timeout(1500)).message(),
        "acquisition error: request timed out after 1.5s"
    );
}

#[test]
fn white_space_is_trimmed_as_std_does() {
    for c in '\0'..=char::MAX {
        let text = format!("{c}{c}a {c}b{c}");
        assert_eq!(trim_text(&text), text.trim(), "{:#x}", c as u32);
    }
    assert_eq!((trim_text(""), trim_text(" \u{3000}\t")), ("", ""));
}
