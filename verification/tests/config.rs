use telemux::config::{
    Access, AggregateMode, ComputedConfig, Config, DeviceConfig, EndpointsConfig, GeneralConfig, LogLevel,
    PipelineConfig, RegisterConfig, RegisterFunction, SimConfig, SimControl, SimSensor, StageConfig, Transport,
    ValueType, WordOrder,
};
use telemux::number::Real;
use telemux::readability::{pipeline_is_readable, stage_is_readable};

fn num(v: f64) -> Real {
    Real { bits: v.to_bits() }
}

fn register(name: &str, sensor_id: &str, address: u16) -> RegisterConfig {
    RegisterConfig {
        name: name.into(),
        sensor_id: sensor_id.into(),
        function: RegisterFunction::Holding,
        address,
        count: None,
        value_type: ValueType::default(),
        word_order: WordOrder::default(),
        unit: None,
        access: Access::default(),
    }
}

fn device(name: &str, registers: Vec<RegisterConfig>) -> DeviceConfig {
    DeviceConfig {
        name: name.into(),
        transport: Transport::default(),
        unit_id: telemux::config::default_unit_id(),
        host: "127.0.0.1".into(),
        port: telemux::config::default_port(),
        poll_interval_ms: telemux::config::default_poll_interval_ms(),
        timeout_ms: telemux::config::default_timeout_ms(),
        reconnect_initial_ms: telemux::config::default_reconnect_initial_ms(),
        reconnect_max_ms: telemux::config::default_reconnect_max_ms(),
        serial_port: None,
        baud_rate: None,
        registers,
    }
}

fn config(devices: Vec<DeviceConfig>) -> Config {
    Config {
        general: GeneralConfig::default(),
        devices,
        pipelines: vec![],
        computed: vec![],
        endpoints: EndpointsConfig::default(),
        sim: SimConfig { controls: vec![], sensors: vec![] },
    }
}

fn one_register() -> Config {
    config(vec![device("a", vec![register("r1", "s.1", 0)])])
}

fn scale(factor: f64) -> StageConfig {
    StageConfig::Scale { scale: num(factor), offset: num(0.0), unit: None }
}

fn pipeline(sensor_id: &str, stages: Vec<StageConfig>) -> PipelineConfig {
    PipelineConfig { sensor_id: sensor_id.into(), stages }
}

fn computed(id: &str, expression: &str, inputs: &[(&str, &str)]) -> ComputedConfig {
    ComputedConfig {
        sensor_id: id.into(),
        name: id.into(),
        unit: None,
        inputs: inputs.iter().map(|(v, t)| (v.to_string(), t.to_string())).collect(),
        expression: expression.into(),
    }
}

fn valid_config() -> Config {
    let mut cpu = register("cpu_temp_raw", "pcba-01.cpu_temp", 0);
    cpu.unit = Some("counts".into());
    let mut voltage = register("voltage_raw", "pcba-01.voltage", 4);
    voltage.count = Some(2);
    voltage.value_type = ValueType::F32;
    voltage.word_order = WordOrder::Big;
    let mut d = device("pcba-01", vec![cpu, voltage]);
    d.port = 1502;
    d.unit_id = 1;
    d.poll_interval_ms = 500;
    let mut c = config(vec![d]);
    c.general.log_level = LogLevel::Debug;
    c
}

#[test]
fn parses_pipeline_sections() {
    let mut cfg = one_register();
    cfg.pipelines = vec![pipeline(
        "s.1",
        vec![
            StageConfig::Scale { scale: num(0.1), offset: num(0.0), unit: Some("°C".into()) },
            StageConfig::Threshold {
                low_warning: None,
                high_warning: Some(num(80.0)),
                low_critical: None,
                high_critical: None,
            },
        ],
    )];
    assert_eq!(cfg.pipelines.len(), 1);
    let pipe = &cfg.pipelines[0];
    assert_eq!(pipe.sensor_id, "s.1");
    assert_eq!(pipe.stages.len(), 2);
    cfg.validate().unwrap();
}

#[test]
fn rejects_pipeline_for_unknown_sensor() {
    let mut cfg = one_register();
    cfg.pipelines = vec![pipeline("s.nope", vec![scale(1.0)])];
    let err = cfg.validate().unwrap_err().to_string();
    assert!(err.contains("does not match any device register"), "got: {err}");
}

#[test]
fn rejects_duplicate_pipeline_for_sensor() {
    let mut cfg = one_register();
    cfg.pipelines = vec![pipeline("s.1", vec![scale(1.0)]), pipeline("s.1", vec![scale(2.0)])];
    let err = cfg.validate().unwrap_err().to_string();
    assert!(err.contains("only one pipeline per sensor"), "got: {err}");
}

#[test]
fn rejects_invalid_stage_expression() {
    let mut cfg = one_register();
    cfg.pipelines = vec![pipeline("s.1", vec![StageConfig::Math { expression: "v +* 2".into() }])];
    let err = cfg.validate().unwrap_err().to_string();
    assert!(err.contains("invalid expression"), "got: {err}");
}

#[test]
fn parses_valid_config() {
    let cfg = valid_config();
    assert_eq!(cfg.devices.len(), 1);
    let dev = &cfg.devices[0];
    assert_eq!(dev.host, "127.0.0.1");
    assert_eq!(dev.port, 1502);
    assert_eq!(dev.registers.len(), 2);
    assert_eq!(dev.registers[0].effective_count(), 1);
    assert_eq!(dev.registers[1].effective_count(), 2);
    cfg.validate().unwrap();
}

#[test]
fn rejects_duplicate_sensor_id() {
    let cfg = config(vec![device("a", vec![register("r1", "s.dup", 0), register("r2", "s.dup", 10)])]);
    let err = cfg.validate().unwrap_err().to_string();
    assert!(err.contains("duplicate sensor_id"), "got: {err}");
}

#[test]
fn rejects_overlapping_register_ranges() {
    let mut cfg = config(vec![device("a", vec![register("r1", "s1", 0), register("r2", "s2", 1)])]);
    cfg.devices[0].registers[0].value_type = ValueType::U32;
    let err = cfg.validate().unwrap_err().to_string();
    assert!(err.contains("overlaps"), "got: {err}");
}

#[test]
fn rejects_rtu_without_serial_port() {
    let mut cfg = config(vec![device("a", vec![register("r1", "s1", 0)])]);
    cfg.devices[0].transport = Transport::Rtu;
    cfg.devices[0].host = "".into();
    let err = cfg.validate().unwrap_err().to_string();
    assert!(err.contains("serial_port"), "got: {err}");
}

#[test]
fn rejects_unit_id_out_of_range() {
    let mut cfg = config(vec![device("a", vec![register("r1", "s1", 0)])]);
    cfg.devices[0].unit_id = 250;
    let err = cfg.validate().unwrap_err().to_string();
    assert!(err.contains("unit_id"), "got: {err}");
}

#[test]
fn rejects_mismatched_count() {
    let mut cfg = config(vec![device("a", vec![register("r1", "s1", 0)])]);
    cfg.devices[0].registers[0].value_type = ValueType::F32;
    cfg.devices[0].registers[0].count = Some(1);
    let err = cfg.validate().unwrap_err().to_string();
    assert!(err.contains("count"), "got: {err}");
}

#[test]
fn rejects_computed_cycle() {
    let mut cfg = config(vec![device("a", vec![register("r1", "s1", 0)])]);
    cfg.computed = vec![computed("c1", "b + 1", &[("b", "c2")]), computed("c2", "a + 1", &[("a", "c1")])];
    let err = cfg.validate().unwrap_err().to_string();
    assert!(err.contains("cycle"), "got: {err}");
}

#[test]
fn rejects_computed_unknown_input() {
    let mut cfg = config(vec![device("a", vec![register("r1", "s1", 0)])]);
    cfg.computed = vec![computed("c1", "x * 2", &[("x", "s.does_not_exist")])];
    let err = cfg.validate().unwrap_err().to_string();
    assert!(err.contains("unknown sensor_id"), "got: {err}");
}

#[test]
fn accepts_chained_computed_no_cycle() {
    let mut cfg = config(vec![device("a", vec![register("r1", "s1", 0)])]);
    cfg.computed = vec![computed("c1", "v * 2", &[("v", "s1")]), computed("c2", "c1v + 1", &[("c1v", "c1")])];
    cfg.validate().unwrap();
}

#[test]
fn rejects_sim_sensor_unknown_input() {
    let mut d = device("a", vec![]);
    d.transport = Transport::Sim;
    d.host = "".into();
    let mut cfg = config(vec![d]);
    cfg.sim = SimConfig {
        controls: vec![SimControl { name: "duty".into(), initial: num(50.0), unit: None, writable: true }],
        sensors: vec![SimSensor {
            sensor_id: "s.flow".into(),
            name: "Flow".into(),
            kind: "flow".into(),
            unit: None,
            formula: "duty * x".into(),
            inputs: vec![("x".into(), "s.nope".into())],
        }],
    };
    let err = cfg.validate().unwrap_err().to_string();
    assert!(err.contains("unknown target"), "got: {err}");
}

// ---- every other rule ----

fn message(cfg: &Config) -> String {
    cfg.validate().unwrap_err()
}

#[test]
fn rejects_each_broken_device_setting() {
    let broken = |change: fn(&mut Config)| {
        let mut cfg = one_register();
        change(&mut cfg);
        message(&cfg)
    };
    assert_eq!(broken(|c| c.devices.clear()), "at least one [[devices]] entry is required");
    assert_eq!(
        broken(|c| c.devices = (0..65).map(|_| device("x", vec![])).collect()),
        "too many devices (65), max 64"
    );
    assert_eq!(broken(|c| c.devices.push(device("a", vec![]))), "duplicate device name `a`");
    assert_eq!(broken(|c| c.devices[0].unit_id = 248), "device `a`: unit_id 248 out of range (0..=247)");
    assert_eq!(broken(|c| c.devices[0].host.clear()), "device `a`: tcp transport requires `host`");
    assert_eq!(broken(|c| c.devices[0].port = 0), "device `a`: tcp transport requires a valid `port`");
    assert_eq!(
        broken(|c| c.devices[0].transport = Transport::Rtu),
        "device `a`: rtu transport requires `serial_port` (e.g. \"COM3\")"
    );
    assert_eq!(
        broken(|c| {
            c.devices[0].transport = Transport::Rtu;
            c.devices[0].serial_port = Some("COM3".into());
        }),
        "device `a`: rtu transport requires `baud_rate`"
    );
    assert_eq!(
        broken(|c| c.devices[0].transport = Transport::Sim),
        "device `a`: sim transport requires `[sim]` controls"
    );
    assert_eq!(broken(|c| c.devices[0].poll_interval_ms = 0), "device `a`: poll_interval_ms must be > 0");
    assert_eq!(broken(|c| c.devices[0].timeout_ms = 0), "device `a`: timeout_ms must be > 0");
    assert_eq!(
        broken(|c| {
            c.devices[0].reconnect_initial_ms = 20;
            c.devices[0].reconnect_max_ms = 10;
        }),
        "device `a`: reconnect_initial_ms (20) must be <= reconnect_max_ms (10)"
    );
    assert_eq!(broken(|c| c.devices[0].registers.clear()), "device `a`: at least one register is required");
    assert_eq!(
        broken(|c| c.devices[0].registers = (0..257).map(|_| register("r", "s", 0)).collect()),
        "device `a`: too many registers (257), max 256"
    );
}

#[test]
fn rejects_each_broken_register_setting() {
    let broken = |change: fn(&mut Config)| {
        let mut cfg = one_register();
        change(&mut cfg);
        message(&cfg)
    };
    assert_eq!(
        broken(|c| c.devices[0].registers.push(register("r1", "s.2", 5))),
        "device `a`: duplicate register name `r1`"
    );
    assert_eq!(
        broken(|c| c.devices[0].registers.push(register("r2", "s.1", 5))),
        "duplicate sensor_id `s.1` (must be unique gateway-wide)"
    );
    assert_eq!(
        broken(|c| c.devices[0].registers[0].function = RegisterFunction::DiscreteInput),
        "device `a` register `r1`: function DiscreteInput requires value_type = \"bool\""
    );
    assert_eq!(
        broken(|c| {
            c.devices[0].registers[0].function = RegisterFunction::Input;
            c.devices[0].registers[0].access = Access::ReadWrite;
        }),
        "device `a` register `r1`: access = \"read_write\" is only allowed for holding/coil registers"
    );
    assert_eq!(
        broken(|c| c.devices[0].registers[0].count = Some(3)),
        "device `a` register `r1`: count 3 does not match value_type U16 (expected 1)"
    );
    assert_eq!(broken(|c| c.devices[0].registers[0].address = 65535), "register address overflow");
    assert_eq!(
        broken(|c| {
            c.devices[0].registers[0].value_type = ValueType::U32;
            c.devices[0].registers.push(register("r2", "s.2", 1));
        }),
        "device `a`: register `r2` range [1, 2) overlaps `r1` range [0, 2)"
    );
}

#[test]
fn rejects_each_broken_pipeline_setting() {
    let broken = |change: fn(&mut Config)| {
        let mut cfg = one_register();
        change(&mut cfg);
        message(&cfg)
    };
    assert_eq!(
        broken(|c| c.pipelines = vec![pipeline("s.2", vec![])]),
        "pipeline sensor_id `s.2` does not match any device register"
    );
    assert_eq!(
        broken(|c| c.pipelines = vec![pipeline("s.1", vec![])]),
        "pipeline for `s.1`: at least one stage is required"
    );
    assert_eq!(
        broken(|c| c.pipelines = vec![pipeline("s.1", (0..17).map(|_| scale(1.0)).collect())]),
        "pipeline for `s.1`: too many stages (17), max 16"
    );
}

#[test]
fn rejects_each_broken_computed_setting() {
    let broken = |c: ComputedConfig| {
        let mut cfg = one_register();
        cfg.computed = vec![computed("c0", "x", &[("x", "s.1")]), c];
        message(&cfg)
    };
    assert_eq!(
        broken(computed("s.1", "x", &[("x", "s.1")])),
        "duplicate sensor_id `s.1` (computed must not collide with registers)"
    );
    assert_eq!(
        broken(computed("c0", "x", &[("x", "s.1")])),
        "duplicate sensor_id `c0` (computed must not collide with registers)"
    );
    let mut unnamed = computed("c1", "x", &[("x", "s.1")]);
    unnamed.name = "".into();
    assert_eq!(broken(unnamed), "computed `c1`: name is required");
    assert_eq!(broken(computed("c1", "1", &[])), "computed `c1`: at least one input is required");
    assert_eq!(
        broken(computed("c1", "x", &[("x", "s.2")])),
        "computed `c1`: input `x` references unknown sensor_id `s.2`"
    );
    assert!(broken(computed("c1", "x +", &[("x", "s.1")])).starts_with("computed `c1`: invalid expression `x +`: "));
    assert!(broken(computed("c1", "y", &[("x", "s.1")])).starts_with("computed `c1`: "));
    assert_eq!(broken(computed("c1", "x", &[("x", "c1")])), "computed dependency cycle at `c1`");
}

#[test]
fn rejects_each_broken_simulation_setting() {
    let sensor = |id: &str, formula: &str| SimSensor {
        sensor_id: id.into(),
        name: "S".into(),
        kind: "".into(),
        unit: None,
        formula: formula.into(),
        inputs: vec![],
    };
    let control = || SimControl { name: "duty".into(), initial: num(1.0), unit: None, writable: true };
    let with = |controls: Vec<SimControl>, sensors: Vec<SimSensor>| {
        let mut cfg = one_register();
        cfg.sim = SimConfig { controls, sensors };
        cfg.validate()
    };
    assert_eq!(with(vec![control(), control()], vec![]).unwrap_err(), "duplicate sim control `duty`");
    assert_eq!(
        with(vec![], vec![sensor("s.1", "1")]).unwrap_err(),
        "duplicate sensor_id `s.1` (sim must not collide with registers/computed)"
    );
    let mut unnamed = sensor("m", "1");
    unnamed.name = "".into();
    assert_eq!(with(vec![], vec![unnamed]).unwrap_err(), "sim sensor `m`: name is required");
    assert!(with(vec![], vec![sensor("m", "1 +")])
        .unwrap_err()
        .starts_with("sim sensor `m`: invalid formula `1 +`: "));
    with(vec![control()], vec![sensor("m", "duty"), sensor("n", "m * 2")]).unwrap();
}

#[test]
fn the_last_address_is_out_of_reach() {
    let mut cfg = one_register();
    cfg.devices[0].registers[0].address = 65534;
    cfg.validate().unwrap();
    cfg.devices[0].registers[0].value_type = ValueType::U32;
    assert_eq!(message(&cfg), "register address overflow");
}

#[test]
fn bit_spaces_hold_bits() {
    let mut cfg = one_register();
    cfg.devices[0].registers[0].function = RegisterFunction::Coil;
    assert!(cfg.validate().is_err());
    cfg.devices[0].registers[0].value_type = ValueType::Bool;
    cfg.validate().unwrap();
    cfg.devices[0].registers[0].function = RegisterFunction::Holding;
    cfg.validate().unwrap();
}

#[test]
fn only_writable_spaces_may_be_written() {
    let mut cfg = one_register();
    cfg.devices[0].registers[0].access = Access::ReadWrite;
    cfg.validate().unwrap();
    cfg.devices[0].registers[0].function = RegisterFunction::Input;
    assert!(cfg.validate().is_err());
}

#[test]
fn stage_windows_must_not_be_empty() {
    let mut cfg = one_register();
    cfg.pipelines = vec![pipeline("s.1", vec![StageConfig::Aggregate { window: 0, mode: AggregateMode::Avg }])];
    assert!(cfg.validate().is_err());
    cfg.pipelines = vec![pipeline("s.1", vec![StageConfig::Aggregate { window: 1, mode: AggregateMode::Avg }])];
    cfg.validate().unwrap();
}

#[test]
fn a_self_reference_is_a_cycle() {
    let mut cfg = one_register();
    cfg.computed = vec![computed("c1", "x + 1", &[("x", "c1")])];
    assert!(message(&cfg).contains("`c1`"), "got: {}", message(&cfg));
    assert!(message(&cfg).contains("cycle"));
}

#[test]
fn formulas_must_parse_and_bind() {
    let mut cfg = one_register();
    cfg.computed = vec![computed("c1", "x +", &[("x", "s.1")])];
    assert!(cfg.validate().is_err());
    cfg.computed = vec![computed("c1", "x + y", &[("x", "s.1")])];
    assert!(cfg.validate().is_err());
    cfg.computed = vec![computed("c1", "x + sqrt(x)", &[("x", "s.1")])];
    cfg.validate().unwrap();
}

#[test]
fn blank_expressions_are_noticed() {
    let mut cfg = one_register();
    cfg.pipelines = vec![pipeline("s.1", vec![StageConfig::Math { expression: "".into() }])];
    assert!(cfg.is_readable());
    cfg.pipelines[0].stages[0] = StageConfig::Math { expression: " \t".into() };
    assert!(!cfg.is_readable());
    assert!(!pipeline_is_readable(&cfg.pipelines[0]));
    assert!(stage_is_readable(&scale(1.0)));
    let mut cfg = one_register();
    cfg.computed = vec![computed("c1", "\n", &[("x", "s.1")])];
    assert!(!cfg.is_readable());
}

#[test]
fn a_blank_expression_counts_only_where_it_is_reached() {
    let mut cfg = one_register();
    cfg.computed = vec![computed("c1", "\n", &[("x", "s.1")])];
    assert!(!cfg.is_decided());
    cfg.devices[0].unit_id = 250;
    assert!(cfg.is_decided() && !cfg.is_readable());
    assert_eq!(message(&cfg), "device `a`: unit_id 250 out of range (0..=247)");
    let mut cfg = one_register();
    cfg.pipelines = vec![pipeline(
        "s.1",
        vec![StageConfig::Median { window: 0 }, StageConfig::Math { expression: " ".into() }],
    )];
    assert!(cfg.is_decided());
    assert_eq!(message(&cfg), "pipeline for `s.1`: window must be >= 1");
}

#[test]
fn inputs_are_mappings() {
    let mut cfg = one_register();
    cfg.computed = vec![computed("c1", "x + y", &[("x", "s.1"), ("y", "s.1")])];
    assert!(cfg.has_mapped_computed() && cfg.has_sound_sensors());
    cfg.computed[0].inputs.push(("x".into(), "s.1".into()));
    assert!(!cfg.has_mapped_computed());
}

#[test]
fn faults_decide_without_the_parser() {
    let mut cfg = one_register();
    cfg.pipelines = vec![pipeline("s.1", vec![StageConfig::Math { expression: "v * 2".into() }])];
    let mut faults = cfg.inspect();
    cfg.validate_given(&faults).unwrap();
    faults.stages[0][0] = Some("no good".into());
    let err = cfg.validate_given(&faults).unwrap_err();
    assert!(err.contains("no good"), "got: {err}");
}

#[test]
fn defaults_are_those_of_an_empty_file() {
    let e = EndpointsConfig::default();
    assert_eq!(e.redfish_port, telemux::config::default_redfish_port());
    assert_eq!(e.modbus_port, telemux::config::default_modbus_port());
    assert_eq!(e.modbus_unit_id, telemux::config::default_modbus_unit_id());
    assert_eq!(e.health_port, telemux::config::default_health_port());
    assert_eq!(e.redfish_enabled, telemux::config::default_true());
    assert_eq!(telemux::config::default_function(), RegisterFunction::default());
    assert_eq!(GeneralConfig::default().log_max_files, telemux::config::default_log_max_files());
    assert_eq!(telemux::config::default_log_level(), LogLevel::default());
}

#[test]
fn functions_have_their_codes() {
    assert_eq!(RegisterFunction::Coil.function_code(), 1);
    assert_eq!(RegisterFunction::DiscreteInput.function_code(), 2);
    assert_eq!(RegisterFunction::Holding.function_code(), 3);
    assert_eq!(RegisterFunction::Input.function_code(), 4);
    assert!(RegisterFunction::Coil.is_bit() && !RegisterFunction::Holding.is_bit());
    assert!(RegisterFunction::Coil.is_writable() && !RegisterFunction::Input.is_writable());
}
