use telemux::acquisition::{ReadCycle, ReadReply, ReadRequest};
use telemux::config::{
    Access, ComputedConfig, Config, DeviceConfig, EndpointsConfig, GeneralConfig, LogLevel, PipelineConfig,
    RegisterConfig, RegisterFunction, SimConfig, StageConfig, Transport, ValueType, WordOrder,
};
use telemux::config_handle::ConfigHandle;
use telemux::domain::{MetricStatus, RawSample, SensorId};
use telemux::evaluation::Evaluation;
use telemux::gateway::{
    effective_level, launch_arguments, log_files, parse_config_arg, status_str, Cli, ConfigArgument, Gateway,
};
use telemux::mock::MockPcba;
use telemux::number::Real;
use telemux::pipeline::describe::stage_numbers;
use telemux::pipeline::stages::Arithmetic;
use telemux::protocol::modbus_server::{build_table, encode_value};
use telemux::protocol::views::build_views;

fn num(v: f64) -> Real {
    Real { bits: v.to_bits() }
}

fn value(r: Real) -> f64 {
    f64::from_bits(r.bits)
}

fn calculate(a: Arithmetic) -> Real {
    num(match a {
        Arithmetic::Scale { value: v, scale, offset } => value(v) * value(scale) + value(offset),
        Arithmetic::Mean { values } => values.iter().map(|v| value(*v)).sum::<f64>() / values.len() as f64,
        Arithmetic::Midpoint { low, high } => (value(low) + value(high)) / 2.0,
        Arithmetic::Evaluate { expression, v } => {
            let f = expression.parse::<meval::Expr>().unwrap().bind("v").unwrap();
            f(value(v))
        }
    })
}

fn evaluate(e: Evaluation) -> Real {
    let names: Vec<&str> = e.names.iter().map(|n| n.as_str()).collect();
    let values: Vec<f64> = e.values.iter().map(|v| value(*v)).collect();
    let f = e.expression.parse::<meval::Expr>().unwrap().bindn(&names).unwrap();
    num(f(&values))
}

/// Works a batch off; the samples that failed are given back.
fn work(gateway: &mut Gateway, handle: &ConfigHandle, samples: Vec<RawSample>) -> Vec<usize> {
    let outcomes = gateway.work_off(handle, &samples, 9, &calculate, &evaluate).unwrap();
    assert_eq!(outcomes.len(), samples.len());
    (0..outcomes.len()).filter(|i| matches!(outcomes[*i], Some(Err(_)))).collect()
}

fn reg(name: &str, sensor_id: &str, function: RegisterFunction, address: u16, value_type: ValueType) -> RegisterConfig {
    RegisterConfig {
        name: name.into(),
        sensor_id: sensor_id.into(),
        function,
        address,
        count: Some(value_type.register_count()),
        value_type,
        word_order: WordOrder::Big,
        unit: None,
        access: Access::Read,
    }
}

fn scale_stage(scale: f64, unit: &str) -> StageConfig {
    StageConfig::Scale { scale: num(scale), offset: num(0.0), unit: Some(unit.into()) }
}

fn sample_config() -> Config {
    Config {
        general: GeneralConfig::default(),
        devices: vec![DeviceConfig {
            name: "pcba-01".into(),
            transport: Transport::Tcp,
            unit_id: 1,
            host: "127.0.0.1".into(),
            port: 1502,
            poll_interval_ms: 100,
            timeout_ms: 1000,
            reconnect_initial_ms: 100,
            reconnect_max_ms: 1000,
            serial_port: None,
            baud_rate: None,
            registers: vec![
                reg("temp_raw", "pcba-01.temp", RegisterFunction::Holding, 0, ValueType::U16),
                reg("vcore", "pcba-01.vcore", RegisterFunction::Holding, 4, ValueType::F32),
                reg("vin", "pcba-01.vin", RegisterFunction::Input, 0, ValueType::U16),
                reg("leak", "pcba-01.leak", RegisterFunction::DiscreteInput, 0, ValueType::Bool),
            ],
        }],
        pipelines: vec![
            PipelineConfig { sensor_id: "pcba-01.temp".into(), stages: vec![scale_stage(0.1, "°C")] },
            PipelineConfig { sensor_id: "pcba-01.vin".into(), stages: vec![scale_stage(0.001, "V")] },
        ],
        computed: vec![ComputedConfig {
            sensor_id: "pcba-01.ratio".into(),
            name: "ratio".into(),
            unit: Some("ratio".into()),
            inputs: vec![("v".into(), "pcba-01.vin".into())],
            expression: "v * 10".into(),
        }],
        endpoints: EndpointsConfig::default(),
        sim: SimConfig { controls: vec![], sensors: vec![] },
    }
}

fn read_all(board: &mut MockPcba, registers: &Vec<RegisterConfig>) -> Vec<RawSample> {
    let mut cycle = ReadCycle::new("pcba-01");
    while let Some(request) = cycle.next(registers) {
        let reply = match request {
            ReadRequest::Coils { address, count } => ReadReply::Bits(board.bits(true, address, count)),
            ReadRequest::DiscreteInputs { address, count } => ReadReply::Bits(board.bits(false, address, count)),
            ReadRequest::HoldingRegisters { address, count } => ReadReply::Words(board.words(true, address, count)),
            ReadRequest::InputRegisters { address, count } => ReadReply::Words(board.words(false, address, count)),
        };
        cycle.accept(registers, reply, 5).unwrap();
    }
    cycle.finish()
}

#[test]
fn full_chain_values_consistent() {
    let mut board = MockPcba::fixed();
    let cfg = sample_config();
    cfg.validate().unwrap();
    let handle = ConfigHandle::new(cfg, "unused.toml".into(), true);
    let cfg = handle.read();

    let samples = read_all(&mut board, &cfg.devices[0].registers);
    assert_eq!(samples.len(), 4);
    let raw = |id: &str| value(samples.iter().find(|s| s.sensor_id.as_str() == id).unwrap().raw_value);
    assert_eq!(raw("pcba-01.temp"), 0x1234 as f64);
    assert_eq!(raw("pcba-01.vcore"), 12.5);
    assert_eq!(raw("pcba-01.vin"), 200.0);
    assert_eq!(raw("pcba-01.leak"), 1.0);

    let mut gateway = Gateway::new(cfg).unwrap();
    assert!(work(&mut gateway, &handle, samples).is_empty());
    let store = &gateway.store;

    let temp = store.get(&SensorId("pcba-01.temp".into())).unwrap();
    assert_eq!(value(temp.metric.as_ref().unwrap().value), 466.0);
    assert_eq!(temp.metric.as_ref().unwrap().unit.as_deref(), Some("°C"));
    let vin = store.get(&SensorId("pcba-01.vin".into())).unwrap();
    assert_eq!(value(vin.metric.as_ref().unwrap().value), 0.2);
    assert_eq!(vin.metric.as_ref().unwrap().unit.as_deref(), Some("V"));

    let shown: Vec<Vec<Vec<String>>> = cfg
        .pipelines
        .iter()
        .map(|p| p.stages.iter().map(|s| stage_numbers(s).iter().map(|r| value(*r).to_string()).collect()).collect())
        .collect();
    let views = build_views(cfg, store, &shown);
    assert_eq!(views.len(), 5);
    let ratio = views.iter().find(|v| v.sensor_id == "pcba-01.ratio").unwrap();
    assert!(ratio.is_computed);
    assert_eq!(ratio.value.map(value), Some(2.0));

    let table = build_table(cfg);
    let words = encode_value(temp.metric.as_ref().unwrap().value, ValueType::U16, WordOrder::Big);
    assert_eq!(words, vec![466u16]);
    let vcore = store.get(&SensorId("pcba-01.vcore".into())).unwrap();
    let vcore_words = encode_value(vcore.raw.as_ref().unwrap().raw_value, ValueType::F32, WordOrder::Big);
    assert_eq!(vcore_words, vec![0x4148, 0x0000]);
    assert_eq!(table.inputs.len(), 3);
    assert_eq!(table.inputs[1].as_ref().unwrap().sensor_id, "pcba-01.ratio");
}

fn sample(id: &str, v: f64) -> RawSample {
    RawSample { sensor_id: SensorId(id.into()), name: id.into(), raw_value: num(v), unit: None, timestamp: 5 }
}

#[test]
fn a_failed_sample_keeps_its_raw_value() {
    let mut cfg = sample_config();
    cfg.pipelines[0].stages = vec![StageConfig::Math { expression: "v + w".into() }];
    let handle = ConfigHandle::new(cfg, "unused.toml".into(), true);
    let mut gateway = Gateway::new(handle.read()).unwrap();
    let failed = work(&mut gateway, &handle, vec![sample("pcba-01.temp", 3.0), sample("pcba-01.vin", 1000.0)]);
    assert_eq!(failed, vec![0]);
    let temp = gateway.store.get(&SensorId("pcba-01.temp".into())).unwrap();
    assert!(temp.metric.is_none());
    assert_eq!(value(temp.raw.as_ref().unwrap().raw_value), 3.0);
    let ratio = gateway.store.get(&SensorId("pcba-01.ratio".into())).unwrap();
    assert_eq!(value(ratio.metric.as_ref().unwrap().value), 10.0);
    assert_eq!(gateway.store.revision(), 4);
}

#[test]
fn a_changed_configuration_is_taken_up() {
    let mut handle = ConfigHandle::new(sample_config(), "unused.toml".into(), true);
    let mut gateway = Gateway::new(handle.read()).unwrap();
    let mut changed = handle.read().clone();
    changed.pipelines[0].stages = vec![scale_stage(2.0, "x")];
    handle.replace(changed).unwrap();
    work(&mut gateway, &handle, vec![sample("pcba-01.temp", 3.0)]);
    let temp = gateway.store.get(&SensorId("pcba-01.temp".into())).unwrap();
    assert_eq!(value(temp.metric.as_ref().unwrap().value), 6.0);
}

#[test]
fn the_command_line_overrides_the_level() {
    let mut general = GeneralConfig::default();
    general.log_level = LogLevel::Warn;
    let cli = |level: Option<&str>| Cli {
        config: "c.toml".into(),
        log_level: level.map(|l| l.to_string()),
        dashboard_port: None,
    };
    assert_eq!(effective_level(&cli(Some("debug")), &general), LogLevel::Debug);
    assert_eq!(effective_level(&cli(Some("bogus")), &general), LogLevel::Warn);
    assert_eq!(effective_level(&cli(None), &general), LogLevel::Warn);
    assert!(log_files(&general).is_none());
    general.log_dir = Some("/var/log".into());
    general.log_max_files = 4;
    let files = log_files(&general).unwrap();
    assert_eq!((files.dir.as_str(), files.prefix.as_str(), files.max_files), ("/var/log", "telemux", 4));
    assert_eq!(status_str(MetricStatus::Critical), "critical");
}

#[test]
fn services_find_their_configuration() {
    let args = |list: &[&str]| -> Vec<Option<String>> { list.iter().map(|a| Some(a.to_string())).collect() };
    assert!(matches!(
        parse_config_arg(&args(&["x", "--config", "a.toml"])),
        Some(ConfigArgument::At(2))
    ));
    assert!(matches!(
        parse_config_arg(&args(&["x", "--config=b.toml"])),
        Some(ConfigArgument::Inline(p)) if p == "b.toml"
    ));
    assert!(parse_config_arg(&args(&["x", "--config"])).is_none());
    assert!(parse_config_arg(&vec![None, Some("--conf".into())]).is_none());
    assert_eq!(launch_arguments(&Some("c.toml".into())), vec!["--service", "--config", "c.toml"]);
    assert_eq!(launch_arguments(&None), vec!["--service"]);
}

#[test]
fn engines_that_stand_at_the_revision_serve_any_configuration() {
    let good = ConfigHandle::new(sample_config(), "x".into(), true);
    let mut gateway = Gateway::new(good.read()).unwrap();
    gateway.work_off(&good, &vec![], 9, &calculate, &evaluate).unwrap();
    let mut broken = sample_config();
    broken.pipelines[0].stages = vec![StageConfig::Median { window: 0 }];
    let mut stale = ConfigHandle::new(sample_config(), "x".into(), true);
    stale.replace(sample_config()).unwrap();
    let same = ConfigHandle::new(broken, "x".into(), true);
    assert!(gateway.work_off(&same, &vec![], 9, &calculate, &evaluate).is_ok());
    gateway.work_off(&stale, &vec![], 9, &calculate, &evaluate).unwrap();
    assert!(gateway.work_off(&same, &vec![], 9, &calculate, &evaluate).is_err());
}
