use telemux::config::{
    Access, Config, DeviceConfig, EndpointsConfig, GeneralConfig, PipelineConfig, RegisterConfig, RegisterFunction,
    SimConfig, StageConfig, Transport, ValueType, WordOrder,
};
use telemux::config_handle::ConfigHandle;
use telemux::copying::copy_config;
use telemux::number::Real;

fn sample_config() -> Config {
    Config {
        general: GeneralConfig::default(),
        devices: vec![DeviceConfig {
            name: "pcba-01".into(),
            transport: Transport::Tcp,
            unit_id: 1,
            host: "127.0.0.1".into(),
            port: 1502,
            poll_interval_ms: 500,
            timeout_ms: 1000,
            reconnect_initial_ms: 100,
            reconnect_max_ms: 1000,
            serial_port: None,
            baud_rate: None,
            registers: vec![new_register("r1", "s.1", 0)],
        }],
        pipelines: vec![],
        computed: vec![],
        endpoints: EndpointsConfig::default(),
        sim: SimConfig { controls: vec![], sensors: vec![] },
    }
}

fn new_register(name: &str, sensor_id: &str, address: u16) -> RegisterConfig {
    RegisterConfig {
        name: name.into(),
        sensor_id: sensor_id.into(),
        function: RegisterFunction::Holding,
        address,
        count: Some(1),
        value_type: ValueType::U16,
        word_order: WordOrder::Big,
        unit: None,
        access: Access::Read,
    }
}

fn add(handle: &mut ConfigHandle, device: &str, register: RegisterConfig) -> Result<(), String> {
    handle.update(|mut cfg| {
        cfg.add_register(device, register, None)?;
        Ok(cfg)
    })
}

fn new_handle() -> ConfigHandle {
    ConfigHandle::new(sample_config(), "unused.toml".into(), true)
}

#[test]
fn update_applies_and_bumps_revision() {
    let mut handle = new_handle();
    let rev0 = handle.revision();
    add(&mut handle, "pcba-01", new_register("r2", "s.2", 10)).unwrap();
    assert_eq!(handle.revision(), rev0 + 1);
    assert_eq!(handle.read().devices[0].registers.len(), 2);
}

#[test]
fn update_failure_leaves_config_unchanged() {
    let mut handle = new_handle();
    let rev0 = handle.revision();
    let err = add(&mut handle, "pcba-01", new_register("dup", "s.1", 10)).unwrap_err();
    assert!(err.contains("duplicate sensor_id"), "got: {err}");
    assert_eq!(handle.revision(), rev0, "revision must not change on failure");
    assert_eq!(handle.read().devices[0].registers.len(), 1);
}

#[test]
fn update_rejects_overlapping_address() {
    let mut handle = new_handle();
    let err = add(&mut handle, "pcba-01", new_register("ov", "s.9", 0)).unwrap_err();
    assert!(err.contains("overlaps"), "got: {err}");
}

#[test]
fn update_rejects_unknown_device() {
    let mut handle = new_handle();
    let err = add(&mut handle, "nope", new_register("r", "s.9", 10)).unwrap_err();
    assert!(err.contains("not found"), "got: {err}");
}

#[test]
fn an_invalid_candidate_is_not_put_in_force() {
    let mut handle = new_handle();
    let mut candidate = handle.read().clone();
    candidate.devices[0].unit_id = 248;
    assert!(handle.replace(candidate).unwrap_err().contains("unit_id"));
    let refused = handle.update(|mut cfg| {
        cfg.devices.clear();
        Ok(cfg)
    });
    assert_eq!(refused.unwrap_err(), "at least one [[devices]] entry is required");
    assert_eq!(handle.update(|_| Err("no".to_string())).unwrap_err(), "no");
    assert_eq!(handle.read().devices[0].unit_id, 1);
    assert_eq!(handle.revision(), 0);
    assert_eq!(handle.path(), "unused.toml");
    assert!(handle.is_mutable());
}

#[test]
fn a_register_is_added_with_its_pipeline() {
    let mut cfg = sample_config();
    let scale = StageConfig::Scale {
        scale: Real { bits: 0.5f64.to_bits() },
        offset: Real { bits: 0 },
        unit: Some("V".into()),
    };
    cfg.add_register(
        "pcba-01",
        new_register("r2", "s.2", 10),
        Some(PipelineConfig { sensor_id: "s.2".into(), stages: vec![scale] }),
    )
    .unwrap();
    assert_eq!(cfg.devices[0].registers[1].name, "r2");
    assert_eq!(cfg.pipelines.len(), 1);
    cfg.validate().unwrap();
}

#[test]
fn a_refused_register_leaves_the_configuration() {
    let mut cfg = sample_config();
    let bad = PipelineConfig { sensor_id: "s.2".into(), stages: vec![StageConfig::Math { expression: "v +* 2".into() }] };
    let err = cfg.add_register("pcba-01", new_register("r2", "s.2", 10), Some(bad)).unwrap_err();
    assert!(err.contains("invalid expression"), "got: {err}");
    assert_eq!(cfg.devices[0].registers.len(), 1);
    assert!(cfg.pipelines.is_empty());
    assert!(cfg.add_register("pcba-01", new_register("r1", "s.3", 10), None).is_err());
}

#[test]
fn registers_are_added_through_the_handle() {
    let mut handle = new_handle();
    handle.add_register("pcba-01", new_register("r2", "s.2", 10), None).unwrap();
    assert_eq!((handle.revision(), handle.read().devices[0].registers.len()), (1, 2));
    let err = handle.add_register("pcba-01", new_register("r3", "s.2", 20), None).unwrap_err();
    assert!(err.contains("duplicate sensor_id"), "got: {err}");
    assert_eq!((handle.revision(), handle.read().devices[0].registers.len()), (1, 2));
}

#[test]
fn a_copy_says_what_the_configuration_says() {
    let cfg = sample_config();
    let copy = copy_config(&cfg);
    assert_eq!(format!("{copy:?}"), format!("{cfg:?}"));
}

#[test]
fn a_blank_stage_counts_only_where_it_is_reached() {
    let cfg = sample_config();
    let blank = Some(PipelineConfig { sensor_id: "s.2".into(), stages: vec![StageConfig::Math { expression: " ".into() }] });
    assert!(!cfg.is_addition_decided("pcba-01", &new_register("r2", "s.2", 10), &blank));
    assert!(cfg.is_addition_decided("nope", &new_register("r2", "s.2", 10), &blank));
    let mut changed = sample_config();
    let err = changed.add_register("nope", new_register("r2", "s.2", 10), blank).unwrap_err();
    assert_eq!(err, "device `nope` not found");
}
