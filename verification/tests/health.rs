use telemux::config::{
    Access, Config, DeviceConfig, EndpointsConfig, GeneralConfig, RegisterConfig, RegisterFunction, SimConfig,
    Transport, ValueType, WordOrder,
};
use telemux::dashboard::{build_snapshot, build_update, is_fresh, transport_str, update_interval};
use telemux::domain::{Metric, MetricStatus, RawSample, SensorId};
use telemux::health::{check_intervals, healthz, readyz};
use telemux::number::Real;
use telemux::store::MetricStore;

fn num(v: f64) -> Real {
    Real { bits: v.to_bits() }
}

fn sample_config(name: &str, sensor_id: &str) -> Config {
    Config {
        general: GeneralConfig::default(),
        devices: vec![DeviceConfig {
            name: "pcba-01".into(),
            transport: Transport::Tcp,
            unit_id: 1,
            host: "127.0.0.1".into(),
            port: 1502,
            poll_interval_ms: 500,
            timeout_ms: 1000,
            reconnect_initial_ms: 100,
            reconnect_max_ms: 1000,
            serial_port: None,
            baud_rate: None,
            registers: vec![RegisterConfig {
                name: name.into(),
                sensor_id: sensor_id.into(),
                function: RegisterFunction::Holding,
                address: 0,
                count: Some(1),
                value_type: ValueType::U16,
                word_order: WordOrder::Big,
                unit: Some("counts".into()),
                access: Access::Read,
            }],
        }],
        pipelines: vec![],
        computed: vec![],
        endpoints: EndpointsConfig::default(),
        sim: SimConfig { controls: vec![], sensors: vec![] },
    }
}

fn sample(id: &str, raw: f64, timestamp: i64) -> RawSample {
    RawSample {
        sensor_id: SensorId(id.into()),
        name: "cpu_temp_raw".into(),
        raw_value: num(raw),
        unit: Some("counts".into()),
        timestamp,
    }
}

const NOW: u64 = 1_000_000;

#[test]
fn healthz_always_ok() {
    assert_eq!(healthz(), "ok");
}

#[test]
fn readyz_not_ready_without_data() {
    let r = readyz(&sample_config("r1", "s.r1"), &MetricStore::new(), NOW);
    assert_eq!(r.code, 503);
    assert_eq!(r.status, "not_ready");
}

#[test]
fn readyz_ready_with_fresh_data() {
    let mut store = MetricStore::new();
    store.update_raw(sample("s.r1", 1.0, NOW as i64));
    let r = readyz(&sample_config("r1", "s.r1"), &store, NOW);
    assert_eq!(r.code, 200);
    assert_eq!(r.status, "ready");
    assert_eq!(r.devices[0].name, "pcba-01");
    assert_eq!((r.devices[0].sensors_total, r.devices[0].sensors_with_data), (1, 1));
}

#[test]
fn data_is_fresh_for_two_intervals() {
    let mut store = MetricStore::new();
    store.update_raw(sample("s.r1", 1.0, NOW as i64 - 1000));
    assert!(readyz(&sample_config("r1", "s.r1"), &store, NOW).ready);
    assert!(!readyz(&sample_config("r1", "s.r1"), &store, NOW + 1).ready);
    assert!(is_fresh(Some(NOW - 1000), 500, NOW));
    assert!(!is_fresh(Some(NOW - 1001), 500, NOW));
    assert!(!is_fresh(None, 500, NOW));
}

#[test]
fn metrics_alone_make_a_device_ready() {
    let mut store = MetricStore::new();
    store.update_metric(
        None,
        Metric {
            sensor_id: SensorId("s.r1".into()),
            value: num(1.0),
            unit: None,
            status: MetricStatus::Normal,
            timestamp: NOW as i64,
        },
    );
    assert!(readyz(&sample_config("r1", "s.r1"), &store, NOW).ready);
}

#[test]
fn intervals_that_cannot_be_doubled_are_noticed() {
    let mut cfg = sample_config("r1", "s.r1");
    assert!(check_intervals(&cfg));
    cfg.devices[0].poll_interval_ms = u64::MAX / 2 + 1;
    assert!(!check_intervals(&cfg));
}

// ---- the dashboard ----

#[test]
fn snapshot_without_samples_has_empty_raw_and_metric() {
    let cfg = sample_config("cpu_temp_raw", "pcba-01.cpu_temp");
    let snap = build_snapshot(&cfg, &MetricStore::new(), &vec![], NOW);
    assert_eq!(snap.devices.len(), 1);
    let reg = &snap.devices[0].registers[0];
    assert!(reg.raw.is_none());
    assert!(reg.metric.is_none());
    assert!(!snap.devices[0].connected);
}

#[test]
fn snapshot_includes_raw_and_metric() {
    let cfg = sample_config("cpu_temp_raw", "pcba-01.cpu_temp");
    let mut store = MetricStore::new();
    store.update_metric(
        Some(sample("pcba-01.cpu_temp", 251.0, NOW as i64)),
        Metric {
            sensor_id: SensorId("pcba-01.cpu_temp".into()),
            value: num(25.1),
            unit: Some("°C".into()),
            status: MetricStatus::Normal,
            timestamp: NOW as i64,
        },
    );
    let snap = build_snapshot(&cfg, &store, &vec![], NOW);
    let reg = &snap.devices[0].registers[0];
    assert_eq!(reg.raw.as_ref().unwrap().value, num(251.0));
    let m = reg.metric.as_ref().unwrap();
    assert_eq!(m.value, num(25.1));
    assert_eq!(m.status, MetricStatus::Normal);
    assert!(snap.devices[0].connected);
    assert_eq!(reg.name, "cpu_temp_raw");
    assert_eq!((reg.function, reg.value_type, reg.word_order), ("holding", "u16", "big"));
    assert_eq!((snap.devices[0].transport, snap.generated_at_ms), ("tcp", NOW));
}

#[test]
fn updates_hold_every_sensor_with_values() {
    let mut store = MetricStore::new();
    store.update_raw(sample("a", 1.0, 10));
    store.update_raw(sample("b", 2.0, 20));
    let u = build_update(&store, NOW);
    assert_eq!((u.kind, u.generated_at_ms, u.samples.len()), ("update", NOW, 2));
    let b = u.samples.iter().find(|s| s.sensor_id == "b").unwrap();
    assert_eq!(b.raw.as_ref().unwrap().timestamp_ms, 20);
    assert!(b.metric.is_none());
}

#[test]
fn updates_follow_the_shortest_interval() {
    let mut cfg = sample_config("r1", "s.r1");
    assert_eq!(update_interval(&cfg), 500);
    cfg.devices[0].poll_interval_ms = 100;
    assert_eq!(update_interval(&cfg), 250);
    cfg.devices.clear();
    assert_eq!(update_interval(&cfg), 1000);
    assert_eq!(transport_str(Transport::Sim), "sim");
}
