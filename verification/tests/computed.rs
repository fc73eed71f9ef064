use telemux::computed::{ComputedEngine, ComputedSensor};
use telemux::config::{
    Access, ComputedConfig, Config, DeviceConfig, EndpointsConfig, GeneralConfig, RegisterConfig, RegisterFunction,
    SimConfig, Transport, ValueType, WordOrder,
};
use telemux::domain::{Metric, RawSample, SensorId};
use telemux::evaluation::Evaluation;
use telemux::number::Real;
use telemux::store::MetricStore;

fn num(v: f64) -> Real {
    Real { bits: v.to_bits() }
}

fn value(r: Real) -> f64 {
    f64::from_bits(r.bits)
}

fn evaluate(e: Evaluation) -> Real {
    let names: Vec<&str> = e.names.iter().map(|n| n.as_str()).collect();
    let values: Vec<f64> = e.values.iter().map(|v| value(*v)).collect();
    let f = e.expression.parse::<meval::Expr>().unwrap().bindn(&names).unwrap();
    num(f(&values))
}

fn eval(sensor: &ComputedSensor, store: &MetricStore) -> Option<Metric> {
    sensor.eval(store, 5, &evaluate)
}

fn run(engine: &ComputedEngine, store: &mut MetricStore) {
    engine.run(store, 5, &evaluate);
}

fn store_with(registers: &[(&str, f64)]) -> MetricStore {
    let mut store = MetricStore::new();
    for (id, v) in registers {
        store.update_raw(RawSample {
            sensor_id: SensorId((*id).into()),
            name: (*id).into(),
            raw_value: num(*v),
            unit: None,
            timestamp: 0,
        });
    }
    store
}

fn named(id: &str, inputs: &[(&str, &str)], expression: &str) -> ComputedConfig {
    ComputedConfig {
        sensor_id: id.into(),
        name: "computed".into(),
        unit: Some("°C".into()),
        inputs: inputs.iter().map(|(k, v)| (k.to_string(), v.to_string())).collect(),
        expression: expression.into(),
    }
}

fn computed(inputs: &[(&str, &str)], expression: &str) -> ComputedConfig {
    named("s.computed", inputs, expression)
}

fn config(computed: Vec<ComputedConfig>) -> Config {
    Config {
        general: GeneralConfig::default(),
        devices: vec![DeviceConfig {
            name: "d".into(),
            transport: Transport::Tcp,
            unit_id: 1,
            host: "127.0.0.1".into(),
            port: 502,
            poll_interval_ms: 100,
            timeout_ms: 100,
            reconnect_initial_ms: 100,
            reconnect_max_ms: 1000,
            serial_port: None,
            baud_rate: None,
            registers: vec![RegisterConfig {
                name: "t1".into(),
                sensor_id: "s.t1".into(),
                function: RegisterFunction::Input,
                address: 0,
                count: Some(1),
                value_type: ValueType::U16,
                word_order: WordOrder::Big,
                unit: None,
                access: Access::Read,
            }],
        }],
        pipelines: vec![],
        computed,
        endpoints: EndpointsConfig::default(),
        sim: SimConfig { controls: vec![], sensors: vec![] },
    }
}

#[test]
fn evaluates_expression_from_inputs() {
    let store = store_with(&[("s.t1", 30.0), ("s.t2", 20.0)]);
    let sensor = ComputedSensor::new(computed(&[("t1", "s.t1"), ("t2", "s.t2")], "t1 - t2")).unwrap();
    let m = eval(&sensor, &store).unwrap();
    assert_eq!(value(m.value), 10.0);
    assert_eq!(m.unit.as_deref(), Some("°C"));
}

#[test]
fn skips_when_input_missing() {
    let store = store_with(&[("s.t1", 30.0)]);
    let sensor = ComputedSensor::new(computed(&[("t1", "s.t1"), ("t2", "s.t2")], "t1 - t2")).unwrap();
    assert!(eval(&sensor, &store).is_none());
}

#[test]
fn rejects_unknown_variable() {
    let err = match ComputedSensor::new(computed(&[("t1", "s.t1")], "t1 - t2")) {
        Ok(_) => panic!("expected error"),
        Err(e) => e,
    };
    assert!(err.contains("unknown variable"), "got: {err}");
}

#[test]
fn engine_writes_metrics_without_raw() {
    let config = config(vec![computed(&[("t1", "s.t1")], "t1 * 2")]);
    let mut store = store_with(&[("s.t1", 21.0)]);
    let engine = ComputedEngine::new(&config).unwrap();
    run(&engine, &mut store);
    let state = store.get(&SensorId("s.computed".into())).unwrap();
    assert!(state.raw.is_none());
    assert_eq!(value(state.metric.as_ref().unwrap().value), 42.0);
}

#[test]
fn engine_toposorts_chained_computed() {
    let config = config(vec![
        named("s.c2", &[("c1v", "s.c1")], "c1v + 1"),
        named("s.c1", &[("t1", "s.t1")], "t1 * 2"),
    ]);
    let mut store = store_with(&[("s.t1", 21.0)]);
    let engine = ComputedEngine::new(&config).unwrap();
    run(&engine, &mut store);
    let c1 = store.get(&SensorId("s.c1".into())).unwrap();
    assert_eq!(value(c1.metric.as_ref().unwrap().value), 42.0);
    let c2 = store.get(&SensorId("s.c2".into())).unwrap();
    assert_eq!(value(c2.metric.as_ref().unwrap().value), 43.0);
}

#[test]
fn one_pass_settles_a_long_chain() {
    let config = config(vec![
        named("s.c3", &[("a", "s.c2")], "a * 10"),
        named("s.c2", &[("a", "s.c1")], "a + 1"),
        named("s.c1", &[("a", "s.t1")], "a * 2"),
    ]);
    let mut store = store_with(&[("s.t1", 3.0)]);
    let engine = ComputedEngine::new(&config).unwrap();
    assert_eq!(engine.len(), 3);
    run(&engine, &mut store);
    let c3 = store.get(&SensorId("s.c3".into())).unwrap();
    assert_eq!(value(c3.metric.as_ref().unwrap().value), 70.0);
}

#[test]
fn a_metric_is_preferred_to_a_raw_sample() {
    let mut store = store_with(&[("s.t1", 3.0)]);
    let doubled = ComputedSensor::new(named("s.t1", &[("a", "s.t1")], "a * 2")).unwrap();
    let m = eval(&doubled, &store).unwrap();
    store.update_metric(None, m);
    assert_eq!(value(eval(&doubled, &store).unwrap().value), 12.0);
}

#[test]
fn the_parser_decides_whether_a_sensor_is_built() {
    let c = || computed(&[("t1", "s.t1")], "t1");
    assert!(ComputedSensor::new_given(c(), &None, &None).is_ok());
    assert_eq!(
        ComputedSensor::new_given(c(), &Some("p".into()), &Some("b".into())).unwrap_err(),
        "invalid expression `t1`: p"
    );
    assert_eq!(ComputedSensor::new_given(c(), &None, &Some("b".into())).unwrap_err(), "expression `t1`: b");
}

#[test]
fn a_repeated_id_is_built_once() {
    let config = config(vec![
        named("s.c1", &[("a", "s.t1")], "a * 2"),
        named("s.c1", &[("a", "s.t1")], "a * 3"),
    ]);
    let engine = ComputedEngine::new(&config).unwrap();
    assert_eq!(engine.len(), 1);
    let mut store = store_with(&[("s.t1", 5.0)]);
    run(&engine, &mut store);
    let c = store.get(&SensorId("s.c1".into())).unwrap();
    assert_eq!(value(c.metric.as_ref().unwrap().value), 10.0);
}

#[test]
fn sensors_beside_a_cycle_stay_in_order() {
    let config = config(vec![
        named("s.c1", &[("a", "s.c2")], "a + 1"),
        named("s.c2", &[("a", "s.c1")], "a + 1"),
        named("s.c4", &[("a", "s.c3")], "a + 1"),
        named("s.c3", &[("a", "s.t1")], "a * 2"),
    ]);
    let engine = ComputedEngine::new(&config).unwrap();
    let mut store = store_with(&[("s.t1", 5.0)]);
    run(&engine, &mut store);
    let c4 = store.get(&SensorId("s.c4".into())).unwrap();
    assert_eq!(value(c4.metric.as_ref().unwrap().value), 11.0);
}

#[test]
fn sensors_that_read_each_other_are_all_built() {
    let config = config(vec![
        named("s.c1", &[("a", "s.c2")], "a + 1"),
        named("s.c2", &[("a", "s.c1")], "a + 1"),
    ]);
    let engine = ComputedEngine::new(&config).unwrap();
    assert_eq!(engine.len(), 2);
    let mut store = store_with(&[]);
    run(&engine, &mut store);
    assert!(store.is_empty());
}
