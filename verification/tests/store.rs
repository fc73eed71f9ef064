use telemux::domain::{Metric, MetricStatus, RawSample, SensorId};
use telemux::number::Real;
use telemux::store::MetricStore;

fn num(v: f64) -> Real {
    Real { bits: v.to_bits() }
}

fn raw(id: &str, value: f64) -> RawSample {
    RawSample {
        sensor_id: SensorId(id.into()),
        name: id.into(),
        raw_value: num(value),
        unit: None,
        timestamp: 0,
    }
}

fn metric(id: &str, value: f64) -> Metric {
    Metric {
        sensor_id: SensorId(id.into()),
        value: num(value),
        unit: None,
        status: MetricStatus::Normal,
        timestamp: 0,
    }
}

#[test]
fn update_raw_then_metric() {
    let mut store = MetricStore::new();
    let id = SensorId("s.1".into());
    store.update_raw(raw("s.1", 100.0));
    let state = store.get(&id).unwrap();
    assert_eq!(state.raw.as_ref().unwrap().raw_value, num(100.0));
    assert!(state.metric.is_none());

    store.update_metric(Some(raw("s.1", 101.0)), metric("s.1", 10.1));
    let state = store.get(&id).unwrap();
    assert_eq!(state.raw.as_ref().unwrap().raw_value, num(101.0));
    assert_eq!(state.metric.as_ref().unwrap().value, num(10.1));
    assert_eq!(store.len(), 1);
}

#[test]
fn update_metric_without_raw_for_computed() {
    let mut store = MetricStore::new();
    store.update_metric(None, metric("s.dew", 18.6));
    let state = store.get(&SensorId("s.dew".into())).unwrap();
    assert!(state.raw.is_none(), "computed sensors have no raw");
    assert_eq!(state.metric.as_ref().unwrap().value, num(18.6));
}

#[test]
fn update_raw_keeps_previous_metric() {
    let mut store = MetricStore::new();
    store.update_metric(Some(raw("s.1", 1.0)), metric("s.1", 1.0));
    store.update_raw(raw("s.1", 2.0));
    let state = store.get(&SensorId("s.1".into())).unwrap();
    assert_eq!(state.raw.as_ref().unwrap().raw_value, num(2.0));
    assert_eq!(state.metric.as_ref().unwrap().value, num(1.0));
}

#[test]
fn snapshot_and_revision_notify() {
    let mut store = MetricStore::new();
    let seen = store.revision();
    store.update_raw(raw("s.1", 1.0));
    store.update_metric(Some(raw("s.2", 2.0)), metric("s.2", 2.0));
    let snap = store.snapshot();
    assert_eq!(snap.len(), 2);
    assert!(store.revision() != seen);
    assert_eq!(store.revision(), 2);
}

#[test]
fn a_batch_is_recorded_in_order() {
    let mut store = MetricStore::default();
    assert!(store.is_empty());
    store.update_batch_raw(&vec![raw("a", 1.0), raw("b", 2.0), raw("a", 3.0)]);
    assert_eq!(store.len(), 2);
    assert_eq!(store.revision(), 3);
    assert_eq!(store.get(&SensorId("a".into())).unwrap().raw.as_ref().unwrap().raw_value, num(3.0));
    assert_eq!(store.get(&SensorId("b".into())).unwrap().raw.as_ref().unwrap().raw_value, num(2.0));
    assert!(store.get(&SensorId("c".into())).is_none());
}

#[test]
fn a_write_of_the_same_sensor_is_noticed() {
    let mut store = MetricStore::new();
    store.update_raw(raw("s.1", 1.0));
    let seen = store.revision();
    store.update_raw(raw("s.1", 1.0));
    assert_ne!(store.revision(), seen);
    assert_eq!(store.len(), 1);
}
