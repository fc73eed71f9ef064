//! Liveness and readiness of the gateway.

use vstd::prelude::*;

use crate::config::{Config, DeviceConfig, EndpointsConfig};
use crate::domain::SensorId;
use crate::store::{MetricStore, SensorState};

verus! {

/// The status of a process that answers.
pub fn healthz() -> (r: &'static str)
    ensures
        r@ == "ok"@,
{
    "ok"
}

/// Two poll intervals can be counted in milliseconds.
pub open spec fn intervals_fit(ds: Seq<DeviceConfig>) -> bool {
    forall|i: int| 0 <= i < ds.len() ==> (#[trigger] ds[i]).poll_interval_ms * 2 <= u64::MAX
}

/// Whether two poll intervals of every device can be counted in milliseconds.
pub fn check_intervals(config: &Config) -> (r: bool)
    ensures
        r == intervals_fit(config.devices@),
{
    let mut i: usize = 0;
    while i < config.devices.len()
        invariant
            i <= config.devices@.len(),
            forall|j: int| 0 <= j < i ==> (#[trigger] config.devices@[j]).poll_interval_ms * 2 <= u64::MAX,
        decreases config.devices@.len() - i,
    {
        if config.devices[i].poll_interval_ms > u64::MAX / 2 {
            assert(config.devices@[i as int].poll_interval_ms * 2 > u64::MAX);
            return false;
        }
        i = i + 1;
    }
    true
}

/// The time of a sensor's latest reading: that of its raw sample, else that of
/// its metric.
pub open spec fn reading_time(store: Map<Seq<char>, SensorState>, id: Seq<char>) -> Option<u64> {
    if store.dom().contains(id) {
        match store[id].raw {
            Some(r) => Some(crate::domain::since_epoch(r.timestamp)),
            None => match store[id].metric {
                Some(m) => Some(crate::domain::since_epoch(m.timestamp)),
                None => None,
            },
        }
    } else {
        None
    }
}

/// A time lies at most `window` before `now`; a later time counts as now.
pub open spec fn within(now: u64, time: u64, window: int) -> bool {
    now - time <= window
}

/// Some register of the device was read within the last two poll intervals.
pub open spec fn device_fresh(store: Map<Seq<char>, SensorState>, d: DeviceConfig, now: u64) -> bool {
    exists|j: int|
        {
            &&& 0 <= j < d.registers@.len()
            &&& reading_time(store, (#[trigger] d.registers@[j]).sensor_id@) matches Some(t) && within(
                now,
                t,
                d.poll_interval_ms * 2,
            )
        }
}

/// The number of registers, among the first `n`, that have been read.
pub open spec fn read_count(store: Map<Seq<char>, SensorState>, d: DeviceConfig, n: int) -> nat
    decreases n,
{
    if n <= 0 {
        0
    } else {
        read_count(store, d, n - 1) + (if reading_time(store, d.registers@[n - 1].sensor_id@) is Some {
            1nat
        } else {
            0nat
        })
    }
}

/// What readiness says of a device.
#[derive(Debug)]
pub struct DeviceHealth {
    pub name: String,
    pub connected: bool,
    pub sensors_total: usize,
    pub sensors_with_data: usize,
}

/// What readiness says of the gateway.
#[derive(Debug)]
pub struct Readiness {
    pub ready: bool,
    /// `ready` or `not_ready`.
    pub status: &'static str,
    /// The HTTP status of the answer.
    pub code: u16,
    pub devices: Vec<DeviceHealth>,
    pub endpoints: EndpointsConfig,
    pub computed_sensors: usize,
}

/// `h` is what readiness says of a device.
pub open spec fn reports_device(h: DeviceHealth, store: Map<Seq<char>, SensorState>, d: DeviceConfig, now: u64) -> bool {
    &&& h.name@ == d.name@
    &&& h.connected == device_fresh(store, d, now)
    &&& h.sensors_total == d.registers@.len()
    &&& h.sensors_with_data == read_count(store, d, d.registers@.len() as int)
}

/// Some device is fresh.
pub open spec fn any_fresh(store: Map<Seq<char>, SensorState>, ds: Seq<DeviceConfig>, now: u64) -> bool {
    exists|i: int| 0 <= i < ds.len() && device_fresh(store, #[trigger] ds[i], now)
}

fn last_reading(store: &MetricStore, id: &String) -> (r: Option<u64>)
    requires
        store.wf(),
    ensures
        r == reading_time(store@, id@),
{
    let id = SensorId(id.clone());
    match store.get(&id) {
        Some(state) => match &state.raw {
            Some(s) => Some(s.timestamp_ms()),
            None => match &state.metric {
                Some(m) => Some(m.timestamp_ms()),
                None => None,
            },
        },
        None => None,
    }
}

fn report_device(store: &MetricStore, d: &DeviceConfig, now: u64) -> (h: DeviceHealth)
    requires
        store.wf(),
        d.poll_interval_ms * 2 <= u64::MAX,
    ensures
        reports_device(h, store@, *d, now),
{
    let window: u64 = d.poll_interval_ms * 2;
    let mut with_data: usize = 0;
    let mut fresh = false;
    let mut j: usize = 0;
    while j < d.registers.len()
        invariant
            store.wf(),
            window == d.poll_interval_ms * 2,
            j <= d.registers@.len(),
            with_data == read_count(store@, *d, j as int),
            with_data <= j,
            fresh == exists|k: int|
                {
                    &&& 0 <= k < j
                    &&& reading_time(store@, (#[trigger] d.registers@[k]).sensor_id@) matches Some(t) && within(
                        now,
                        t,
                        d.poll_interval_ms * 2,
                    )
                },
        decreases d.registers@.len() - j,
    {
        match last_reading(store, &d.registers[j].sensor_id) {
            Some(t) => {
                with_data = with_data + 1;
                if now.saturating_sub(t) <= window {
                    assert(reading_time(store@, d.registers@[j as int].sensor_id@) == Some(t));
                    fresh = true;
                }
            },
            None => {},
        }
        j = j + 1;
    }
    DeviceHealth {
        name: d.name.clone(),
        connected: fresh,
        sensors_total: d.registers.len(),
        sensors_with_data: with_data,
    }
}

/// The readiness of the gateway at time `now`: it is ready while a device was
/// read within its last two poll intervals.
pub fn readyz(config: &Config, store: &MetricStore, now: u64) -> (r: Readiness)
    requires
        store.wf(),
        intervals_fit(config.devices@),
    ensures
        r.ready == any_fresh(store@, config.devices@, now),
        r.status@ == (if r.ready {
            "ready"@
        } else {
            "not_ready"@
        }),
        r.code == (if r.ready {
            200u16
        } else {
            503u16
        }),
        r.devices@.len() == config.devices@.len(),
        forall|i: int|
            0 <= i < r.devices@.len() ==> reports_device(#[trigger] r.devices@[i], store@, config.devices@[i], now),
        r.endpoints == config.endpoints,
        r.computed_sensors == config.computed@.len(),
{
    let mut devices: Vec<DeviceHealth> = Vec::new();
    let mut ready = false;
    let mut i: usize = 0;
    while i < config.devices.len()
        invariant
            store.wf(),
            intervals_fit(config.devices@),
            i <= config.devices@.len(),
            devices@.len() == i,
            forall|j: int|
                0 <= j < i ==> reports_device(#[trigger] devices@[j], store@, config.devices@[j], now),
            ready == exists|j: int| 0 <= j < i && device_fresh(store@, #[trigger] config.devices@[j], now),
        decreases config.devices@.len() - i,
    {
        assert(config.devices@[i as int].poll_interval_ms * 2 <= u64::MAX);
        let h = report_device(store, &config.devices[i], now);
        if h.connected {
            assert(device_fresh(store@, config.devices@[i as int], now));
            ready = true;
        }
        devices.push(h);
        i = i + 1;
    }
    Readiness {
        ready,
        status: if ready {
            "ready"
        } else {
            "not_ready"
        },
        code: if ready {
            200
        } else {
            503
        },
        devices,
        endpoints: config.endpoints,
        computed_sensors: config.computed.len(),
    }
}

/// A gateway that has read nothing is not ready.
pub proof fn nothing_read_is_not_ready(ds: Seq<DeviceConfig>, now: u64)
    ensures
        !any_fresh(Map::<Seq<char>, SensorState>::empty(), ds, now),
{
}

} // verus!
