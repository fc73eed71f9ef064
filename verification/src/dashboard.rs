//! What the development dashboard shows.

use vstd::prelude::*;

use crate::config::{Config, DeviceConfig, PipelineConfig, RegisterConfig, Transport};
use crate::domain::{copy_text, Metric, MetricStatus, RawSample, SensorId};
use crate::number::Real;
use crate::protocol::redfish::{function_str, value_type_str, word_order_str};
use crate::store::{MetricStore, SensorEntry, SensorState};
use crate::text::same_string;

verus! {

/// A raw value.
#[derive(Debug)]
pub struct ValueSnapshot {
    pub value: Real,
    pub timestamp_ms: u64,
}

/// A metric.
#[derive(Debug)]
pub struct MetricSnapshot {
    pub value: Real,
    pub unit: Option<String>,
    pub status: MetricStatus,
    pub timestamp_ms: u64,
}

/// What is shown of a raw sample.
pub open spec fn value_shown(s: RawSample) -> ValueSnapshot {
    ValueSnapshot { value: s.raw_value, timestamp_ms: crate::domain::since_epoch(s.timestamp) }
}

/// What is shown of a metric.
pub open spec fn metric_shown(m: Metric) -> MetricSnapshot {
    MetricSnapshot {
        value: m.value,
        unit: m.unit,
        status: m.status,
        timestamp_ms: crate::domain::since_epoch(m.timestamp),
    }
}

/// What is shown of an optional raw sample.
pub open spec fn raw_shown(o: Option<RawSample>) -> Option<ValueSnapshot> {
    match o {
        Some(s) => Some(value_shown(s)),
        None => None,
    }
}

/// What is shown of an optional metric.
pub open spec fn optional_metric_shown(o: Option<Metric>) -> Option<MetricSnapshot> {
    match o {
        Some(m) => Some(metric_shown(m)),
        None => None,
    }
}

fn show_raw(o: &Option<RawSample>) -> (r: Option<ValueSnapshot>)
    ensures
        r == raw_shown(*o),
{
    match o {
        Some(s) => Some(ValueSnapshot { value: s.raw_value, timestamp_ms: s.timestamp_ms() }),
        None => None,
    }
}

fn show_metric(o: &Option<Metric>) -> (r: Option<MetricSnapshot>)
    ensures
        r == optional_metric_shown(*o),
{
    match o {
        Some(m) => Some(
            MetricSnapshot {
                value: m.value,
                unit: copy_text(&m.unit),
                status: m.status,
                timestamp_ms: m.timestamp_ms(),
            },
        ),
        None => None,
    }
}

/// The latest values of one sensor.
#[derive(Debug)]
pub struct SampleUpdate {
    pub sensor_id: String,
    pub raw: Option<ValueSnapshot>,
    pub metric: Option<MetricSnapshot>,
}

/// The latest values of the sensors that have any.
#[derive(Debug)]
pub struct UpdateMessage {
    pub kind: &'static str,
    pub generated_at_ms: u64,
    pub samples: Vec<SampleUpdate>,
}

/// `u` shows the state of a sensor.
pub open spec fn shows_entry(u: SampleUpdate, e: SensorEntry) -> bool {
    &&& u.sensor_id@ == e.sensor_id.0@
    &&& u.raw == raw_shown(e.state.raw)
    &&& u.metric == optional_metric_shown(e.state.metric)
}

/// The latest values of every sensor that has any, at time `now`.
pub fn build_update(store: &MetricStore, now: u64) -> (r: UpdateMessage)
    requires
        store.wf(),
    ensures
        r.kind@ == "update"@,
        r.generated_at_ms == now,
        r.samples@.len() == store@.dom().len(),
        exists|entries: Seq<SensorEntry>|
            {
                &&& #[trigger] crate::store::states(entries) == store@
                &&& crate::store::one_entry_each(entries)
                &&& entries.len() == r.samples@.len()
                &&& forall|i: int| 0 <= i < entries.len() ==> shows_entry(#[trigger] r.samples@[i], entries[i])
            },
{
    let entries = store.snapshot();
    let mut samples: Vec<SampleUpdate> = Vec::new();
    let mut i: usize = 0;
    while i < entries.len()
        invariant
            i <= entries@.len(),
            samples@.len() == i,
            forall|j: int| 0 <= j < i ==> shows_entry(#[trigger] samples@[j], entries@[j]),
        decreases entries@.len() - i,
    {
        samples.push(
            SampleUpdate {
                sensor_id: entries[i].sensor_id.0.clone(),
                raw: show_raw(&entries[i].state.raw),
                metric: show_metric(&entries[i].state.metric),
            },
        );
        i = i + 1;
    }
    assert(crate::store::states(entries@) == store@);
    UpdateMessage { kind: "update", generated_at_ms: now, samples }
}

/// A register and its latest values.
#[derive(Debug)]
pub struct RegisterSnapshot {
    pub name: String,
    pub sensor_id: String,
    pub function: &'static str,
    pub address: u16,
    pub count: u16,
    pub value_type: &'static str,
    pub word_order: &'static str,
    pub unit: Option<String>,
    pub raw: Option<ValueSnapshot>,
    pub metric: Option<MetricSnapshot>,
    /// The formula of the register's pipeline.
    pub formula: Option<String>,
    /// The formulas of its stages.
    pub stages: Vec<String>,
}

/// A device and its registers.
#[derive(Debug)]
pub struct DeviceSnapshot {
    pub name: String,
    pub transport: &'static str,
    pub host: String,
    pub port: u16,
    /// A raw sample came within the last two poll intervals.
    pub connected: bool,
    pub registers: Vec<RegisterSnapshot>,
}

/// Every device.
#[derive(Debug)]
pub struct DashboardSnapshot {
    pub generated_at_ms: u64,
    pub devices: Vec<DeviceSnapshot>,
}

pub open spec fn transport_name(t: Transport) -> Seq<char> {
    match t {
        Transport::Tcp => "tcp"@,
        Transport::Rtu => "rtu"@,
        Transport::Sim => "sim"@,
    }
}

/// The name of a transport as the configuration writes it.
pub fn transport_str(t: Transport) -> (r: &'static str)
    ensures
        r@ == transport_name(t),
{
    match t {
        Transport::Tcp => "tcp",
        Transport::Rtu => "rtu",
        Transport::Sim => "sim",
    }
}

/// The newest time lies within the last two poll intervals.
pub open spec fn fresh(newest: Option<u64>, poll_interval_ms: u64, now: u64) -> bool {
    newest matches Some(t) && now - t <= poll_interval_ms * 2
}

/// Whether the newest time lies within the last two poll intervals.
pub fn is_fresh(newest: Option<u64>, poll_interval_ms: u64, now: u64) -> (r: bool)
    requires
        poll_interval_ms * 2 <= u64::MAX,
    ensures
        r == fresh(newest, poll_interval_ms, now),
{
    match newest {
        Some(t) => now.saturating_sub(t) <= poll_interval_ms * 2,
        None => false,
    }
}

/// The time of a sensor's raw sample.
pub open spec fn raw_time(store: Map<Seq<char>, SensorState>, id: Seq<char>) -> Option<u64> {
    if store.dom().contains(id) && store[id].raw is Some {
        Some(crate::domain::since_epoch(store[id].raw->0.timestamp))
    } else {
        None
    }
}

/// The later of two times; a time is later than none.
pub open spec fn later(a: Option<u64>, b: Option<u64>) -> Option<u64> {
    match (a, b) {
        (Some(x), Some(y)) => if x < y {
            Some(y)
        } else {
            Some(x)
        },
        (Some(x), None) => Some(x),
        (None, y) => y,
    }
}

/// The time of the newest raw sample of the first `n` registers.
pub open spec fn newest_raw(store: Map<Seq<char>, SensorState>, rs: Seq<RegisterConfig>, n: int) -> Option<u64>
    decreases n,
{
    if n <= 0 {
        None
    } else {
        later(newest_raw(store, rs, n - 1), raw_time(store, rs[n - 1].sensor_id@))
    }
}

/// The formulas of the stages of the sensor's pipeline, the first one from
/// pipeline `i` on; none where there is no pipeline.
pub open spec fn stage_formulas(
    pipelines: Seq<PipelineConfig>,
    shown: Seq<Vec<Vec<String>>>,
    id: Seq<char>,
    i: int,
) -> Option<Seq<Seq<char>>>
    decreases pipelines.len() - i,
{
    if i >= pipelines.len() {
        None
    } else if pipelines[i].sensor_id@ == id {
        Some(crate::pipeline::describe::formulas(pipelines[i], shown[i]@))
    } else {
        stage_formulas(pipelines, shown, id, i + 1)
    }
}

/// `s` shows a register.
pub open spec fn shows_register(
    s: RegisterSnapshot,
    c: Config,
    store: Map<Seq<char>, SensorState>,
    shown: Seq<Vec<Vec<String>>>,
    r: RegisterConfig,
) -> bool {
    let id = r.sensor_id@;
    let stages = stage_formulas(c.pipelines@, shown, id, 0);
    &&& s.name@ == r.name@
    &&& s.sensor_id@ == id
    &&& s.function@ == crate::protocol::redfish::function_key(r.function)
    &&& s.address == r.address
    &&& s.count == r.count_or_width()
    &&& s.value_type@ == crate::protocol::redfish::value_type_key(r.value_type)
    &&& s.word_order@ == crate::protocol::redfish::word_order_key(r.word_order)
    &&& s.unit == r.unit
    &&& s.raw == (if store.dom().contains(id) {
        raw_shown(store[id].raw)
    } else {
        None
    })
    &&& s.metric == (if store.dom().contains(id) {
        optional_metric_shown(store[id].metric)
    } else {
        None
    })
    &&& crate::expression::text_of(s.formula) == (match stages {
        Some(fs) => Some(crate::text::joined(fs, " → "@)),
        None => None,
    })
    &&& crate::expression::texts(s.stages@) == (match stages {
        Some(fs) => fs,
        None => Seq::empty(),
    })
}

/// `s` shows a device.
pub open spec fn shows_device(
    s: DeviceSnapshot,
    c: Config,
    store: Map<Seq<char>, SensorState>,
    shown: Seq<Vec<Vec<String>>>,
    d: DeviceConfig,
    now: u64,
) -> bool {
    &&& s.name@ == d.name@
    &&& s.transport@ == transport_name(d.transport)
    &&& s.host@ == d.host@
    &&& s.port == d.port
    &&& s.connected == fresh(
        newest_raw(store, d.registers@, d.registers@.len() as int),
        d.poll_interval_ms,
        now,
    )
    &&& s.registers@.len() == d.registers@.len()
    &&& forall|j: int|
        0 <= j < s.registers@.len() ==> shows_register(#[trigger] s.registers@[j], c, store, shown, d.registers@[j])
}

fn describe_stages(config: &Config, shown: &Vec<Vec<Vec<String>>>, id: &String) -> (r: Option<Vec<String>>)
    requires
        crate::protocol::views::shows_all(*config, shown@),
    ensures
        r is Some <==> stage_formulas(config.pipelines@, shown@, id@, 0) is Some,
        r matches Some(fs) ==> stage_formulas(config.pipelines@, shown@, id@, 0) == Some(
            crate::expression::texts(fs@),
        ),
{
    let mut i: usize = 0;
    while i < config.pipelines.len()
        invariant
            i <= config.pipelines@.len(),
            crate::protocol::views::shows_all(*config, shown@),
            stage_formulas(config.pipelines@, shown@, id@, 0) == stage_formulas(
                config.pipelines@,
                shown@,
                id@,
                i as int,
            ),
        decreases config.pipelines@.len() - i,
    {
        if same_string(&config.pipelines[i].sensor_id, id) {
            let p = &config.pipelines[i];
            let texts = &shown[i];
            assert(crate::pipeline::describe::shows(*p, texts@));
            let ghost want = crate::pipeline::describe::formulas(*p, texts@);
            let mut fs: Vec<String> = Vec::new();
            let mut k: usize = 0;
            while k < p.stages.len()
                invariant
                    k <= p.stages@.len(),
                    crate::pipeline::describe::shows(*p, texts@),
                    want == crate::pipeline::describe::formulas(*p, texts@),
                    fs@.len() == k,
                    forall|j: int| 0 <= j < k ==> (#[trigger] fs@[j])@ == want[j],
                decreases p.stages@.len() - k,
            {
                assert(texts@[k as int]@.len() == crate::pipeline::describe::shown_numbers(
                    p.stages@[k as int],
                ).len());
                fs.push(crate::pipeline::describe::describe_stage(&p.stages[k], &texts[k]));
                k = k + 1;
            }
            assert(crate::expression::texts(fs@) =~= want);
            return Some(fs);
        }
        i = i + 1;
    }
    None
}

fn show_register(config: &Config, store: &MetricStore, shown: &Vec<Vec<Vec<String>>>, r: &RegisterConfig) -> (s:
    RegisterSnapshot)
    requires
        store.wf(),
        crate::protocol::views::shows_all(*config, shown@),
    ensures
        shows_register(s, *config, store@, shown@, *r),
{
    let id = SensorId(r.sensor_id.clone());
    let (raw, metric) = match store.get(&id) {
        Some(state) => (show_raw(&state.raw), show_metric(&state.metric)),
        None => (None, None),
    };
    let (formula, stages) = match describe_stages(config, shown, &r.sensor_id) {
        Some(fs) => {
            let all = crate::text::join_all(&fs, " → ");
            assert(fs@.map_values(|s: String| s@) =~= crate::expression::texts(fs@));
            (Some(all), fs)
        },
        None => (None, Vec::new()),
    };
    assert(stage_formulas(config.pipelines@, shown@, r.sensor_id@, 0) is None ==> crate::expression::texts(stages@)
        =~= Seq::<Seq<char>>::empty());
    RegisterSnapshot {
        name: r.name.clone(),
        sensor_id: r.sensor_id.clone(),
        function: function_str(r.function),
        address: r.address,
        count: r.effective_count(),
        value_type: value_type_str(r.value_type),
        word_order: word_order_str(r.word_order),
        unit: copy_text(&r.unit),
        raw,
        metric,
        formula,
        stages,
    }
}

fn raw_time_of(store: &MetricStore, id: &String) -> (r: Option<u64>)
    requires
        store.wf(),
    ensures
        r == raw_time(store@, id@),
{
    let id = SensorId(id.clone());
    match store.get(&id) {
        Some(state) => match &state.raw {
            Some(s) => Some(s.timestamp_ms()),
            None => None,
        },
        None => None,
    }
}

fn show_device(config: &Config, store: &MetricStore, shown: &Vec<Vec<Vec<String>>>, d: &DeviceConfig, now: u64) -> (s:
    DeviceSnapshot)
    requires
        store.wf(),
        crate::protocol::views::shows_all(*config, shown@),
        d.poll_interval_ms * 2 <= u64::MAX,
    ensures
        shows_device(s, *config, store@, shown@, *d, now),
{
    let mut registers: Vec<RegisterSnapshot> = Vec::new();
    let mut newest: Option<u64> = None;
    let mut j: usize = 0;
    while j < d.registers.len()
        invariant
            store.wf(),
            crate::protocol::views::shows_all(*config, shown@),
            j <= d.registers@.len(),
            newest == newest_raw(store@, d.registers@, j as int),
            registers@.len() == j,
            forall|k: int|
                0 <= k < j ==> shows_register(#[trigger] registers@[k], *config, store@, shown@, d.registers@[k]),
        decreases d.registers@.len() - j,
    {
        let t = raw_time_of(store, &d.registers[j].sensor_id);
        newest = match (newest, t) {
            (Some(x), Some(y)) => if x < y {
                Some(y)
            } else {
                Some(x)
            },
            (Some(x), None) => Some(x),
            (None, y) => y,
        };
        registers.push(show_register(config, store, shown, &d.registers[j]));
        j = j + 1;
    }
    DeviceSnapshot {
        name: d.name.clone(),
        transport: transport_str(d.transport),
        host: d.host.clone(),
        port: d.port,
        connected: is_fresh(newest, d.poll_interval_ms, now),
        registers,
    }
}

/// Every device with its registers and their latest values at time `now`,
/// given the texts of the numbers of the pipeline stages.
pub fn build_snapshot(config: &Config, store: &MetricStore, shown: &Vec<Vec<Vec<String>>>, now: u64) -> (r:
    DashboardSnapshot)
    requires
        store.wf(),
        crate::protocol::views::shows_all(*config, shown@),
        crate::health::intervals_fit(config.devices@),
    ensures
        r.generated_at_ms == now,
        r.devices@.len() == config.devices@.len(),
        forall|i: int|
            0 <= i < r.devices@.len() ==> shows_device(
                #[trigger] r.devices@[i],
                *config,
                store@,
                shown@,
                config.devices@[i],
                now,
            ),
{
    let mut devices: Vec<DeviceSnapshot> = Vec::new();
    let mut i: usize = 0;
    while i < config.devices.len()
        invariant
            store.wf(),
            crate::protocol::views::shows_all(*config, shown@),
            crate::health::intervals_fit(config.devices@),
            i <= config.devices@.len(),
            devices@.len() == i,
            forall|j: int|
                0 <= j < i ==> shows_device(
                    #[trigger] devices@[j],
                    *config,
                    store@,
                    shown@,
                    config.devices@[j],
                    now,
                ),
        decreases config.devices@.len() - i,
    {
        assert(config.devices@[i as int].poll_interval_ms * 2 <= u64::MAX);
        devices.push(show_device(config, store, shown, &config.devices[i], now));
        i = i + 1;
    }
    DashboardSnapshot { generated_at_ms: now, devices }
}

/// The least poll interval of the first `n` devices; none where there is none.
pub open spec fn least_interval(ds: Seq<DeviceConfig>, n: int) -> Option<u64>
    decreases n,
{
    if n <= 0 {
        None
    } else {
        match least_interval(ds, n - 1) {
            None => Some(ds[n - 1].poll_interval_ms),
            Some(x) => if ds[n - 1].poll_interval_ms < x {
                Some(ds[n - 1].poll_interval_ms)
            } else {
                Some(x)
            },
        }
    }
}

/// The interval between two updates in milliseconds: the least poll interval,
/// a second where there is no device, and at least a quarter of a second.
pub fn update_interval(config: &Config) -> (r: u64)
    ensures
        ({
            let x = match least_interval(config.devices@, config.devices@.len() as int) {
                Some(x) => x,
                None => 1000,
            };
            r == (if x < 250 {
                250u64
            } else {
                x
            })
        }),
{
    let mut least: Option<u64> = None;
    let mut i: usize = 0;
    while i < config.devices.len()
        invariant
            i <= config.devices@.len(),
            least == least_interval(config.devices@, i as int),
        decreases config.devices@.len() - i,
    {
        let p: u64 = config.devices[i].poll_interval_ms;
        least = match least {
            None => Some(p),
            Some(x) => if p < x {
                Some(p)
            } else {
                Some(x)
            },
        };
        i = i + 1;
    }
    let x: u64 = match least {
        Some(x) => x,
        None => 1000,
    };
    if x < 250 {
        250
    } else {
        x
    }
}

} // verus!
