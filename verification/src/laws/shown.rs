//! What the store keeps, and what the protocols, the health checks and the
//! dashboard show of it.

use vstd::prelude::*;

use crate::config::{
    Access, AggregateMode, ComputedConfig, Config, DeviceConfig, PipelineConfig, RegisterConfig, RegisterFunction, StageConfig,
    Transport, ValueType, WordOrder,
};
use crate::dashboard::{
    build_snapshot, build_update, is_fresh, transport_str, update_interval, DashboardSnapshot, SampleUpdate,
    UpdateMessage,
};
use crate::domain::{Metric, MetricStatus, RawSample, SensorId};
use crate::health::{healthz, readyz, Readiness};
use crate::laws::computed::latest_is;
use crate::number::Real;
use crate::pipeline::describe::{describe_pipeline, describe_stage, stage_numbers};
use crate::protocol::views::{build_views, latest_value, SensorView};
use crate::store::{MetricStore, SensorState};

verus! {

// ---- the store ----

/// A raw sample that was stored is the raw sample of its sensor; the sensor's
/// metric stays, and so does every other sensor.
pub proof fn a_stored_sample_is_kept(m: Map<Seq<char>, SensorState>, sample: RawSample, other: Seq<char>)
    requires
        other != sample.sensor_id.0@,
    ensures
        ({
            let id = sample.sensor_id.0@;
            let after = crate::store::with_raw(m, sample);
            &&& after.dom().contains(id)
            &&& after[id].raw == Some(sample)
            &&& (m.dom().contains(id) ==> after[id].metric == m[id].metric)
            &&& (!m.dom().contains(id) ==> after[id].metric is None)
            &&& after.dom().contains(other) == m.dom().contains(other)
            &&& (m.dom().contains(other) ==> after[other] == m[other])
        }),
{
}

/// A metric that was stored is the metric of its sensor, beside the raw sample
/// it came with; every other sensor stays.
pub proof fn a_stored_metric_is_kept(
    m: Map<Seq<char>, SensorState>,
    raw: Option<RawSample>,
    metric: Metric,
    other: Seq<char>,
)
    requires
        other != metric.sensor_id.0@,
    ensures
        ({
            let id = metric.sensor_id.0@;
            let after = crate::store::with_metric(m, raw, metric);
            &&& after.dom().contains(id)
            &&& after[id].raw == raw
            &&& after[id].metric == Some(metric)
            &&& after.dom().contains(other) == m.dom().contains(other)
            &&& (m.dom().contains(other) ==> after[other] == m[other])
        }),
{
}

/// Of a batch, each sensor keeps the last sample that is its own.
pub proof fn the_last_sample_of_a_batch_is_kept(
    m: Map<Seq<char>, SensorState>,
    batch: Seq<RawSample>,
    n: int,
    k: int,
)
    requires
        0 <= k < n <= batch.len(),
        forall|j: int| k < j < n ==> (#[trigger] batch[j]).sensor_id.0@ != batch[k].sensor_id.0@,
    ensures
        crate::store::with_batch(m, batch, n).dom().contains(batch[k].sensor_id.0@),
        crate::store::with_batch(m, batch, n)[batch[k].sensor_id.0@].raw == Some(batch[k]),
    decreases n,
{
    if k < n - 1 {
        the_last_sample_of_a_batch_is_kept(m, batch, n - 1, k);
        assert(batch[n - 1].sensor_id.0@ != batch[k].sensor_id.0@);
    }
}

/// A batch leaves a sensor that it has no sample of.
pub proof fn a_batch_leaves_other_sensors(m: Map<Seq<char>, SensorState>, batch: Seq<RawSample>, n: int, id: Seq<char>)
    requires
        0 <= n <= batch.len(),
        forall|j: int| 0 <= j < n ==> (#[trigger] batch[j]).sensor_id.0@ != id,
    ensures
        crate::store::with_batch(m, batch, n).dom().contains(id) == m.dom().contains(id),
        m.dom().contains(id) ==> crate::store::with_batch(m, batch, n)[id] == m[id],
    decreases n,
{
    if n > 0 {
        a_batch_leaves_other_sensors(m, batch, n - 1, id);
        assert(batch[n - 1].sensor_id.0@ != id);
    }
}

/// A write counts one further; after the highest number it counts from zero
/// again. A batch counts as many writes as it has samples.
pub proof fn every_write_counts(n: u64, k: nat)
    ensures
        n < u64::MAX ==> crate::store::next_write(n) == n + 1,
        n == u64::MAX ==> crate::store::next_write(n) == 0,
        n + k <= u64::MAX ==> crate::store::later_write(n, k) == n + k,
        crate::store::later_write(n, k + 1) == crate::store::next_write(crate::store::later_write(n, k)),
{
}

/// A time before the epoch counts as the epoch; every other time stays.
pub proof fn a_time_is_kept(t: i64)
    ensures
        t >= 0 ==> crate::domain::since_epoch(t) == t,
        t < 0 ==> crate::domain::since_epoch(t) == 0,
{
}

// ---- views ----

/// The latest value is the metric's, with its status and time; of a sensor that
/// only has a raw sample it is the sample's, and the status is unknown. A sensor
/// without either has no value and no time.
pub proof fn the_latest_value_is_shown(
    store: &MetricStore,
    id: &String,
    r: (Option<Real>, MetricStatus, Option<u64>),
)
    requires
        call_ensures(latest_value, (store, id), r),
    ensures
        shows_latest(store@, id@, r.0, r.1, r.2),
{
}

/// The value, status and time are the latest of the sensor.
pub open spec fn shows_latest(
    store: Map<Seq<char>, SensorState>,
    id: Seq<char>,
    value: Option<Real>,
    status: MetricStatus,
    time: Option<u64>,
) -> bool {
    let metric = if store.dom().contains(id) {
        store[id].metric
    } else {
        None
    };
    let raw = if store.dom().contains(id) {
        store[id].raw
    } else {
        None
    };
    &&& (metric matches Some(m) ==> value == Some(m.value) && status == m.status && (m.timestamp >= 0 ==> time == Some(
        m.timestamp as u64,
    )) && (m.timestamp < 0 ==> time == Some(0u64)))
    &&& ((metric is None && raw is Some) ==> value == Some(raw->0.raw_value) && status == MetricStatus::Unknown && (
    raw->0.timestamp >= 0 ==> time == Some(raw->0.timestamp as u64)) && (raw->0.timestamp < 0 ==> time == Some(0u64)))
    &&& ((metric is None && raw is None) ==> value is None && status == MetricStatus::Unknown && time is None)
    &&& (value matches Some(v) ==> latest_is(store, id, v))
}

/// The number of registers of the first `n` devices.
pub open spec fn registers_before(ds: Seq<DeviceConfig>, n: int) -> int
    decreases n,
{
    if n <= 0 {
        0
    } else {
        registers_before(ds, n - 1) + ds[n - 1].registers@.len()
    }
}

/// The view shows the register of the device as it is configured.
pub open spec fn shows_as_configured(v: SensorView, d: DeviceConfig, r: RegisterConfig) -> bool {
    &&& v.sensor_id@ == r.sensor_id@
    &&& v.name@ == r.name@
    &&& v.device@ == d.name@
    &&& !v.is_computed
    &&& v.function == r.function
    &&& v.access == r.access
    &&& v.address == r.address
    &&& v.value_type == r.value_type
    &&& v.word_order == r.word_order
    &&& (r.unit is Some <==> v.unit is Some)
    &&& (r.unit matches Some(u) ==> v.unit->0@ == u@)
}

proof fn lemma_facts_before(c: Config, store: Map<Seq<char>, SensorState>, shown: Seq<Vec<Vec<String>>>, n: int, i: int, j: int)
    requires
        0 <= i < n <= c.devices@.len(),
        0 <= j < c.devices@[i].registers@.len(),
    ensures
        crate::protocol::views::devices_facts(c, store, shown, n).len() == registers_before(c.devices@, n),
        0 <= registers_before(c.devices@, i) + j < registers_before(c.devices@, n),
        crate::protocol::views::devices_facts(c, store, shown, n)[registers_before(c.devices@, i) + j]
            == crate::protocol::views::register_facts(c, store, shown, c.devices@[i], c.devices@[i].registers@[j]),
    decreases n,
{
    lemma_facts_count(c, store, shown, n - 1);
    if i < n - 1 {
        lemma_facts_before(c, store, shown, n - 1, i, j);
    }
}

proof fn lemma_facts_count(c: Config, store: Map<Seq<char>, SensorState>, shown: Seq<Vec<Vec<String>>>, n: int)
    requires
        0 <= n <= c.devices@.len(),
    ensures
        crate::protocol::views::devices_facts(c, store, shown, n).len() == registers_before(c.devices@, n),
        registers_before(c.devices@, n) >= 0,
    decreases n,
{
    if n > 0 {
        lemma_facts_count(c, store, shown, n - 1);
    }
}

/// Every register of every device has a view, in the order of the
/// configuration: it shows the register as it is configured, and the latest value
/// of its sensor.
pub proof fn every_register_has_a_view(
    config: &Config,
    store: &MetricStore,
    shown: &Vec<Vec<Vec<String>>>,
    views: Vec<SensorView>,
    i: int,
    j: int,
)
    requires
        call_ensures(build_views, (config, store, shown), views),
        0 <= i < config.devices@.len(),
        0 <= j < config.devices@[i].registers@.len(),
    ensures
        ({
            let at = registers_before(config.devices@, i) + j;
            let r = config.devices@[i].registers@[j];
            &&& 0 <= at < views@.len()
            &&& shows_as_configured(views@[at], config.devices@[i], r)
            &&& shows_latest(store@, r.sensor_id@, views@[at].value, views@[at].status, views@[at].timestamp_ms)
        }),
{
    let n = config.devices@.len() as int;
    let at = registers_before(config.devices@, i) + j;
    lemma_facts_before(*config, store@, shown@, n, i, j);
    assert(crate::protocol::views::facts(views@).len() == views@.len());
    assert(crate::protocol::views::facts(views@)[at] == views@[at]@);
    let r = config.devices@[i].registers@[j];
    assert(views@[at]@ == crate::protocol::views::register_facts(*config, store@, shown@, config.devices@[i], r));
    assert(views@[at]@.unit == crate::expression::text_of(r.unit));
}

/// Behind the registers every computed sensor has a view: it belongs to no
/// device, cannot be written, and shows the latest value and the expression with
/// the sensors it is computed from.
pub proof fn every_computed_sensor_has_a_view(
    config: &Config,
    store: &MetricStore,
    shown: &Vec<Vec<Vec<String>>>,
    views: Vec<SensorView>,
    i: int,
)
    requires
        call_ensures(build_views, (config, store, shown), views),
        0 <= i < config.computed@.len(),
    ensures
        ({
            let at = registers_before(config.devices@, config.devices@.len() as int) + i;
            let c = config.computed@[i];
            &&& views@.len() == registers_before(config.devices@, config.devices@.len() as int) + config.computed@.len()
            &&& 0 <= at < views@.len()
            &&& views@[at].sensor_id@ == c.sensor_id@
            &&& views@[at].name@ == c.name@
            &&& views@[at].device@.len() == 0
            &&& views@[at].is_computed
            &&& views@[at].access == Access::Read
            &&& views@[at].function == RegisterFunction::Input
            &&& views@[at].value_type == ValueType::F32
            &&& views@[at].address == 0
            &&& views@[at].word_order == WordOrder::Big
            &&& (c.unit is Some <==> views@[at].unit is Some)
            &&& (c.unit matches Some(u) ==> views@[at].unit->0@ == u@)
            &&& (views@[at].formula matches Some(f) && f@ == c.expression@ + "  (computed from "@
                + crate::text::joined(c.inputs@.map_values(|p: (String, String)| p.1@), ", "@) + ")"@)
            &&& shows_latest(store@, c.sensor_id@, views@[at].value, views@[at].status, views@[at].timestamp_ms)
        }),
{
    let n = config.devices@.len() as int;
    let at = registers_before(config.devices@, n) + i;
    lemma_facts_count(*config, store@, shown@, n);
    assert(crate::protocol::views::facts(views@).len() == views@.len());
    assert(crate::protocol::views::facts(views@)[at] == views@[at]@);
    let c = config.computed@[i];
    assert(views@[at]@ == crate::protocol::views::computed_facts(store@, c));
    assert(views@[at]@.unit == crate::expression::text_of(c.unit));
    reveal_strlit("");
}

/// A register whose sensor has a pipeline shows the formula of that pipeline;
/// one without shows none.
pub proof fn a_register_shows_its_pipeline(
    pipelines: Seq<PipelineConfig>,
    shown: Seq<Vec<Vec<String>>>,
    id: Seq<char>,
    k: int,
    i: int,
)
    requires
        0 <= i <= k <= pipelines.len(),
        forall|j: int| i <= j < k ==> (#[trigger] pipelines[j]).sensor_id@ != id,
        k < pipelines.len() ==> pipelines[k].sensor_id@ == id,
    ensures
        k == pipelines.len() ==> crate::protocol::views::pipeline_formula(pipelines, shown, id, i) is None,
        k < pipelines.len() ==> crate::protocol::views::pipeline_formula(pipelines, shown, id, i) == Some(
            crate::text::joined(crate::pipeline::describe::formulas(pipelines[k], shown[k]@), " → "@),
        ),
        k == pipelines.len() ==> crate::dashboard::stage_formulas(pipelines, shown, id, i) is None,
        k < pipelines.len() ==> crate::dashboard::stage_formulas(pipelines, shown, id, i) == Some(
            crate::pipeline::describe::formulas(pipelines[k], shown[k]@),
        ),
    decreases k - i,
{
    if i < k {
        a_register_shows_its_pipeline(pipelines, shown, id, k, i + 1);
    }
}

// ---- formulas ----

/// The formula of a scaling shows the factor, the offset unless it is zero, and
/// the unit where there is a new one.
pub proof fn a_scaling_is_described(
    scale: Real,
    offset: Real,
    unit: Option<String>,
    shown: &Vec<String>,
    r: String,
)
    requires
        call_ensures(describe_stage, (&StageConfig::Scale { scale, offset, unit }, shown), r),
        shown@.len() == (if offset.zero() {
            1int
        } else {
            2
        }),
    ensures
        (offset.zero() && unit is None) ==> r@ == "v = v × "@ + shown@[0]@,
        (!offset.zero() && unit is None) ==> r@ == "v = v × "@ + shown@[0]@ + " + "@ + shown@[1]@,
        (offset.zero() && unit is Some) ==> r@ == "v = v × "@ + shown@[0]@ + " → "@ + unit->0@,
        (!offset.zero() && unit is Some) ==> r@ == "v = v × "@ + shown@[0]@ + " + "@ + shown@[1]@ + " → "@ + unit->0@,
{
    assert(r@ =~= "v = v × "@ + shown@[0]@ + (if offset.zero() {
        Seq::empty()
    } else {
        " + "@ + shown@[1]@
    }) + (match unit {
        Some(u) => " → "@ + u@,
        None => Seq::empty(),
    }));
    if offset.zero() && unit is None {
        assert(r@ =~= "v = v × "@ + shown@[0]@);
    } else if unit is None {
        assert(r@ =~= "v = v × "@ + shown@[0]@ + " + "@ + shown@[1]@);
    } else if offset.zero() {
        assert(r@ =~= "v = v × "@ + shown@[0]@ + " → "@ + unit->0@);
    } else {
        assert(r@ =~= "v = v × "@ + shown@[0]@ + " + "@ + shown@[1]@ + " → "@ + unit->0@);
    }
}

/// The formula of a statistic shows which one it is and how many values it
/// takes.
pub proof fn a_statistic_is_described(config: &StageConfig, shown: &Vec<String>, r: String)
    requires
        call_ensures(describe_stage, (config, shown), r),
    ensures
        config matches StageConfig::SlidingAverage { window } ==> r@ == "v = avg(最近 "@ + crate::text::decimal(
            window as nat,
        ) + " 个值)"@,
        config matches StageConfig::Median { window } ==> r@ == "v = median(最近 "@ + crate::text::decimal(
            window as nat,
        ) + " 个值)"@,
        config matches StageConfig::Math { expression } ==> r@ == "v = "@ + expression@ + "  (v 为当前值)"@,
        config matches StageConfig::Aggregate { window, mode } ==> r@ == "v = "@ + (match mode {
            AggregateMode::Min => "min"@,
            AggregateMode::Max => "max"@,
            AggregateMode::Avg => "avg"@,
        }) + "(窗口 "@ + crate::text::decimal(window as nat) + ")"@,
{
}

/// The formula of a full threshold shows the four bounds from the lowest to the
/// highest, each with its level.
pub proof fn a_full_threshold_is_described(
    low_warning: Real,
    high_warning: Real,
    low_critical: Real,
    high_critical: Real,
    shown: &Vec<String>,
    r: String,
)
    requires
        call_ensures(
            describe_stage,
            (
                &StageConfig::Threshold {
                    low_warning: Some(low_warning),
                    high_warning: Some(high_warning),
                    low_critical: Some(low_critical),
                    high_critical: Some(high_critical),
                },
                shown,
            ),
            r,
        ),
        shown@.len() == 4,
    ensures
        r@ == "状态: "@ + ("<"@ + shown@[0]@ + " critical"@ + " / "@ + ("<"@ + shown@[1]@ + " warning"@) + " / "@ + (
        ">"@ + shown@[2]@ + " warning"@) + " / "@ + (">"@ + shown@[3]@ + " critical"@)),
{
    let a = "<"@ + shown@[0]@ + " critical"@;
    let b = "<"@ + shown@[1]@ + " warning"@;
    let c = ">"@ + shown@[2]@ + " warning"@;
    let d = ">"@ + shown@[3]@ + " critical"@;
    let sep = " / "@;
    assert(crate::pipeline::describe::bound_parts(
        Some(low_critical),
        Some(low_warning),
        Some(high_warning),
        Some(high_critical),
        crate::expression::texts(shown@),
    ) =~= Seq::empty().push(a).push(b).push(c).push(d));
    crate::laws::texts::a_joined_text_grows_by_a_part(Seq::empty(), a, sep);
    crate::laws::texts::a_joined_text_grows_by_a_part(Seq::empty().push(a), b, sep);
    crate::laws::texts::a_joined_text_grows_by_a_part(Seq::empty().push(a).push(b), c, sep);
    crate::laws::texts::a_joined_text_grows_by_a_part(Seq::empty().push(a).push(b).push(c), d, sep);
}

// ---- health ----

/// The sensor was read at this time: that of its raw sample, or, where it has
/// none, that of its metric.
pub open spec fn read_at(store: Map<Seq<char>, SensorState>, id: Seq<char>, time: int) -> bool {
    &&& store.dom().contains(id)
    &&& match (store[id].raw, store[id].metric) {
        (Some(r), _) => time == (if r.timestamp < 0 {
            0int
        } else {
            r.timestamp as int
        }),
        (None, Some(m)) => time == (if m.timestamp < 0 {
            0int
        } else {
            m.timestamp as int
        }),
        (None, None) => false,
    }
}

/// The register was read at this time, which lies no more than two poll
/// intervals of the device back.
pub open spec fn read_lately(store: Map<Seq<char>, SensorState>, d: DeviceConfig, j: int, time: int, now: u64) -> bool {
    &&& 0 <= j < d.registers@.len()
    &&& read_at(store, d.registers@[j].sensor_id@, time)
    &&& now <= time + 2 * d.poll_interval_ms
}

proof fn lemma_fresh(store: Map<Seq<char>, SensorState>, d: DeviceConfig, now: u64)
    ensures
        crate::health::device_fresh(store, d, now) <==> exists|j: int, t: int| read_lately(store, d, j, t, now),
{
    if crate::health::device_fresh(store, d, now) {
        let j = choose|j: int|
            {
                &&& 0 <= j < d.registers@.len()
                &&& crate::health::reading_time(store, (#[trigger] d.registers@[j]).sensor_id@) matches Some(t)
                    && crate::health::within(now, t, d.poll_interval_ms * 2)
            };
        let t = crate::health::reading_time(store, d.registers@[j].sensor_id@)->0 as int;
        assert(read_lately(store, d, j, t, now));
    }
    if exists|j: int, t: int| read_lately(store, d, j, t, now) {
        let (j, t) = choose|j: int, t: int| read_lately(store, d, j, t, now);
        assert(crate::health::reading_time(store, d.registers@[j].sensor_id@) == Some(t as u64));
        assert(crate::health::within(now, t as u64, d.poll_interval_ms * 2));
    }
}

/// A device is connected exactly where one of its registers was read within the
/// last two of its poll intervals.
pub proof fn a_device_read_lately_is_connected(
    config: &Config,
    store: &MetricStore,
    now: u64,
    r: Readiness,
    i: int,
)
    requires
        call_ensures(readyz, (config, store, now), r),
        0 <= i < config.devices@.len(),
    ensures
        r.devices@.len() == config.devices@.len(),
        r.devices@[i].name@ == config.devices@[i].name@,
        r.devices@[i].sensors_total == config.devices@[i].registers@.len(),
        r.devices@[i].connected <==> exists|j: int, t: int| read_lately(store@, config.devices@[i], j, t, now),
{
    lemma_fresh(store@, config.devices@[i], now);
    assert(crate::health::reports_device(r.devices@[i], store@, config.devices@[i], now));
}

/// The gateway is ready exactly where a device is connected, and answers with
/// the code and the word for it.
pub proof fn a_gateway_with_a_connected_device_is_ready(config: &Config, store: &MetricStore, now: u64, r: Readiness)
    requires
        call_ensures(readyz, (config, store, now), r),
    ensures
        r.ready <==> exists|i: int| 0 <= i < r.devices@.len() && (#[trigger] r.devices@[i]).connected,
        r.ready ==> r.code == 200 && r.status@ == "ready"@,
        !r.ready ==> r.code == 503 && r.status@ == "not_ready"@,
        r.computed_sensors == config.computed@.len(),
        r.endpoints == config.endpoints,
{
    if r.ready {
        let i = choose|i: int|
            0 <= i < config.devices@.len() && crate::health::device_fresh(store@, #[trigger] config.devices@[i], now);
        assert(r.devices@[i].connected);
    }
    if exists|i: int| 0 <= i < r.devices@.len() && (#[trigger] r.devices@[i]).connected {
        let i = choose|i: int| 0 <= i < r.devices@.len() && (#[trigger] r.devices@[i]).connected;
        assert(crate::health::device_fresh(store@, config.devices@[i], now));
    }
}

/// The register has been read.
pub open spec fn was_read(store: Map<Seq<char>, SensorState>, d: DeviceConfig, j: int) -> bool {
    store.dom().contains(d.registers@[j].sensor_id@) && (store[d.registers@[j].sensor_id@].raw is Some
        || store[d.registers@[j].sensor_id@].metric is Some)
}

proof fn lemma_read_count(store: Map<Seq<char>, SensorState>, d: DeviceConfig, n: int)
    requires
        0 <= n <= d.registers@.len(),
    ensures
        crate::health::read_count(store, d, n) == registers_read(store, d, n).len(),
        registers_read(store, d, n).finite(),
    decreases n,
{
    let now = registers_read(store, d, n);
    if n <= 0 {
        assert(now =~= Set::<int>::empty());
    } else {
        lemma_read_count(store, d, n - 1);
        let before = registers_read(store, d, n - 1);
        if was_read(store, d, n - 1) {
            assert(now =~= before.insert(n - 1));
        } else {
            assert(now =~= before);
        }
    }
}

/// The registers among the first `n` that have been read.
pub open spec fn registers_read(store: Map<Seq<char>, SensorState>, d: DeviceConfig, n: int) -> Set<int> {
    Set::new(|j: int| 0 <= j < n && was_read(store, d, j))
}

/// The sensors with data are as many as the registers that have been read.
pub proof fn every_register_with_data_counts(config: &Config, store: &MetricStore, now: u64, r: Readiness, i: int)
    requires
        call_ensures(readyz, (config, store, now), r),
        0 <= i < config.devices@.len(),
    ensures
        r.devices@[i].sensors_with_data == registers_read(
            store@,
            config.devices@[i],
            config.devices@[i].registers@.len() as int,
        ).len(),
{
    lemma_read_count(store@, config.devices@[i], config.devices@[i].registers@.len() as int);
    assert(crate::health::reports_device(r.devices@[i], store@, config.devices@[i], now));
}

/// A gateway that answers at all is alive.
pub proof fn an_answer_is_alive(r: &'static str)
    requires
        call_ensures(healthz, (), r),
    ensures
        r@ == "ok"@,
{
}

// ---- the dashboard ----

/// The time of the newest raw sample of a register counts; no time counts as
/// long ago.
pub proof fn two_intervals_are_fresh(newest: Option<u64>, poll_interval_ms: u64, now: u64, r: bool)
    requires
        call_ensures(is_fresh, (newest, poll_interval_ms, now), r),
    ensures
        newest is None ==> !r,
        newest matches Some(t) ==> (r <==> now <= t + 2 * poll_interval_ms),
{
}

/// The time of a raw sample of one of the first `n` registers.
pub open spec fn raw_at(store: Map<Seq<char>, SensorState>, rs: Seq<RegisterConfig>, n: int, j: int, t: int) -> bool {
    &&& 0 <= j < n
    &&& store.dom().contains(rs[j].sensor_id@)
    &&& (store[rs[j].sensor_id@].raw matches Some(s) && t == (if s.timestamp < 0 {
        0int
    } else {
        s.timestamp as int
    }))
}

/// The newest raw sample is one of the registers' and none is newer.
pub proof fn the_newest_sample_is_the_latest(store: Map<Seq<char>, SensorState>, rs: Seq<RegisterConfig>, n: int)
    requires
        0 <= n <= rs.len(),
    ensures
        match crate::dashboard::newest_raw(store, rs, n) {
            None => forall|j: int, t: int| !#[trigger] raw_at(store, rs, n, j, t),
            Some(x) => {
                &&& exists|j: int| #[trigger] raw_at(store, rs, n, j, x as int)
                &&& forall|j: int, t: int| #[trigger] raw_at(store, rs, n, j, t) ==> t <= x
            },
        },
    decreases n,
{
    if n > 0 {
        the_newest_sample_is_the_latest(store, rs, n - 1);
        let before = crate::dashboard::newest_raw(store, rs, n - 1);
        let last = crate::dashboard::raw_time(store, rs[n - 1].sensor_id@);
        if let Some(x) = before {
            let j = choose|j: int| #[trigger] raw_at(store, rs, n - 1, j, x as int);
            assert(raw_at(store, rs, n, j, x as int));
        }
        if let Some(y) = last {
            assert(raw_at(store, rs, n, n - 1, y as int));
        }
        assert forall|j: int, t: int| #[trigger] raw_at(store, rs, n, j, t) implies (
        crate::dashboard::newest_raw(store, rs, n) matches Some(x) && t <= x) by {
            if j < n - 1 {
                assert(raw_at(store, rs, n - 1, j, t));
            }
        }
    }
}

/// The dashboard shows every device as it is configured; it is connected exactly
/// where a raw sample of one of its registers lies no more than two of its poll
/// intervals back.
pub proof fn every_device_is_shown(
    config: &Config,
    store: &MetricStore,
    shown: &Vec<Vec<Vec<String>>>,
    now: u64,
    r: DashboardSnapshot,
    i: int,
)
    requires
        call_ensures(build_snapshot, (config, store, shown, now), r),
        0 <= i < config.devices@.len(),
    ensures
        ({
            let d = config.devices@[i];
            let s = r.devices@[i];
            &&& r.generated_at_ms == now
            &&& r.devices@.len() == config.devices@.len()
            &&& s.name@ == d.name@
            &&& s.host@ == d.host@
            &&& s.port == d.port
            &&& (d.transport == Transport::Tcp ==> s.transport@ == "tcp"@)
            &&& (d.transport == Transport::Rtu ==> s.transport@ == "rtu"@)
            &&& (d.transport == Transport::Sim ==> s.transport@ == "sim"@)
            &&& s.registers@.len() == d.registers@.len()
            &&& (s.connected <==> exists|j: int, t: int|
                #[trigger] raw_at(store@, d.registers@, d.registers@.len() as int, j, t) && now <= t + 2
                    * d.poll_interval_ms)
        }),
{
    let d = config.devices@[i];
    let s = r.devices@[i];
    let n = d.registers@.len() as int;
    assert(crate::dashboard::shows_device(s, *config, store@, shown@, d, now));
    the_newest_sample_is_the_latest(store@, d.registers@, n);
    if s.connected {
        let x = crate::dashboard::newest_raw(store@, d.registers@, n)->0;
        let j = choose|j: int| #[trigger] raw_at(store@, d.registers@, n, j, x as int);
        assert(raw_at(store@, d.registers@, n, j, x as int) && now <= x + 2 * d.poll_interval_ms);
    }
}

/// The dashboard shows every register as it is configured, with the raw sample
/// and the metric that the store has of it.
pub proof fn every_register_is_shown(
    config: &Config,
    store: &MetricStore,
    shown: &Vec<Vec<Vec<String>>>,
    now: u64,
    r: DashboardSnapshot,
    i: int,
    j: int,
)
    requires
        call_ensures(build_snapshot, (config, store, shown, now), r),
        0 <= i < config.devices@.len(),
        0 <= j < config.devices@[i].registers@.len(),
    ensures
        ({
            let reg = config.devices@[i].registers@[j];
            let s = r.devices@[i].registers@[j];
            let known = store@.dom().contains(reg.sensor_id@);
            let raw = store@[reg.sensor_id@].raw;
            let metric = store@[reg.sensor_id@].metric;
            &&& s.name@ == reg.name@
            &&& s.sensor_id@ == reg.sensor_id@
            &&& s.address == reg.address
            &&& s.unit == reg.unit
            &&& (reg.count matches Some(n) ==> s.count == n)
            &&& (reg.function == RegisterFunction::Holding ==> s.function@ == "holding"@)
            &&& (reg.function == RegisterFunction::Input ==> s.function@ == "input"@)
            &&& (reg.function == RegisterFunction::Coil ==> s.function@ == "coil"@)
            &&& (reg.function == RegisterFunction::DiscreteInput ==> s.function@ == "discrete_input"@)
            &&& (reg.word_order == WordOrder::Big ==> s.word_order@ == "big"@)
            &&& (reg.word_order == WordOrder::Little ==> s.word_order@ == "little"@)
            &&& (s.raw is Some <==> known && raw is Some)
            &&& (s.metric is Some <==> known && metric is Some)
            &&& (s.raw matches Some(v) ==> v.value == raw->0.raw_value && (raw->0.timestamp >= 0 ==> v.timestamp_ms
                == raw->0.timestamp))
            &&& (s.metric matches Some(v) ==> v.value == metric->0.value && v.unit == metric->0.unit && v.status
                == metric->0.status && (metric->0.timestamp >= 0 ==> v.timestamp_ms == metric->0.timestamp))
        }),
{
    let d = config.devices@[i];
    assert(crate::dashboard::shows_device(r.devices@[i], *config, store@, shown@, d, now));
    assert(crate::dashboard::shows_register(
        r.devices@[i].registers@[j],
        *config,
        store@,
        shown@,
        d.registers@[j],
    ));
}

/// The update holds what the store has of the sensor.
pub open spec fn updates(u: SampleUpdate, id: Seq<char>, st: SensorState) -> bool {
    &&& u.sensor_id@ == id
    &&& (u.raw is Some <==> st.raw is Some)
    &&& (u.metric is Some <==> st.metric is Some)
    &&& (u.raw matches Some(v) ==> v.value == st.raw->0.raw_value && (st.raw->0.timestamp >= 0 ==> v.timestamp_ms
        == st.raw->0.timestamp))
    &&& (u.metric matches Some(v) ==> v.value == st.metric->0.value && v.unit == st.metric->0.unit && v.status
        == st.metric->0.status && (st.metric->0.timestamp >= 0 ==> v.timestamp_ms == st.metric->0.timestamp))
}

/// An update holds every sensor that the store knows, with what it has of it.
pub proof fn every_sensor_is_updated(store: &MetricStore, now: u64, r: UpdateMessage, id: Seq<char>)
    requires
        call_ensures(build_update, (store, now), r),
        store@.dom().contains(id),
    ensures
        r.kind@ == "update"@,
        r.generated_at_ms == now,
        exists|i: int| 0 <= i < r.samples@.len() && updates(#[trigger] r.samples@[i], id, store@[id]),
{
    let entries = choose|entries: Seq<crate::store::SensorEntry>|
        {
            &&& #[trigger] crate::store::states(entries) == store@
            &&& crate::store::one_entry_each(entries)
            &&& entries.len() == r.samples@.len()
            &&& forall|i: int|
                0 <= i < entries.len() ==> crate::dashboard::shows_entry(#[trigger] r.samples@[i], entries[i])
        };
    assert(crate::store::states(entries).dom().contains(id));
    assert(crate::store::tracked_sensor(entries, id));
    let i = choose|i: int| crate::store::entry_of(entries, i, id);
    assert(crate::dashboard::shows_entry(r.samples@[i], entries[i]));
    assert(updates(r.samples@[i], id, store@[id]));
}

/// Updates come as often as the device that is polled most often, but no more
/// than four times a second; without a device they come once a second.
pub proof fn updates_keep_up_with_the_devices(config: &Config, r: u64)
    requires
        call_ensures(update_interval, (config,), r),
    ensures
        r >= 250,
        config.devices@.len() == 0 ==> r == 1000,
        forall|i: int|
            0 <= i < config.devices@.len() ==> r <= 250 || r <= (#[trigger] config.devices@[i]).poll_interval_ms,
        config.devices@.len() > 0 && r > 250 ==> exists|i: int|
            0 <= i < config.devices@.len() && r == (#[trigger] config.devices@[i]).poll_interval_ms,
{
    lemma_least(config.devices@, config.devices@.len() as int);
}

proof fn lemma_least(ds: Seq<DeviceConfig>, n: int)
    requires
        0 <= n <= ds.len(),
    ensures
        match crate::dashboard::least_interval(ds, n) {
            None => n == 0,
            Some(x) => {
                &&& forall|i: int| 0 <= i < n ==> x <= (#[trigger] ds[i]).poll_interval_ms
                &&& exists|i: int| 0 <= i < n && x == (#[trigger] ds[i]).poll_interval_ms
            },
        },
    decreases n,
{
    if n > 0 {
        lemma_least(ds, n - 1);
        assert(ds[n - 1].poll_interval_ms == ds[n - 1].poll_interval_ms);
    }
}

/// The numbers that a scaling shows are its factor, and its offset unless that is
/// zero; those of a threshold are its bounds, the critical ones outside.
pub proof fn a_stage_shows_its_numbers(config: &StageConfig, r: Vec<Real>)
    requires
        call_ensures(stage_numbers, (config,), r),
    ensures
        config matches StageConfig::Scale { scale, offset, unit } ==> {
            &&& r@.len() >= 1
            &&& r@[0] == scale
            &&& (offset.zero() ==> r@.len() == 1)
            &&& (!offset.zero() ==> r@.len() == 2 && r@[1] == offset)
        },
        config matches StageConfig::Threshold { low_warning, high_warning, low_critical, high_critical } ==> {
            &&& (low_critical matches Some(x) ==> r@.len() > 0 && r@[0] == x)
            &&& (high_critical matches Some(x) ==> r@.len() > 0 && r@.last() == x)
            &&& ((low_critical is None && low_warning is Some) ==> r@.len() > 0 && r@[0] == low_warning->0)
            &&& ((high_critical is None && high_warning is Some) ==> r@.len() > 0 && r@.last() == high_warning->0)
            &&& ((low_critical is Some && low_warning is Some) ==> r@.len() > 1 && r@[1] == low_warning->0)
            &&& ((high_critical is Some && high_warning is Some) ==> r@.len() > 1 && r@[r@.len() - 2]
                == high_warning->0)
        },
        !(config is Scale) && !(config is Threshold) ==> r@.len() == 0,
{
}

/// A sensor is found in the store exactly where it has a state, and with it.
pub proof fn a_state_is_found(store: &MetricStore, id: &SensorId, r: Option<&SensorState>)
    requires
        call_ensures(MetricStore::get, (store, id), r),
    ensures
        !store@.dom().contains(id.0@) ==> r is None,
        store@.dom().contains(id.0@) ==> (r matches Some(s) && s.raw == store@[id.0@].raw && s.metric
            == store@[id.0@].metric),
{
}

/// A register is shown with the formula of its pipeline, the formulas of the stages
/// and the formula that the protocols show being the same; without a pipeline it is
/// shown with none.
pub proof fn a_register_is_shown_with_its_formula(
    config: &Config,
    store: &MetricStore,
    shown: &Vec<Vec<Vec<String>>>,
    now: u64,
    views: Vec<SensorView>,
    r: DashboardSnapshot,
    i: int,
    j: int,
    k: int,
)
    requires
        call_ensures(build_views, (config, store, shown), views),
        call_ensures(build_snapshot, (config, store, shown, now), r),
        0 <= i < config.devices@.len(),
        0 <= j < config.devices@[i].registers@.len(),
        0 <= k <= config.pipelines@.len(),
        forall|m: int|
            0 <= m < k ==> (#[trigger] config.pipelines@[m]).sensor_id@
                != config.devices@[i].registers@[j].sensor_id@,
        k < config.pipelines@.len() ==> config.pipelines@[k].sensor_id@
            == config.devices@[i].registers@[j].sensor_id@,
    ensures
        ({
            let at = registers_before(config.devices@, i) + j;
            let s = r.devices@[i].registers@[j];
            &&& (k == config.pipelines@.len() ==> views@[at].formula is None && s.formula is None && s.stages@.len() == 0)
            &&& (k < config.pipelines@.len() ==> {
                let fs = crate::pipeline::describe::formulas(config.pipelines@[k], shown@[k]@);
                &&& views@[at].formula is Some
                &&& views@[at].formula->0@ == crate::text::joined(fs, " → "@)
                &&& s.formula is Some
                &&& s.formula->0@ == crate::text::joined(fs, " → "@)
                &&& s.stages@.len() == config.pipelines@[k].stages@.len()
                &&& forall|n: int| 0 <= n < s.stages@.len() ==> (#[trigger] s.stages@[n])@ == fs[n]
            })
        }),
{
    let n = config.devices@.len() as int;
    let at = registers_before(config.devices@, i) + j;
    let reg = config.devices@[i].registers@[j];
    lemma_facts_before(*config, store@, shown@, n, i, j);
    assert(crate::protocol::views::facts(views@).len() == views@.len());
    assert(crate::protocol::views::facts(views@)[at] == views@[at]@);
    assert(views@[at]@.formula == crate::expression::text_of(views@[at].formula));
    a_register_shows_its_pipeline(config.pipelines@, shown@, reg.sensor_id@, k, 0);
    let s = r.devices@[i].registers@[j];
    assert(crate::dashboard::shows_device(r.devices@[i], *config, store@, shown@, config.devices@[i], now));
    assert(crate::dashboard::shows_register(s, *config, store@, shown@, reg));
    assert(crate::expression::texts(s.stages@).len() == s.stages@.len());
    if k < config.pipelines@.len() {
        let fs = crate::pipeline::describe::formulas(config.pipelines@[k], shown@[k]@);
        assert forall|m: int| 0 <= m < s.stages@.len() implies (#[trigger] s.stages@[m])@ == fs[m] by {
            assert(crate::expression::texts(s.stages@)[m] == s.stages@[m]@);
        }
    }
}

/// A register is shown with its own type, and with the number of words that it is
/// read with; a time before the epoch is shown as the epoch.
pub proof fn a_register_is_shown_with_its_type(
    config: &Config,
    store: &MetricStore,
    shown: &Vec<Vec<Vec<String>>>,
    now: u64,
    r: DashboardSnapshot,
    i: int,
    j: int,
)
    requires
        call_ensures(build_snapshot, (config, store, shown, now), r),
        0 <= i < config.devices@.len(),
        0 <= j < config.devices@[i].registers@.len(),
    ensures
        ({
            let reg = config.devices@[i].registers@[j];
            let s = r.devices@[i].registers@[j];
            let st = store@[reg.sensor_id@];
            &&& (reg.value_type == ValueType::U16 ==> s.value_type@ == "u16"@)
            &&& (reg.value_type == ValueType::I16 ==> s.value_type@ == "i16"@)
            &&& (reg.value_type == ValueType::U32 ==> s.value_type@ == "u32"@)
            &&& (reg.value_type == ValueType::I32 ==> s.value_type@ == "i32"@)
            &&& (reg.value_type == ValueType::F32 ==> s.value_type@ == "f32"@)
            &&& (reg.value_type == ValueType::Bool ==> s.value_type@ == "bool"@)
            &&& (reg.count is None ==> s.count == crate::laws::validation::span(reg.value_type))
            &&& (s.raw matches Some(v) ==> (st.raw->0.timestamp < 0 ==> v.timestamp_ms == 0))
            &&& (s.metric matches Some(v) ==> (st.metric->0.timestamp < 0 ==> v.timestamp_ms == 0))
        }),
{
    let d = config.devices@[i];
    assert(crate::dashboard::shows_device(r.devices@[i], *config, store@, shown@, d, now));
    assert(crate::dashboard::shows_register(
        r.devices@[i].registers@[j],
        *config,
        store@,
        shown@,
        d.registers@[j],
    ));
}

/// The formula of a pipeline is made of those of its stages, in their order.
pub proof fn a_pipeline_is_described_by_its_stages(
    config: &PipelineConfig,
    shown: &Vec<Vec<String>>,
    stages: Seq<String>,
    r: String,
)
    requires
        call_ensures(describe_pipeline, (config, shown), r),
        stages.len() == config.stages@.len(),
        shown@.len() == config.stages@.len(),
        forall|i: int|
            0 <= i < stages.len() ==> call_ensures(
                describe_stage,
                (&config.stages@[i], &shown@[i]),
                #[trigger] stages[i],
            ),
    ensures
        r@ == crate::text::joined(stages.map_values(|s: String| s@), " → "@),
{
    let fs = crate::pipeline::describe::formulas(*config, shown@);
    assert forall|i: int| 0 <= i < stages.len() implies (#[trigger] stages[i])@ == fs[i] by {
        assert(call_ensures(describe_stage, (&config.stages@[i], &shown@[i]), stages[i]));
    }
    assert(stages.map_values(|s: String| s@) =~= fs);
}

/// The formula of a threshold of one bound shows that bound, the side on which it is
/// crossed, and its level.
pub proof fn a_single_bound_is_described(
    low_warning: Option<Real>,
    high_warning: Option<Real>,
    low_critical: Option<Real>,
    high_critical: Option<Real>,
    shown: &Vec<String>,
    r: String,
)
    requires
        call_ensures(
            describe_stage,
            (&StageConfig::Threshold { low_warning, high_warning, low_critical, high_critical }, shown),
            r,
        ),
        shown@.len() == 1,
    ensures
        (low_critical is Some && low_warning is None && high_warning is None && high_critical is None) ==> r@
            == "状态: "@ + ("<"@ + shown@[0]@ + " critical"@),
        (low_critical is None && low_warning is Some && high_warning is None && high_critical is None) ==> r@
            == "状态: "@ + ("<"@ + shown@[0]@ + " warning"@),
        (low_critical is None && low_warning is None && high_warning is Some && high_critical is None) ==> r@
            == "状态: "@ + (">"@ + shown@[0]@ + " warning"@),
        (low_critical is None && low_warning is None && high_warning is None && high_critical is Some) ==> r@
            == "状态: "@ + (">"@ + shown@[0]@ + " critical"@),
{
    let texts = crate::expression::texts(shown@);
    let parts = crate::pipeline::describe::bound_parts(low_critical, low_warning, high_warning, high_critical, texts);
    let sep = " / "@;
    if low_critical is Some && low_warning is None && high_warning is None && high_critical is None {
        assert(parts =~= Seq::empty().push("<"@ + shown@[0]@ + " critical"@));
    } else if low_critical is None && low_warning is Some && high_warning is None && high_critical is None {
        assert(parts =~= Seq::empty().push("<"@ + shown@[0]@ + " warning"@));
    } else if low_critical is None && low_warning is None && high_warning is Some && high_critical is None {
        assert(parts =~= Seq::empty().push(">"@ + shown@[0]@ + " warning"@));
    } else if low_critical is None && low_warning is None && high_warning is None && high_critical is Some {
        assert(parts =~= Seq::empty().push(">"@ + shown@[0]@ + " critical"@));
    }
    crate::laws::texts::a_joined_text_grows_by_a_part(Seq::empty(), parts[0], sep);
}

} // verus!
