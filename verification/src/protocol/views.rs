//! What the protocols show of a sensor, whatever it comes from.

use vstd::prelude::*;

use crate::config::{
    Access, ComputedConfig, Config, DeviceConfig, PipelineConfig, RegisterConfig, RegisterFunction, ValueType, WordOrder,
};
use crate::domain::{copy_text, MetricStatus, SensorId};
use crate::number::Real;
use crate::store::{MetricStore, SensorState};
use crate::text::{join3, join_all, same_string};

verus! {

/// A sensor as the protocols show it: a register or a computed sensor, with
/// its latest value.
#[derive(Debug)]
pub struct SensorView {
    pub sensor_id: String,
    pub name: String,
    /// Empty for a computed sensor.
    pub device: String,
    pub is_computed: bool,
    pub function: RegisterFunction,
    pub access: Access,
    pub address: u16,
    pub value_type: ValueType,
    pub word_order: WordOrder,
    pub unit: Option<String>,
    pub formula: Option<String>,
    /// The latest metric, else the latest raw sample.
    pub value: Option<Real>,
    pub status: MetricStatus,
    pub timestamp_ms: Option<u64>,
}

impl Clone for SensorView {
    fn clone(&self) -> (r: Self)
        ensures
            r == *self,
    {
        SensorView {
            sensor_id: self.sensor_id.clone(),
            name: self.name.clone(),
            device: self.device.clone(),
            is_computed: self.is_computed,
            function: self.function,
            access: self.access,
            address: self.address,
            value_type: self.value_type,
            word_order: self.word_order,
            unit: copy_text(&self.unit),
            formula: copy_text(&self.formula),
            value: self.value,
            status: self.status,
            timestamp_ms: self.timestamp_ms,
        }
    }
}

/// What a [`SensorView`] says.
pub struct SensorFacts {
    pub sensor_id: Seq<char>,
    pub name: Seq<char>,
    pub device: Seq<char>,
    pub is_computed: bool,
    pub function: RegisterFunction,
    pub access: Access,
    pub address: u16,
    pub value_type: ValueType,
    pub word_order: WordOrder,
    pub unit: Option<Seq<char>>,
    pub formula: Option<Seq<char>>,
    pub value: Option<Real>,
    pub status: MetricStatus,
    pub timestamp_ms: Option<u64>,
}

impl View for SensorView {
    type V = SensorFacts;

    open spec fn view(&self) -> SensorFacts {
        SensorFacts {
            sensor_id: self.sensor_id@,
            name: self.name@,
            device: self.device@,
            is_computed: self.is_computed,
            function: self.function,
            access: self.access,
            address: self.address,
            value_type: self.value_type,
            word_order: self.word_order,
            unit: crate::expression::text_of(self.unit),
            formula: crate::expression::text_of(self.formula),
            value: self.value,
            status: self.status,
            timestamp_ms: self.timestamp_ms,
        }
    }
}

/// What a list of views says.
pub open spec fn facts(v: Seq<SensorView>) -> Seq<SensorFacts> {
    v.map_values(|s: SensorView| s@)
}

/// The latest value of a sensor with its status and time: the metric, else the
/// raw sample, whose status is unknown.
pub open spec fn latest(store: Map<Seq<char>, SensorState>, id: Seq<char>) -> (Option<Real>, MetricStatus, Option<u64>) {
    if store.dom().contains(id) {
        match store[id].metric {
            Some(m) => (Some(m.value), m.status, Some(crate::domain::since_epoch(m.timestamp))),
            None => match store[id].raw {
                Some(r) => (
                    Some(r.raw_value),
                    MetricStatus::Unknown,
                    Some(crate::domain::since_epoch(r.timestamp)),
                ),
                None => (None, MetricStatus::Unknown, None),
            },
        }
    } else {
        (None, MetricStatus::Unknown, None)
    }
}

/// The latest value of a sensor with its status and time.
pub fn latest_value(store: &MetricStore, sensor_id: &String) -> (r: (Option<Real>, MetricStatus, Option<u64>))
    requires
        store.wf(),
    ensures
        r == latest(store@, sensor_id@),
{
    let id = SensorId(sensor_id.clone());
    match store.get(&id) {
        Some(state) => match &state.metric {
            Some(m) => (Some(m.value), m.status, Some(m.timestamp_ms())),
            None => match &state.raw {
                Some(s) => (Some(s.raw_value), MetricStatus::Unknown, Some(s.timestamp_ms())),
                None => (None, MetricStatus::Unknown, None),
            },
        },
        None => (None, MetricStatus::Unknown, None),
    }
}

/// The texts of the numbers of every stage of every pipeline.
pub open spec fn shows_all(c: Config, shown: Seq<Vec<Vec<String>>>) -> bool {
    &&& shown.len() == c.pipelines@.len()
    &&& forall|i: int|
        0 <= i < shown.len() ==> crate::pipeline::describe::shows(c.pipelines@[i], (#[trigger] shown[i])@)
}

/// The formula of the sensor's pipeline, the first one from pipeline `i` on.
pub open spec fn pipeline_formula(
    pipelines: Seq<PipelineConfig>,
    shown: Seq<Vec<Vec<String>>>,
    id: Seq<char>,
    i: int,
) -> Option<Seq<char>>
    decreases pipelines.len() - i,
{
    if i >= pipelines.len() {
        None
    } else if pipelines[i].sensor_id@ == id {
        Some(crate::text::joined(crate::pipeline::describe::formulas(pipelines[i], shown[i]@), " → "@))
    } else {
        pipeline_formula(pipelines, shown, id, i + 1)
    }
}

/// What the gateway shows of a register.
pub open spec fn register_facts(
    c: Config,
    store: Map<Seq<char>, SensorState>,
    shown: Seq<Vec<Vec<String>>>,
    d: DeviceConfig,
    r: RegisterConfig,
) -> SensorFacts {
    let (value, status, timestamp_ms) = latest(store, r.sensor_id@);
    SensorFacts {
        sensor_id: r.sensor_id@,
        name: r.name@,
        device: d.name@,
        is_computed: false,
        function: r.function,
        access: r.access,
        address: r.address,
        value_type: r.value_type,
        word_order: r.word_order,
        unit: crate::expression::text_of(r.unit),
        formula: pipeline_formula(c.pipelines@, shown, r.sensor_id@, 0),
        value,
        status,
        timestamp_ms,
    }
}

/// The sensors that a computed sensor reads.
pub open spec fn sources(inputs: Seq<(String, String)>) -> Seq<Seq<char>> {
    inputs.map_values(|p: (String, String)| p.1@)
}

/// What the gateway shows of a computed sensor.
pub open spec fn computed_facts(store: Map<Seq<char>, SensorState>, s: ComputedConfig) -> SensorFacts {
    let (value, status, timestamp_ms) = latest(store, s.sensor_id@);
    SensorFacts {
        sensor_id: s.sensor_id@,
        name: s.name@,
        device: ""@,
        is_computed: true,
        function: RegisterFunction::Input,
        access: Access::Read,
        address: 0,
        value_type: ValueType::F32,
        word_order: WordOrder::Big,
        unit: crate::expression::text_of(s.unit),
        formula: Some(
            s.expression@ + "  (computed from "@ + crate::text::joined(sources(s.inputs@), ", "@) + ")"@,
        ),
        value,
        status,
        timestamp_ms,
    }
}

/// What the gateway shows of the first `n` registers of a device.
pub open spec fn device_facts(
    c: Config,
    store: Map<Seq<char>, SensorState>,
    shown: Seq<Vec<Vec<String>>>,
    d: DeviceConfig,
    n: int,
) -> Seq<SensorFacts> {
    Seq::new(n as nat, |j: int| register_facts(c, store, shown, d, d.registers@[j]))
}

/// What the gateway shows of the registers of the first `n` devices.
pub open spec fn devices_facts(
    c: Config,
    store: Map<Seq<char>, SensorState>,
    shown: Seq<Vec<Vec<String>>>,
    n: int,
) -> Seq<SensorFacts>
    decreases n,
{
    if n <= 0 {
        Seq::empty()
    } else {
        let d = c.devices@[n - 1];
        devices_facts(c, store, shown, n - 1) + device_facts(c, store, shown, d, d.registers@.len() as int)
    }
}

/// What the gateway shows of its sensors: the registers of the devices, then
/// the computed sensors.
pub open spec fn all_facts(c: Config, store: Map<Seq<char>, SensorState>, shown: Seq<Vec<Vec<String>>>) -> Seq<SensorFacts> {
    devices_facts(c, store, shown, c.devices@.len() as int) + Seq::new(
        c.computed@.len(),
        |i: int| computed_facts(store, c.computed@[i]),
    )
}

fn find_formula(config: &Config, shown: &Vec<Vec<Vec<String>>>, id: &String) -> (r: Option<String>)
    requires
        shows_all(*config, shown@),
    ensures
        crate::expression::text_of(r) == pipeline_formula(config.pipelines@, shown@, id@, 0),
{
    let mut i: usize = 0;
    while i < config.pipelines.len()
        invariant
            i <= config.pipelines@.len(),
            shows_all(*config, shown@),
            pipeline_formula(config.pipelines@, shown@, id@, 0) == pipeline_formula(
                config.pipelines@,
                shown@,
                id@,
                i as int,
            ),
        decreases config.pipelines@.len() - i,
    {
        if same_string(&config.pipelines[i].sensor_id, id) {
            assert(crate::pipeline::describe::shows(config.pipelines@[i as int], shown@[i as int]@));
            return Some(crate::pipeline::describe::describe_pipeline(&config.pipelines[i], &shown[i]));
        }
        i = i + 1;
    }
    None
}

fn register_view(config: &Config, store: &MetricStore, shown: &Vec<Vec<Vec<String>>>, d: &DeviceConfig, r: &RegisterConfig) -> (v:
    SensorView)
    requires
        store.wf(),
        shows_all(*config, shown@),
    ensures
        v@ == register_facts(*config, store@, shown@, *d, *r),
{
    let (value, status, timestamp_ms) = latest_value(store, &r.sensor_id);
    SensorView {
        sensor_id: r.sensor_id.clone(),
        name: r.name.clone(),
        device: d.name.clone(),
        is_computed: false,
        function: r.function,
        access: r.access,
        address: r.address,
        value_type: r.value_type,
        word_order: r.word_order,
        unit: copy_text(&r.unit),
        formula: find_formula(config, shown, &r.sensor_id),
        value,
        status,
        timestamp_ms,
    }
}

fn source_ids(inputs: &Vec<(String, String)>) -> (r: Vec<String>)
    ensures
        r@.map_values(|s: String| s@) == sources(inputs@),
{
    let mut r: Vec<String> = Vec::new();
    let mut k: usize = 0;
    while k < inputs.len()
        invariant
            k <= inputs@.len(),
            r@.len() == k,
            forall|j: int| 0 <= j < k ==> (#[trigger] r@[j])@ == inputs@[j].1@,
        decreases inputs@.len() - k,
    {
        r.push(inputs[k].1.clone());
        k = k + 1;
    }
    assert(r@.map_values(|s: String| s@) =~= sources(inputs@));
    r
}

fn computed_view(store: &MetricStore, s: &ComputedConfig) -> (v: SensorView)
    requires
        store.wf(),
    ensures
        v@ == computed_facts(store@, *s),
{
    let (value, status, timestamp_ms) = latest_value(store, &s.sensor_id);
    let ids = source_ids(&s.inputs);
    let list = join_all(&ids, ", ");
    let mut formula = join3(s.expression.as_str(), "  (computed from ", list.as_str());
    formula.append(")");
    SensorView {
        sensor_id: s.sensor_id.clone(),
        name: s.name.clone(),
        device: "".to_owned(),
        is_computed: true,
        function: RegisterFunction::Input,
        access: Access::Read,
        address: 0,
        value_type: ValueType::F32,
        word_order: WordOrder::Big,
        unit: copy_text(&s.unit),
        formula: Some(formula),
        value,
        status,
        timestamp_ms,
    }
}

/// The sensors of a configuration with their latest values, given the texts of
/// the numbers of the pipeline stages.
pub fn build_views(config: &Config, store: &MetricStore, shown: &Vec<Vec<Vec<String>>>) -> (r: Vec<SensorView>)
    requires
        store.wf(),
        shows_all(*config, shown@),
    ensures
        facts(r@) == all_facts(*config, store@, shown@),
{
    let mut views: Vec<SensorView> = Vec::new();
    let mut i: usize = 0;
    assert(facts(views@) =~= Seq::<SensorFacts>::empty());
    while i < config.devices.len()
        invariant
            i <= config.devices@.len(),
            store.wf(),
            shows_all(*config, shown@),
            facts(views@) == devices_facts(*config, store@, shown@, i as int),
        decreases config.devices@.len() - i,
    {
        let d = &config.devices[i];
        let ghost start = facts(views@);
        let mut j: usize = 0;
        assert(start + device_facts(*config, store@, shown@, *d, 0) =~= start);
        while j < d.registers.len()
            invariant
                i < config.devices@.len(),
                *d == config.devices@[i as int],
                j <= d.registers@.len(),
                store.wf(),
                shows_all(*config, shown@),
                facts(views@) == start + device_facts(*config, store@, shown@, *d, j as int),
            decreases d.registers@.len() - j,
        {
            let ghost before = views@;
            let v = register_view(config, store, shown, d, &d.registers[j]);
            let ghost f = v@;
            views.push(v);
            assert(facts(views@) =~= facts(before).push(f));
            assert(facts(views@) =~= start + device_facts(*config, store@, shown@, *d, j + 1));
            j = j + 1;
        }
        i = i + 1;
    }
    let ghost start = facts(views@);
    let mut i: usize = 0;
    assert(start + Seq::new(0, |i: int| computed_facts(store@, config.computed@[i])) =~= start);
    while i < config.computed.len()
        invariant
            i <= config.computed@.len(),
            store.wf(),
            facts(views@) == start + Seq::new(i as nat, |i: int| computed_facts(store@, config.computed@[i])),
        decreases config.computed@.len() - i,
    {
        let ghost before = views@;
        let v = computed_view(store, &config.computed[i]);
        let ghost f = v@;
        views.push(v);
        assert(facts(views@) =~= facts(before).push(f));
        assert(facts(views@) =~= start + Seq::new(
            (i + 1) as nat,
            |i: int| computed_facts(store@, config.computed@[i]),
        ));
        i = i + 1;
    }
    views
}

/// Redfish and Modbus show the same value of a sensor, and have one for the same
/// sensors.
pub proof fn protocols_show_the_same_value(store: Map<Seq<char>, SensorState>, id: Seq<char>)
    ensures
        latest(store, id).0 == crate::protocol::modbus_server::current_value(store, id),
{
}

} // verus!
