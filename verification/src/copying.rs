//! Copies of a configuration.

use vstd::prelude::*;

use crate::computed::copy_computed;
use crate::config::{
    ComputedConfig, Config, DeviceConfig, GeneralConfig, PipelineConfig, RegisterConfig, SimConfig, SimControl, SimSensor,
    StageConfig,
};
use crate::domain::copy_text;
use crate::simulation::copy_inputs;

verus! {

/// Both devices say the same.
pub open spec fn same_device(a: DeviceConfig, b: DeviceConfig) -> bool {
    &&& b == (DeviceConfig { registers: b.registers, ..a })
    &&& b.registers@ == a.registers@
}

/// Both pipelines say the same.
pub open spec fn same_pipeline(a: PipelineConfig, b: PipelineConfig) -> bool {
    a.sensor_id == b.sensor_id && a.stages@ == b.stages@
}

/// Both simulated sensors say the same.
pub open spec fn same_sim_sensor(a: SimSensor, b: SimSensor) -> bool {
    &&& b == (SimSensor { inputs: b.inputs, ..a })
    &&& b.inputs@ == a.inputs@
}

/// Both configurations say the same.
pub open spec fn same_config(a: Config, b: Config) -> bool {
    &&& a.general == b.general
    &&& a.endpoints == b.endpoints
    &&& a.devices@.len() == b.devices@.len()
    &&& forall|i: int| 0 <= i < a.devices@.len() ==> same_device(#[trigger] a.devices@[i], b.devices@[i])
    &&& a.pipelines@.len() == b.pipelines@.len()
    &&& forall|i: int| 0 <= i < a.pipelines@.len() ==> same_pipeline(#[trigger] a.pipelines@[i], b.pipelines@[i])
    &&& a.computed@.len() == b.computed@.len()
    &&& forall|i: int|
        0 <= i < a.computed@.len() ==> crate::computed::same_computed(#[trigger] a.computed@[i], b.computed@[i])
    &&& a.sim.controls@ == b.sim.controls@
    &&& a.sim.sensors@.len() == b.sim.sensors@.len()
    &&& forall|i: int| 0 <= i < a.sim.sensors@.len() ==> same_sim_sensor(#[trigger] a.sim.sensors@[i], b.sim.sensors@[i])
}

fn copy_register(c: &RegisterConfig) -> (r: RegisterConfig)
    ensures
        r == *c,
{
    RegisterConfig {
        name: c.name.clone(),
        sensor_id: c.sensor_id.clone(),
        function: c.function,
        address: c.address,
        count: c.count,
        value_type: c.value_type,
        word_order: c.word_order,
        unit: copy_text(&c.unit),
        access: c.access,
    }
}

fn copy_stage(c: &StageConfig) -> (r: StageConfig)
    ensures
        r == *c,
{
    match c {
        StageConfig::Scale { scale, offset, unit } => StageConfig::Scale {
            scale: *scale,
            offset: *offset,
            unit: copy_text(unit),
        },
        StageConfig::SlidingAverage { window } => StageConfig::SlidingAverage { window: *window },
        StageConfig::Median { window } => StageConfig::Median { window: *window },
        StageConfig::Math { expression } => StageConfig::Math { expression: expression.clone() },
        StageConfig::Threshold { low_warning, high_warning, low_critical, high_critical } => StageConfig::Threshold {
            low_warning: *low_warning,
            high_warning: *high_warning,
            low_critical: *low_critical,
            high_critical: *high_critical,
        },
        StageConfig::Aggregate { window, mode } => StageConfig::Aggregate { window: *window, mode: *mode },
    }
}

fn copy_control(c: &SimControl) -> (r: SimControl)
    ensures
        r == *c,
{
    SimControl { name: c.name.clone(), initial: c.initial, unit: copy_text(&c.unit), writable: c.writable }
}

fn copy_registers(v: &Vec<RegisterConfig>) -> (r: Vec<RegisterConfig>)
    ensures
        r@ == v@,
{
    let mut r: Vec<RegisterConfig> = Vec::new();
    let mut i: usize = 0;
    while i < v.len()
        invariant
            i <= v@.len(),
            r@ == v@.take(i as int),
        decreases v@.len() - i,
    {
        r.push(copy_register(&v[i]));
        assert(v@.take(i + 1) =~= v@.take(i as int).push(v@[i as int]));
        i = i + 1;
    }
    assert(v@.take(i as int) =~= v@);
    r
}

fn copy_stages(v: &Vec<StageConfig>) -> (r: Vec<StageConfig>)
    ensures
        r@ == v@,
{
    let mut r: Vec<StageConfig> = Vec::new();
    let mut i: usize = 0;
    while i < v.len()
        invariant
            i <= v@.len(),
            r@ == v@.take(i as int),
        decreases v@.len() - i,
    {
        r.push(copy_stage(&v[i]));
        assert(v@.take(i + 1) =~= v@.take(i as int).push(v@[i as int]));
        i = i + 1;
    }
    assert(v@.take(i as int) =~= v@);
    r
}

fn copy_controls(v: &Vec<SimControl>) -> (r: Vec<SimControl>)
    ensures
        r@ == v@,
{
    let mut r: Vec<SimControl> = Vec::new();
    let mut i: usize = 0;
    while i < v.len()
        invariant
            i <= v@.len(),
            r@ == v@.take(i as int),
        decreases v@.len() - i,
    {
        r.push(copy_control(&v[i]));
        assert(v@.take(i + 1) =~= v@.take(i as int).push(v@[i as int]));
        i = i + 1;
    }
    assert(v@.take(i as int) =~= v@);
    r
}

fn copy_device(c: &DeviceConfig) -> (r: DeviceConfig)
    ensures
        same_device(*c, r),
{
    DeviceConfig {
        name: c.name.clone(),
        transport: c.transport,
        unit_id: c.unit_id,
        host: c.host.clone(),
        port: c.port,
        poll_interval_ms: c.poll_interval_ms,
        timeout_ms: c.timeout_ms,
        reconnect_initial_ms: c.reconnect_initial_ms,
        reconnect_max_ms: c.reconnect_max_ms,
        serial_port: copy_text(&c.serial_port),
        baud_rate: c.baud_rate,
        registers: copy_registers(&c.registers),
    }
}

fn copy_pipeline(c: &PipelineConfig) -> (r: PipelineConfig)
    ensures
        same_pipeline(*c, r),
{
    PipelineConfig { sensor_id: c.sensor_id.clone(), stages: copy_stages(&c.stages) }
}

fn copy_sim_sensor(c: &SimSensor) -> (r: SimSensor)
    ensures
        same_sim_sensor(*c, r),
{
    SimSensor {
        sensor_id: c.sensor_id.clone(),
        name: c.name.clone(),
        kind: c.kind.clone(),
        unit: copy_text(&c.unit),
        formula: c.formula.clone(),
        inputs: copy_inputs(&c.inputs),
    }
}

fn copy_devices(v: &Vec<DeviceConfig>) -> (r: Vec<DeviceConfig>)
    ensures
        r@.len() == v@.len(),
        forall|i: int| 0 <= i < v@.len() ==> same_device(#[trigger] v@[i], r@[i]),
{
    let mut r: Vec<DeviceConfig> = Vec::new();
    let mut i: usize = 0;
    while i < v.len()
        invariant
            i <= v@.len(),
            r@.len() == i,
            forall|k: int| 0 <= k < i ==> same_device(#[trigger] v@[k], r@[k]),
        decreases v@.len() - i,
    {
        r.push(copy_device(&v[i]));
        i = i + 1;
    }
    r
}

fn copy_pipelines(v: &Vec<PipelineConfig>) -> (r: Vec<PipelineConfig>)
    ensures
        r@.len() == v@.len(),
        forall|i: int| 0 <= i < v@.len() ==> same_pipeline(#[trigger] v@[i], r@[i]),
{
    let mut r: Vec<PipelineConfig> = Vec::new();
    let mut i: usize = 0;
    while i < v.len()
        invariant
            i <= v@.len(),
            r@.len() == i,
            forall|k: int| 0 <= k < i ==> same_pipeline(#[trigger] v@[k], r@[k]),
        decreases v@.len() - i,
    {
        r.push(copy_pipeline(&v[i]));
        i = i + 1;
    }
    r
}

fn copy_all_computed(v: &Vec<ComputedConfig>) -> (r: Vec<ComputedConfig>)
    ensures
        r@.len() == v@.len(),
        forall|i: int| 0 <= i < v@.len() ==> crate::computed::same_computed(#[trigger] v@[i], r@[i]),
{
    let mut r: Vec<ComputedConfig> = Vec::new();
    let mut i: usize = 0;
    while i < v.len()
        invariant
            i <= v@.len(),
            r@.len() == i,
            forall|k: int| 0 <= k < i ==> crate::computed::same_computed(#[trigger] v@[k], r@[k]),
        decreases v@.len() - i,
    {
        r.push(copy_computed(&v[i]));
        i = i + 1;
    }
    r
}

fn copy_sim_sensors(v: &Vec<SimSensor>) -> (r: Vec<SimSensor>)
    ensures
        r@.len() == v@.len(),
        forall|i: int| 0 <= i < v@.len() ==> same_sim_sensor(#[trigger] v@[i], r@[i]),
{
    let mut r: Vec<SimSensor> = Vec::new();
    let mut i: usize = 0;
    while i < v.len()
        invariant
            i <= v@.len(),
            r@.len() == i,
            forall|k: int| 0 <= k < i ==> same_sim_sensor(#[trigger] v@[k], r@[k]),
        decreases v@.len() - i,
    {
        r.push(copy_sim_sensor(&v[i]));
        i = i + 1;
    }
    r
}

/// A copy of a configuration.
pub fn copy_config(c: &Config) -> (r: Config)
    ensures
        same_config(*c, r),
{
    Config {
        general: GeneralConfig {
            log_level: c.general.log_level,
            log_dir: copy_text(&c.general.log_dir),
            log_max_files: c.general.log_max_files,
        },
        devices: copy_devices(&c.devices),
        pipelines: copy_pipelines(&c.pipelines),
        computed: copy_all_computed(&c.computed),
        endpoints: c.endpoints,
        sim: SimConfig { controls: copy_controls(&c.sim.controls), sensors: copy_sim_sensors(&c.sim.sensors) },
    }
}

} // verus!
