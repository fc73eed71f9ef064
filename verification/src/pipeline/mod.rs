//! Processing pipelines: from raw samples to metrics.

pub mod describe;
pub mod stages;

use vstd::prelude::*;

use crate::config::{Config, PipelineConfig, StageConfig};
use crate::config_handle::ConfigHandle;
use crate::domain::{Metric, MetricStatus, RawSample, SensorId};
use crate::expression::check_expression;
use crate::number::Real;
use crate::pipeline::stages::{
    AggregateStage, Arithmetic, MathStage, MedianStage, ScaleStage, SlidingAverageStage, Stage, ThresholdStage,
};
use crate::text::join2;

verus! {

/// Why a pipeline produced no metric.
#[derive(Debug)]
pub enum PipelineError {
    Stage { stage: &'static str, message: String },
    Math(String),
    Empty,
}

impl PipelineError {
    /// The text of the error.
    pub open spec fn text(self) -> Seq<char> {
        match self {
            PipelineError::Stage { stage, message } => "stage `"@ + stage@ + "`: "@ + message@,
            PipelineError::Math(m) => "expression error: "@ + m@,
            PipelineError::Empty => "pipeline has no stages"@,
        }
    }

    /// The text of the error.
    pub fn message(&self) -> (r: String)
        ensures
            r@ == self.text(),
    {
        match self {
            PipelineError::Stage { stage, message } => {
                let mut m = crate::text::join3("stage `", stage, "`: ");
                m.append(message.as_str());
                m
            },
            PipelineError::Math(m) => join2("expression error: ", m.as_str()),
            PipelineError::Empty => "pipeline has no stages".to_owned(),
        }
    }
}

/// A sample on its way through the stages.
#[derive(Debug)]
pub struct SampleContext {
    pub sensor_id: SensorId,
    pub name: String,
    pub value: Real,
    pub unit: Option<String>,
    pub status: MetricStatus,
    pub timestamp: i64,
}

/// The sample as it enters the first stage.
pub open spec fn entering(sample: RawSample) -> SampleContext {
    SampleContext {
        sensor_id: sample.sensor_id,
        name: sample.name,
        value: sample.raw_value,
        unit: sample.unit,
        status: MetricStatus::Normal,
        timestamp: sample.timestamp,
    }
}

/// The metric that a sample becomes after the last stage.
pub open spec fn leaving(c: SampleContext) -> Metric {
    Metric { sensor_id: c.sensor_id, value: c.value, unit: c.unit, status: c.status, timestamp: c.timestamp }
}

impl SampleContext {
    /// A sample of normal status: only a threshold stage says otherwise.
    pub fn from_raw(sample: RawSample) -> (r: Self)
        ensures
            r == entering(sample),
    {
        SampleContext {
            sensor_id: sample.sensor_id,
            name: sample.name,
            value: sample.raw_value,
            unit: sample.unit,
            status: MetricStatus::Normal,
            timestamp: sample.timestamp,
        }
    }

    /// The metric of the sample.
    pub fn into_metric(self) -> (r: Metric)
        ensures
            r == leaving(self),
    {
        Metric {
            sensor_id: self.sensor_id,
            value: self.value,
            unit: self.unit,
            status: self.status,
            timestamp: self.timestamp,
        }
    }
}

/// The message of a failed check, or none where it passed.
pub open spec fn verdict(r: Result<(), String>) -> Option<Seq<char>> {
    match r {
        Ok(_) => None,
        Err(m) => Some(m@),
    }
}

/// The message about an expression that does not parse.
pub open spec fn bad_expression(expression: Seq<char>, fault: Seq<char>) -> Seq<char> {
    "invalid expression `"@ + expression + "`: "@ + fault
}

/// What is wrong with the window of a filter.
pub open spec fn window_problem(window: usize) -> Option<Seq<char>> {
    if window == 0 {
        Some("window must be >= 1"@)
    } else if window > 1024 {
        Some("window too large (max 1024)"@)
    } else {
        None
    }
}

/// What is wrong with a stage, given what the parser has against its
/// expression.
pub open spec fn stage_problem(config: StageConfig, fault: Option<Seq<char>>) -> Option<Seq<char>> {
    match config {
        StageConfig::Scale { scale, .. } => if scale.finite() {
            None
        } else {
            Some("scale must be finite"@)
        },
        StageConfig::SlidingAverage { window } => window_problem(window),
        StageConfig::Median { window } => window_problem(window),
        StageConfig::Aggregate { window, .. } => window_problem(window),
        StageConfig::Math { expression } => match fault {
            Some(f) => Some(bad_expression(expression@, f)),
            None => None,
        },
        StageConfig::Threshold { low_warning, high_warning, low_critical, high_critical } => {
            if low_warning is None && high_warning is None && low_critical is None && high_critical is None {
                Some("threshold needs at least one bound"@)
            } else if low_critical is Some && high_critical is Some && high_critical->0.below(low_critical->0) {
                Some("low_critical must be <= high_critical"@)
            } else if low_warning is Some && high_warning is Some && high_warning->0.below(low_warning->0) {
                Some("low_warning must be <= high_warning"@)
            } else {
                None
            }
        },
    }
}

/// What the parser has against the expression of a stage; nothing where the
/// stage has none.
pub open spec fn stage_fault(config: StageConfig) -> Option<Seq<char>> {
    match config {
        StageConfig::Math { expression } => crate::expression::parse_fault(expression@),
        _ => None,
    }
}

/// The stage's expression, where it has one, is not blank.
pub open spec fn stage_readable(config: StageConfig) -> bool {
    match config {
        StageConfig::Math { expression } => !crate::expression::blank(expression@),
        _ => true,
    }
}

fn check_window(window: usize) -> (r: Result<(), String>)
    ensures
        verdict(r) == window_problem(window),
{
    if window == 0 {
        Err("window must be >= 1".to_owned())
    } else if window > 1024 {
        Err("window too large (max 1024)".to_owned())
    } else {
        Ok(())
    }
}

/// Checks a stage, given what the parser has against its expression.
pub fn validate_stage_given(config: &StageConfig, fault: &Option<String>) -> (r: Result<(), String>)
    ensures
        verdict(r) == stage_problem(*config, crate::expression::text_of(*fault)),
{
    match config {
        StageConfig::Scale { scale, .. } => {
            if scale.is_finite() {
                Ok(())
            } else {
                Err("scale must be finite".to_owned())
            }
        },
        StageConfig::SlidingAverage { window } => check_window(*window),
        StageConfig::Median { window } => check_window(*window),
        StageConfig::Aggregate { window, .. } => check_window(*window),
        StageConfig::Math { expression } => match fault {
            Some(f) => {
                let mut m = join2("invalid expression `", expression.as_str());
                m.append("`: ");
                m.append(f.as_str());
                Err(m)
            },
            None => Ok(()),
        },
        StageConfig::Threshold { low_warning, high_warning, low_critical, high_critical } => {
            if low_warning.is_none() && high_warning.is_none() && low_critical.is_none() && high_critical.is_none() {
                return Err("threshold needs at least one bound".to_owned());
            }
            if let (Some(lo), Some(hi)) = (low_critical, high_critical) {
                if hi.less(lo) {
                    return Err("low_critical must be <= high_critical".to_owned());
                }
            }
            if let (Some(lo), Some(hi)) = (low_warning, high_warning) {
                if hi.less(lo) {
                    return Err("low_warning must be <= high_warning".to_owned());
                }
            }
            Ok(())
        },
    }
}

/// What the parser has against the expression of a stage.
pub fn parse_stage(config: &StageConfig) -> (r: Option<String>)
    requires
        stage_readable(*config),
    ensures
        crate::expression::text_of(r) == stage_fault(*config),
{
    match config {
        StageConfig::Math { expression } => check_expression(expression.as_str()),
        _ => None,
    }
}

/// What the parser has against the expression of a stage; the mark, in its
/// place, for a blank expression.
pub(crate) fn parse_stage_marked(config: &StageConfig, mark: &Option<String>) -> (r: Option<String>)
    ensures
        stage_readable(*config) ==> crate::expression::text_of(r) == stage_fault(*config),
        !stage_readable(*config) ==> crate::expression::text_of(r) == crate::expression::text_of(*mark),
{
    match config {
        StageConfig::Math { expression } => crate::expression::check_marked(expression.as_str(), mark),
        _ => None,
    }
}

/// Checks a stage.
pub fn validate_stage(config: &StageConfig) -> (r: Result<(), String>)
    requires
        stage_readable(*config),
    ensures
        verdict(r) == stage_problem(*config, stage_fault(*config)),
{
    validate_stage_given(config, &parse_stage(config))
}

// ---- building ----

/// `s` is a stage by this configuration that has seen no sample yet.
pub open spec fn fresh(config: StageConfig, s: Stage) -> bool {
    match config {
        StageConfig::Scale { scale, offset, unit } => s == Stage::Scale(ScaleStage { scale, offset, unit }),
        StageConfig::SlidingAverage { window } => s matches Stage::SlidingAverage(t) && t.window == window
            && t.buffer@.len() == 0,
        StageConfig::Median { window } => s matches Stage::Median(t) && t.window == window && t.buffer@.len() == 0,
        StageConfig::Math { expression } => s matches Stage::Math(t) && t.expression@ == expression@,
        StageConfig::Threshold { low_warning, high_warning, low_critical, high_critical } => s == Stage::Threshold(
            ThresholdStage { low_warning, high_warning, low_critical, high_critical },
        ),
        StageConfig::Aggregate { window, mode } => s matches Stage::Aggregate(t) && t.window == window && t.mode == mode
            && t.buffer@.len() == 0,
    }
}

/// Builds a stage, given what the parser has against its expression.
pub fn build_stage_given(config: &StageConfig, fault: &Option<String>) -> (r: Result<Stage, String>)
    ensures
        r is Ok <==> stage_problem(*config, crate::expression::text_of(*fault)) is None,
        r matches Ok(s) ==> fresh(*config, s) && (stage_readable(*config) ==> stages::usable(s)),
        r matches Err(m) ==> Some(m@) == stage_problem(*config, crate::expression::text_of(*fault)),
{
    match validate_stage_given(config, fault) {
        Ok(()) => {},
        Err(m) => {
            return Err(m);
        },
    }
    match config {
        StageConfig::Scale { scale, offset, unit } => Ok(
            Stage::Scale(ScaleStage::new(*scale, *offset, crate::domain::copy_text(unit))),
        ),
        StageConfig::SlidingAverage { window } => Ok(Stage::SlidingAverage(SlidingAverageStage::new(*window))),
        StageConfig::Median { window } => Ok(Stage::Median(MedianStage::new(*window))),
        StageConfig::Math { expression } => match MathStage::new_given(expression.as_str(), fault) {
            Ok(s) => Ok(Stage::Math(s)),
            Err(m) => Err(m),
        },
        StageConfig::Threshold { low_warning, high_warning, low_critical, high_critical } => Ok(
            Stage::Threshold(ThresholdStage::new(*low_warning, *high_warning, *low_critical, *high_critical)),
        ),
        StageConfig::Aggregate { window, mode } => Ok(Stage::Aggregate(AggregateStage::new(*window, *mode))),
    }
}

/// Builds a stage.
pub fn build_stage(config: &StageConfig) -> (r: Result<Stage, String>)
    requires
        stage_readable(*config),
    ensures
        r is Ok <==> stage_problem(*config, stage_fault(*config)) is None,
        r matches Ok(s) ==> fresh(*config, s) && stages::usable(s),
        r matches Err(m) ==> Some(m@) == stage_problem(*config, stage_fault(*config)),
{
    build_stage_given(config, &parse_stage(config))
}

/// The pipeline of one sensor.
#[derive(Debug)]
pub struct Pipeline {
    pub sensor_id: SensorId,
    pub stages: Vec<Stage>,
}

/// The first problem with a stage, from stage `k` on.
pub open spec fn chain_problem(stages: Seq<StageConfig>, k: int) -> Option<Seq<char>>
    decreases stages.len() - k,
{
    if k >= stages.len() {
        None
    } else if stage_problem(stages[k], stage_fault(stages[k])) is Some {
        stage_problem(stages[k], stage_fault(stages[k]))
    } else {
        chain_problem(stages, k + 1)
    }
}

/// Every stage is by its configuration, and has seen no sample yet.
pub open spec fn fresh_chain(configs: Seq<StageConfig>, chain: Seq<Stage>) -> bool {
    &&& chain.len() == configs.len()
    &&& forall|i: int| 0 <= i < chain.len() ==> fresh(#[trigger] configs[i], chain[i])
}

impl Pipeline {
    pub open spec fn chain(&self) -> Seq<Stage> {
        self.stages@
    }

    /// Every stage is usable.
    pub open spec fn wf(&self) -> bool {
        forall|i: int| 0 <= i < self.chain().len() ==> stages::usable(#[trigger] self.chain()[i])
    }

    /// Builds a pipeline; the message tells the first stage that cannot be
    /// built.
    pub fn from_config(config: &PipelineConfig) -> (r: Result<Self, String>)
        requires
            crate::registration::stages_readable(*config),
        ensures
            r is Ok <==> chain_problem(config.stages@, 0) is None,
            r matches Ok(p) ==> p.wf() && p.sensor_id.0@ == config.sensor_id@ && fresh_chain(config.stages@, p.chain()),
            r matches Err(m) ==> Some(m@) == chain_problem(config.stages@, 0),
    {
        let mut chain: Vec<Stage> = Vec::new();
        let mut k: usize = 0;
        while k < config.stages.len()
            invariant
                k <= config.stages@.len(),
                chain@.len() == k,
                crate::registration::stages_readable(*config),
                chain_problem(config.stages@, 0) == chain_problem(config.stages@, k as int),
                forall|i: int| 0 <= i < k ==> fresh(config.stages@[i], #[trigger] chain@[i]) && stages::usable(chain@[i]),
            decreases config.stages@.len() - k,
        {
            assert(stage_readable(config.stages@[k as int]));
            match build_stage(&config.stages[k]) {
                Ok(s) => {
                    chain.push(s);
                },
                Err(m) => {
                    return Err(m);
                },
            }
            k = k + 1;
        }
        Ok(Pipeline { sensor_id: SensorId(config.sensor_id.clone()), stages: chain })
    }

    /// Whether the pipeline has no stage.
    pub fn is_empty(&self) -> (r: bool)
        ensures
            r == (self.chain().len() == 0),
    {
        self.stages.len() == 0
    }

    /// Takes a sample through every stage, to a metric; a pipeline without
    /// stages takes none. Arithmetic is done by `calc`.
    pub fn process<F: Fn(Arithmetic) -> Real>(&mut self, sample: RawSample, calc: &F) -> (r: Result<
        Metric,
        PipelineError,
    >)
        requires
            old(self).wf(),
            forall|a: Arithmetic| calc.requires((a,)),
        ensures
            final(self).wf(),
            processed(*calc, *old(self), sample, *final(self), r),
    {
        if self.stages.len() == 0 {
            return Err(PipelineError::Empty);
        }
        let ghost chain = self.chain();
        let mut ctx = SampleContext::from_raw(sample);
        let ghost mut passed: Seq<SampleContext> = seq![ctx];
        let mut k: usize = 0;
        while k < self.stages.len()
            invariant
                k <= self.stages@.len(),
                old(self).wf(),
                self.wf(),
                chain == old(self).chain(),
                self.sensor_id == old(self).sensor_id,
                self.chain().len() == chain.len(),
                forall|a: Arithmetic| calc.requires((a,)),
                passed.len() == k + 1,
                passed[0] == entering(sample),
                passed[k as int] == ctx,
                forall|j: int|
                    0 <= j < k ==> stages::processes(
                        *calc,
                        chain[j],
                        #[trigger] passed[j],
                        stages::value_fault(chain[j]),
                        self.chain()[j],
                        passed[j + 1],
                        Ok(()),
                    ),
                forall|j: int| k <= j < chain.len() ==> #[trigger] self.chain()[j] == chain[j],
            decreases self.stages@.len() - k,
        {
            assert(stages::usable(self.chain()[k as int]));
            let ghost before = self.stages@;
            let ghost entered = ctx;
            let done = self.stages[k].process(&mut ctx, calc);
            let ghost d = done;
            proof {
                assert(stages::processes(
                    *calc,
                    chain[k as int],
                    entered,
                    stages::value_fault(chain[k as int]),
                    self.chain()[k as int],
                    ctx,
                    d,
                ));
                assert forall|i: int| 0 <= i < self.chain().len() implies stages::usable(#[trigger] self.chain()[i]) by {
                    if i != k {
                        assert(self.chain()[i] == before[i]);
                    }
                }
                assert forall|j: int| 0 <= j < k implies stages::processes(
                    *calc,
                    chain[j],
                    #[trigger] passed[j],
                    stages::value_fault(chain[j]),
                    self.chain()[j],
                    passed[j + 1],
                    Ok(()),
                ) by {
                    assert(self.chain()[j] == before[j]);
                }
                assert forall|j: int| k < j < chain.len() implies #[trigger] self.chain()[j] == chain[j] by {
                    assert(self.chain()[j] == before[j]);
                }
            }
            match done {
                Ok(()) => {
                    proof {
                        let more = passed.push(ctx);
                        assert forall|j: int| 0 <= j < k + 1 implies stages::processes(
                            *calc,
                            chain[j],
                            #[trigger] more[j],
                            stages::value_fault(chain[j]),
                            self.chain()[j],
                            more[j + 1],
                            Ok(()),
                        ) by {
                            if j < k {
                                assert(more[j] == passed[j] && more[j + 1] == passed[j + 1]);
                            } else {
                                assert(more[j] == entered && more[j + 1] == ctx);
                            }
                        }
                        passed = more;
                    }
                },
                Err(e) => {
                    assert(goes_through(*calc, chain, sample, passed, self.chain(), Err(e)));
                    return Err(e);
                },
            }
            k = k + 1;
        }
        let ghost last = ctx;
        let metric = ctx.into_metric();
        assert(goes_through(*calc, chain, sample, passed, self.chain(), Ok(metric)));
        Ok(metric)
    }
}

/// How a sample goes through a chain of stages: `passed` is the sample before
/// the first stage and after each that it passed; `after` is the chain after it.
pub open spec fn goes_through<F: Fn(Arithmetic) -> Real>(
    calc: F,
    before: Seq<Stage>,
    sample: RawSample,
    passed: Seq<SampleContext>,
    after: Seq<Stage>,
    r: Result<Metric, PipelineError>,
) -> bool {
    let m = passed.len() - 1;
    &&& 0 <= m <= before.len()
    &&& passed[0] == entering(sample)
    &&& after.len() == before.len()
    &&& forall|j: int|
        0 <= j < m ==> stages::processes(
            calc,
            before[j],
            #[trigger] passed[j],
            stages::value_fault(before[j]),
            after[j],
            passed[j + 1],
            Ok(()),
        )
    &&& forall|j: int| m < j < before.len() ==> #[trigger] after[j] == before[j]
    &&& match r {
        Ok(metric) => m == before.len() && metric == leaving(passed[m]),
        Err(e) => m < before.len() && exists|c: SampleContext| #[trigger]
            stages::processes(calc, before[m], passed[m], stages::value_fault(before[m]), after[m], c, Err(e)),
    }
}

/// What a pipeline makes of a sample: every stage in its order, until one
/// fails. A pipeline without stages takes no sample.
pub open spec fn processed<F: Fn(Arithmetic) -> Real>(
    calc: F,
    before: Pipeline,
    sample: RawSample,
    after: Pipeline,
    r: Result<Metric, PipelineError>,
) -> bool {
    &&& after.sensor_id == before.sensor_id
    &&& if before.chain().len() == 0 {
        after == before && r == Err::<Metric, PipelineError>(PipelineError::Empty)
    } else {
        exists|passed: Seq<SampleContext>| #[trigger]
            goes_through(calc, before.chain(), sample, passed, after.chain(), r)
    }
}

/// Every pipeline can be read.
pub open spec fn all_readable(configs: Seq<PipelineConfig>) -> bool {
    forall|i: int| 0 <= i < configs.len() ==> crate::registration::stages_readable(#[trigger] configs[i])
}

/// No two pipelines are for the same sensor.
pub open spec fn one_per_sensor(configs: Seq<PipelineConfig>) -> bool {
    forall|i: int, j: int|
        #![trigger configs[i], configs[j]]
        0 <= i < j < configs.len() ==> configs[i].sensor_id@ != configs[j].sensor_id@
}

/// The first problem with a pipeline, from pipeline `i` on.
pub open spec fn set_problem(configs: Seq<PipelineConfig>, i: int) -> Option<Seq<char>>
    decreases configs.len() - i,
{
    if i >= configs.len() {
        None
    } else if chain_problem(configs[i].stages@, 0) is Some {
        chain_problem(configs[i].stages@, 0)
    } else {
        set_problem(configs, i + 1)
    }
}

/// Configuration `k` is the last one for the sensor.
pub open spec fn last_for_sensor(configs: Seq<PipelineConfig>, k: int, id: Seq<char>) -> bool {
    &&& 0 <= k < configs.len()
    &&& configs[k].sensor_id@ == id
    &&& forall|m: int| k < m < configs.len() ==> (#[trigger] configs[m]).sensor_id@ != id
}

/// The pipeline is by the last configuration for its sensor and has not seen a
/// sample.
pub open spec fn fresh_pipeline(configs: Seq<PipelineConfig>, p: Pipeline) -> bool {
    &&& p.wf()
    &&& exists|k: int| #[trigger]
        last_for_sensor(configs, k, p.sensor_id.0@) && fresh_chain(configs[k].stages@, p.chain())
}

/// No two pipelines are for the same sensor.
pub open spec fn distinct_sensors(pipelines: Seq<Pipeline>) -> bool {
    forall|i: int, j: int|
        #![trigger pipelines[i], pipelines[j]]
        0 <= i < j < pipelines.len() ==> pipelines[i].sensor_id.0@ != pipelines[j].sensor_id.0@
}

/// One of the pipelines is for the sensor.
pub open spec fn has_pipeline(pipelines: Seq<Pipeline>, id: Seq<char>) -> bool {
    exists|i: int| 0 <= i < pipelines.len() && (#[trigger] pipelines[i]).sensor_id.0@ == id
}

/// One pipeline for each sensor of the configurations, none of which has seen a
/// sample. A later configuration for a sensor replaces an earlier one.
pub open spec fn fresh_set(configs: Seq<PipelineConfig>, pipelines: Seq<Pipeline>) -> bool {
    &&& distinct_sensors(pipelines)
    &&& forall|i: int| 0 <= i < pipelines.len() ==> fresh_pipeline(configs, #[trigger] pipelines[i])
    &&& forall|k: int| 0 <= k < configs.len() ==> has_pipeline(pipelines, (#[trigger] configs[k]).sensor_id@)
}

fn find_pipeline(pipelines: &Vec<Pipeline>, id: &String) -> (r: Option<usize>)
    ensures
        match r {
            Some(i) => i < pipelines@.len() && pipelines@[i as int].sensor_id.0@ == id@,
            None => !has_pipeline(pipelines@, id@),
        },
{
    let mut i: usize = 0;
    while i < pipelines.len()
        invariant
            i <= pipelines@.len(),
            forall|j: int| 0 <= j < i ==> (#[trigger] pipelines@[j]).sensor_id.0@ != id@,
        decreases pipelines@.len() - i,
    {
        if crate::text::same_string(&pipelines[i].sensor_id.0, id) {
            return Some(i);
        }
        i = i + 1;
    }
    None
}

proof fn lemma_set_extended(
    configs: Seq<PipelineConfig>,
    n: int,
    before: Seq<Pipeline>,
    p: Pipeline,
    after: Seq<Pipeline>,
)
    requires
        0 <= n < configs.len(),
        fresh_set(configs.take(n), before),
        p.wf(),
        p.sensor_id.0@ == configs[n].sensor_id@,
        fresh_chain(configs[n].stages@, p.chain()),
        (after == before.push(p) && !has_pipeline(before, p.sensor_id.0@)) || (exists|i: int|
            0 <= i < before.len() && (#[trigger] before[i]).sensor_id.0@ == p.sensor_id.0@ && after == before.update(
                i,
                p,
            )),
    ensures
        fresh_set(configs.take(n + 1), after),
{
    let old = configs.take(n);
    let new = configs.take(n + 1);
    assert(new =~= old.push(configs[n]));
    assert(last_for_sensor(new, n, p.sensor_id.0@));
    assert(fresh_chain(new[n].stages@, p.chain()));
    assert(fresh_pipeline(new, p));
    assert forall|i: int| 0 <= i < before.len() && (#[trigger] before[i]).sensor_id.0@ != p.sensor_id.0@ implies fresh_pipeline(
        new,
        before[i],
    ) by {
        let q = before[i];
        assert(fresh_pipeline(old, q));
        let k = choose|k: int| #[trigger]
            last_for_sensor(old, k, q.sensor_id.0@) && fresh_chain(old[k].stages@, q.chain());
        assert(old[k] == new[k]);
        assert(last_for_sensor(new, k, q.sensor_id.0@)) by {
            assert forall|m: int| k < m < new.len() implies (#[trigger] new[m]).sensor_id@ != q.sensor_id.0@ by {
                if m < n {
                    assert(new[m] == old[m]);
                }
            }
        }
    }
    if has_pipeline(before, p.sensor_id.0@) {
        let i = choose|i: int|
            0 <= i < before.len() && (#[trigger] before[i]).sensor_id.0@ == p.sensor_id.0@ && after == before.update(
                i,
                p,
            );
        assert forall|a: int, b: int| #![trigger after[a], after[b]] 0 <= a < b < after.len() implies after[a].sensor_id.0@
            != after[b].sensor_id.0@ by {
            assert(before[a].sensor_id.0@ != before[b].sensor_id.0@);
        }
        assert forall|a: int| 0 <= a < after.len() implies fresh_pipeline(new, #[trigger] after[a]) by {
            if a != i {
                assert(before[a] == after[a]);
                if a < i {
                    assert(before[a].sensor_id.0@ != before[i].sensor_id.0@);
                } else {
                    assert(before[i].sensor_id.0@ != before[a].sensor_id.0@);
                }
            }
        }
        assert forall|k: int| 0 <= k < new.len() implies has_pipeline(after, (#[trigger] new[k]).sensor_id@) by {
            if k < n {
                assert(new[k] == old[k]);
                assert(has_pipeline(before, old[k].sensor_id@));
                let a = choose|a: int|
                    0 <= a < before.len() && (#[trigger] before[a]).sensor_id.0@ == old[k].sensor_id@;
                assert(after[a].sensor_id.0@ == old[k].sensor_id@);
            } else {
                assert(after[i].sensor_id.0@ == new[k].sensor_id@);
            }
        }
    } else {
        assert forall|a: int, b: int| #![trigger after[a], after[b]] 0 <= a < b < after.len() implies after[a].sensor_id.0@
            != after[b].sensor_id.0@ by {
            assert(after[a] == before[a]);
            if b < before.len() {
                assert(after[b] == before[b]);
            }
        }
        assert forall|a: int| 0 <= a < after.len() implies fresh_pipeline(new, #[trigger] after[a]) by {
            if a < before.len() {
                assert(before[a] == after[a]);
            }
        }
        assert forall|k: int| 0 <= k < new.len() implies has_pipeline(after, (#[trigger] new[k]).sensor_id@) by {
            if k < n {
                assert(new[k] == old[k]);
                assert(has_pipeline(before, old[k].sensor_id@));
                let a = choose|a: int|
                    0 <= a < before.len() && (#[trigger] before[a]).sensor_id.0@ == old[k].sensor_id@;
                assert(after[a].sensor_id.0@ == old[k].sensor_id@);
            } else {
                assert(after[before.len() as int].sensor_id.0@ == new[k].sensor_id@);
            }
        }
    }
}

/// Builds the pipeline of every sensor; the message tells the first stage that
/// cannot be built. Those of a configuration that passed validation all can.
pub fn build_pipelines(configs: &Vec<PipelineConfig>) -> (r: Result<Vec<Pipeline>, String>)
    requires
        all_readable(configs@),
    ensures
        r is Ok <==> set_problem(configs@, 0) is None,
        r matches Ok(ps) ==> fresh_set(configs@, ps@),
        r matches Err(m) ==> Some(m@) == set_problem(configs@, 0),
{
    let mut ps: Vec<Pipeline> = Vec::new();
    let mut i: usize = 0;
    while i < configs.len()
        invariant
            i <= configs@.len(),
            all_readable(configs@),
            set_problem(configs@, 0) == set_problem(configs@, i as int),
            fresh_set(configs@.take(i as int), ps@),
        decreases configs@.len() - i,
    {
        assert(crate::registration::stages_readable(configs@[i as int]));
        let ghost before = ps@;
        match Pipeline::from_config(&configs[i]) {
            Ok(p) => {
                let ghost q = p;
                match find_pipeline(&ps, &configs[i].sensor_id) {
                    Some(j) => {
                        assert(before[j as int].sensor_id.0@ == q.sensor_id.0@);
                        ps.set(j, p);
                    },
                    None => {
                        ps.push(p);
                    },
                }
                proof {
                    lemma_set_extended(configs@, i as int, before, q, ps@);
                }
            },
            Err(m) => {
                return Err(m);
            },
        }
        i = i + 1;
    }
    assert(configs@.take(i as int) =~= configs@);
    Ok(ps)
}

proof fn lemma_chain_builds(stages: Seq<StageConfig>, k: int)
    requires
        0 <= k,
        forall|m: int| k <= m < stages.len() ==> stage_problem(#[trigger] stages[m], stage_fault(stages[m])) is None,
    ensures
        chain_problem(stages, k) is None,
    decreases stages.len() - k,
{
    if k < stages.len() {
        lemma_chain_builds(stages, k + 1);
    }
}

proof fn lemma_set_builds(configs: Seq<PipelineConfig>, i: int)
    requires
        0 <= i,
        forall|m: int| i <= m < configs.len() ==> chain_problem((#[trigger] configs[m]).stages@, 0) is None,
    ensures
        set_problem(configs, i) is None,
    decreases configs.len() - i,
{
    if i < configs.len() {
        lemma_set_builds(configs, i + 1);
    }
}

/// The pipelines of an acceptable configuration can all be built, and no two
/// of them are for the same sensor.
pub proof fn acceptable_pipelines_build(c: Config)
    requires
        crate::validity::acceptable(c, crate::validation::faults_of(c)),
    ensures
        set_problem(c.pipelines@, 0) is None,
        one_per_sensor(c.pipelines@),
{
    let f = crate::validation::faults_of(c);
    let ps = c.pipelines@;
    assert forall|m: int| 0 <= m < ps.len() implies chain_problem((#[trigger] ps[m]).stages@, 0) is None by {
        assert forall|k: int| 0 <= k < ps[m].stages@.len() implies stage_problem(
            #[trigger] ps[m].stages@[k],
            stage_fault(ps[m].stages@[k]),
        ) is None by {
            assert(f.stages[m][k] == stage_fault(ps[m].stages@[k]));
        }
        lemma_chain_builds(ps[m].stages@, 0);
    }
    lemma_set_builds(ps, 0);
}

/// The built pipelines, rebuilt when the configuration changes.
#[derive(Debug)]
pub struct PipelinesCache {
    revision: u64,
    pipelines: Vec<Pipeline>,
}

impl PipelinesCache {
    pub closed spec fn built(&self) -> Seq<Pipeline> {
        self.pipelines@
    }

    /// The revision that the pipelines were built for.
    pub closed spec fn built_for(&self) -> u64 {
        self.revision
    }

    /// Every pipeline is usable, and no two are for the same sensor.
    pub open spec fn wf(&self) -> bool {
        &&& distinct_sensors(self.built())
        &&& forall|i: int| 0 <= i < self.built().len() ==> (#[trigger] self.built()[i]).wf()
    }

    /// The pipelines of a configuration at revision 0.
    pub fn new(config: &Config) -> (r: Result<Self, String>)
        requires
            all_readable(config.pipelines@),
        ensures
            r is Ok <==> set_problem(config.pipelines@, 0) is None,
            r matches Ok(c) ==> c.wf() && c.built_for() == 0 && fresh_set(config.pipelines@, c.built()),
            r matches Err(m) ==> Some(m@) == set_problem(config.pipelines@, 0),
    {
        match build_pipelines(&config.pipelines) {
            Ok(pipelines) => Ok(PipelinesCache { revision: 0, pipelines }),
            Err(m) => Err(m),
        }
    }

    /// Rebuilds the pipelines where the configuration has changed since they
    /// were built; otherwise they, and what their stages remember, stay.
    pub fn refresh(&mut self, handle: &ConfigHandle) -> (r: Result<(), String>)
        requires
            old(self).wf(),
            all_readable(handle.current().pipelines@),
        ensures
            final(self).wf(),
            handle.changes() == old(self).built_for() ==> r is Ok && *final(self) == *old(self),
            handle.changes() != old(self).built_for() ==> {
                &&& r is Ok <==> set_problem(handle.current().pipelines@, 0) is None
                &&& r is Ok ==> final(self).built_for() == handle.changes() && fresh_set(
                    handle.current().pipelines@,
                    final(self).built(),
                )
                &&& r matches Err(m) ==> Some(m@) == set_problem(handle.current().pipelines@, 0) && *final(self)
                    == *old(self)
            },
    {
        let rev: u64 = handle.revision();
        if rev != self.revision {
            match build_pipelines(&handle.read().pipelines) {
                Ok(pipelines) => {
                    self.pipelines = pipelines;
                    self.revision = rev;
                },
                Err(m) => {
                    return Err(m);
                },
            }
        }
        Ok(())
    }

    /// The pipeline of a sensor, where it has one.
    pub fn get_mut(&mut self, sensor_id: &SensorId) -> (r: Option<&mut Pipeline>)
        ensures
            match r {
                Some(p) => exists|i: int|
                    {
                        &&& 0 <= i < old(self).built().len()
                        &&& #[trigger] old(self).built()[i] == *p
                        &&& p.sensor_id.0@ == sensor_id.0@
                        &&& final(self).built() == old(self).built().update(i, *final(p))
                        &&& final(self).built_for() == old(self).built_for()
                    },
                None => *final(self) == *old(self) && forall|i: int|
                    0 <= i < old(self).built().len() ==> (#[trigger] old(self).built()[i]).sensor_id.0@
                        != sensor_id.0@,
            },
    {
        match find_pipeline(&self.pipelines, &sensor_id.0) {
            Some(i) => {
                assert(old(self).built()[i as int] == self.pipelines@[i as int]);
                Some(&mut self.pipelines[i])
            },
            None => {
                assert forall|j: int| 0 <= j < old(self).built().len() implies (
                #[trigger] old(self).built()[j]).sensor_id.0@ != sensor_id.0@ by {
                    assert(self.pipelines@[j] == old(self).built()[j]);
                }
                None
            },
        }
    }

    /// The position of a sensor's pipeline, where it has one.
    pub fn position(&self, sensor_id: &SensorId) -> (r: Option<usize>)
        ensures
            match r {
                Some(i) => i < self.built().len() && self.built()[i as int].sensor_id.0@ == sensor_id.0@,
                None => forall|i: int|
                    0 <= i < self.built().len() ==> (#[trigger] self.built()[i]).sensor_id.0@ != sensor_id.0@,
            },
    {
        let r = find_pipeline(&self.pipelines, &sensor_id.0);
        assert(self.built() == self.pipelines@);
        r
    }

    /// The pipeline at a position.
    pub fn at(&self, i: usize) -> (r: &Pipeline)
        requires
            i < self.built().len(),
        ensures
            *r == self.built()[i as int],
    {
        &self.pipelines[i]
    }

    /// The pipeline at a position, to change it.
    pub fn at_mut(&mut self, i: usize) -> (r: &mut Pipeline)
        requires
            i < old(self).built().len(),
        ensures
            *r == old(self).built()[i as int],
            final(self).built() == old(self).built().update(i as int, *final(r)),
            final(self).built_for() == old(self).built_for(),
    {
        &mut self.pipelines[i]
    }

    /// The number of pipelines.
    pub fn len(&self) -> (r: usize)
        ensures
            r == self.built().len(),
    {
        self.pipelines.len()
    }

    /// Whether there is no pipeline.
    pub fn is_empty(&self) -> (r: bool)
        ensures
            r == (self.built().len() == 0),
    {
        self.pipelines.len() == 0
    }
}

} // verus!
