//! The gateway's main loop: from batches of raw samples to metrics.

use vstd::prelude::*;

use crate::computed::ComputedEngine;
use crate::config::{Config, GeneralConfig, LogLevel};
use crate::config_handle::ConfigHandle;
use crate::domain::{Metric, MetricStatus, RawSample};
use crate::evaluation::Evaluation;
use crate::logging::{level_from_str, LogFileConfig};
use crate::number::Real;
use crate::pipeline::stages::Arithmetic;
use crate::pipeline::{Pipeline, PipelineError, PipelinesCache};
use crate::store::{MetricStore, SensorState};

verus! {

// ---- settings ----

/// The command line of the gateway.
#[derive(Debug, Clone)]
pub struct Cli {
    /// The configuration file.
    pub config: String,
    /// Overrides the configured log level.
    pub log_level: Option<String>,
    /// Port of the development dashboard.
    pub dashboard_port: Option<u16>,
}

/// The level of the log: the one on the command line, if it names one, else the
/// configured one.
pub fn effective_level(cli: &Cli, general: &GeneralConfig) -> (r: LogLevel)
    ensures
        r == (match cli.log_level {
            Some(s) => match crate::logging::level_named(s@) {
                Some(l) => l,
                None => general.log_level,
            },
            None => general.log_level,
        }),
{
    match &cli.log_level {
        Some(s) => match level_from_str(s.as_str()) {
            Some(l) => l,
            None => general.log_level,
        },
        None => general.log_level,
    }
}

/// The rolling log files, where a directory is configured.
pub fn log_files(general: &GeneralConfig) -> (r: Option<LogFileConfig>)
    requires
        general.log_max_files <= usize::MAX,
    ensures
        r is Some <==> general.log_dir is Some,
        r matches Some(f) ==> f.dir@ == general.log_dir->0@ && f.prefix@ == "telemux"@ && f.max_files
            == general.log_max_files,
{
    match &general.log_dir {
        Some(dir) => Some(
            LogFileConfig {
                dir: dir.clone(),
                prefix: "telemux".to_owned(),
                max_files: general.log_max_files as usize,
            },
        ),
        None => None,
    }
}

/// The name of a status in the log.
pub open spec fn status_name(s: MetricStatus) -> Seq<char> {
    match s {
        MetricStatus::Normal => "normal"@,
        MetricStatus::Warning => "warning"@,
        MetricStatus::Critical => "critical"@,
        MetricStatus::Unknown => "unknown"@,
    }
}

/// The name of a status in the log.
pub fn status_str(status: MetricStatus) -> (r: &'static str)
    ensures
        r@ == status_name(status),
{
    match status {
        MetricStatus::Normal => "normal",
        MetricStatus::Warning => "warning",
        MetricStatus::Critical => "critical",
        MetricStatus::Unknown => "unknown",
    }
}

// ---- batches ----

/// The latest values, the pipelines and the computed sensors.
#[derive(Debug)]
pub struct Gateway {
    pub store: MetricStore,
    pub pipelines: PipelinesCache,
    pub computed: ComputedEngine,
}

/// What the engines need of a configuration; an acceptable one has it.
pub open spec fn workable(c: Config) -> bool {
    &&& crate::pipeline::all_readable(c.pipelines@)
    &&& crate::computed::readable_computed(c.computed@)
    &&& crate::computed::mapped_computed(c.computed@)
}

/// Every pipeline and every computed sensor in force can be built.
pub open spec fn buildable(c: Config) -> bool {
    let es = crate::computed::effective(c.computed@);
    &&& crate::pipeline::set_problem(c.pipelines@, 0) is None
    &&& forall|i: int| 0 <= i < es.len() ==> crate::computed::own_problem(#[trigger] es[i]) is None
}

/// Each engine stands at the revision of the configuration, or can be built for
/// it.
pub open spec fn served(g: Gateway, c: Config, revision: u64) -> bool {
    let es = crate::computed::effective(c.computed@);
    &&& g.pipelines.built_for() == revision || crate::pipeline::set_problem(c.pipelines@, 0) is None
    &&& g.computed.built_for() == revision || forall|i: int|
        0 <= i < es.len() ==> crate::computed::own_problem(#[trigger] es[i]) is None
}

/// A batch is worked off whatever the configuration where both engines stand at
/// its revision, and in any state where the configuration can be built.
pub proof fn a_batch_is_served(g: Gateway, c: Config, revision: u64)
    requires
        buildable(c) || (g.pipelines.built_for() == revision && g.computed.built_for() == revision),
    ensures
        served(g, c, revision),
{
}

/// The engines are those of the configuration: as they were where they were
/// built for its revision, else built anew.
pub open spec fn up_to_date(before: Gateway, c: Config, revision: u64, after: Gateway) -> bool {
    &&& after.pipelines.built_for() == revision
    &&& after.computed.built_for() == revision
    &&& if before.pipelines.built_for() == revision {
        after.pipelines == before.pipelines
    } else {
        crate::pipeline::fresh_set(c.pipelines@, after.pipelines.built())
    }
    &&& if before.computed.built_for() == revision {
        after.computed == before.computed
    } else {
        crate::computed::built(crate::computed::effective(c.computed@), Ok(after.computed.list()))
    }
}

/// An acceptable configuration whose expressions are not blank, and whose inputs
/// are mappings, is workable and can be built.
pub proof fn acceptable_is_workable(c: Config)
    requires
        crate::validity::acceptable(c, crate::validation::faults_of(c)),
        crate::validation::readable(c),
        crate::computed::mapped_computed(c.computed@),
    ensures
        workable(c),
        buildable(c),
{
    crate::computed::acceptable_computed_build(c);
    crate::computed::distinct_sensors_are_in_force(c.computed@);
    crate::pipeline::acceptable_pipelines_build(c);
    assert forall|i: int| 0 <= i < c.pipelines@.len() implies crate::registration::stages_readable(
        #[trigger] c.pipelines@[i],
    ) by {
        assert forall|k: int| 0 <= k < c.pipelines@[i].stages@.len() implies crate::pipeline::stage_readable(
            #[trigger] c.pipelines@[i].stages@[k],
        ) by {}
    }
    assert forall|i: int| 0 <= i < c.computed@.len() implies !crate::expression::blank(
        (#[trigger] c.computed@[i]).expression@,
    ) by {
        assert(!crate::expression::blank(c.computed@[i].expression@));
    }
}

/// What becomes of a sample: the pipeline of its sensor makes a metric of it,
/// which is recorded, or fails. Without a pipeline nothing becomes of it.
pub open spec fn sample_worked<F: Fn(Arithmetic) -> Real>(
    calc: F,
    ps0: Seq<Pipeline>,
    st0: Map<Seq<char>, SensorState>,
    s: RawSample,
    ps1: Seq<Pipeline>,
    st1: Map<Seq<char>, SensorState>,
    outcome: Option<Result<Metric, PipelineError>>,
) -> bool {
    if crate::pipeline::has_pipeline(ps0, s.sensor_id.0@) {
        exists|i: int, r: Result<Metric, PipelineError>|
            {
                &&& 0 <= i < ps0.len()
                &&& ps0[i].sensor_id.0@ == s.sensor_id.0@
                &&& ps1 == ps0.update(i, ps1[i])
                &&& #[trigger] crate::pipeline::processed(calc, ps0[i], s, ps1[i], r)
                &&& outcome == Some(r)
                &&& st1 == (match r {
                    Ok(m) => crate::store::with_metric(st0, Some(s), m),
                    Err(_) => st0,
                })
            }
    } else {
        ps1 == ps0 && st1 == st0 && outcome is None
    }
}

/// What becomes of the samples of a batch, one after the other: the pipelines
/// and the latest values before each sample, and after the last.
pub open spec fn samples_worked<F: Fn(Arithmetic) -> Real>(
    calc: F,
    samples: Seq<RawSample>,
    pss: Seq<Seq<Pipeline>>,
    sts: Seq<Map<Seq<char>, SensorState>>,
    outcomes: Seq<Option<Result<Metric, PipelineError>>>,
) -> bool {
    &&& pss.len() == outcomes.len() + 1
    &&& sts.len() == outcomes.len() + 1
    &&& outcomes.len() <= samples.len()
    &&& forall|i: int|
        0 <= i < outcomes.len() ==> sample_worked(
            calc,
            pss[i],
            sts[i],
            samples[i],
            pss[i + 1],
            sts[i + 1],
            #[trigger] outcomes[i],
        )
}

/// How many of the first `n` samples became a metric.
pub open spec fn made(outcomes: Seq<Option<Result<Metric, PipelineError>>>, n: int) -> nat
    decreases n,
{
    if n <= 0 {
        0
    } else {
        made(outcomes, n - 1) + (if outcomes[n - 1] matches Some(Ok(_)) {
            1nat
        } else {
            0nat
        })
    }
}

proof fn lemma_made(
    outcomes: Seq<Option<Result<Metric, PipelineError>>>,
    more: Seq<Option<Result<Metric, PipelineError>>>,
    n: int,
)
    requires
        0 <= n <= outcomes.len(),
        outcomes.is_prefix_of(more),
    ensures
        made(outcomes, n) == made(more, n),
    decreases n,
{
    if n > 0 {
        lemma_made(outcomes, more, n - 1);
        assert(outcomes[n - 1] == more[n - 1]);
    }
}

/// What working a batch off comes to: the engines are brought up to date, the
/// raw samples are recorded, every sample goes through its pipeline, and then
/// the computed sensors are evaluated. Every sample, every metric and every
/// computed value is one write to the store.
pub open spec fn worked_off<F: Fn(Arithmetic) -> Real, E: Fn(Evaluation) -> Real>(
    calc: F,
    eval: E,
    before: Gateway,
    c: Config,
    revision: u64,
    samples: Seq<RawSample>,
    now: i64,
    after: Gateway,
    outcomes: Seq<Option<Result<Metric, PipelineError>>>,
) -> bool {
    exists|ready: Gateway, pss: Seq<Seq<Pipeline>>, sts: Seq<Map<Seq<char>, SensorState>>|
        {
            &&& #[trigger] up_to_date(before, c, revision, ready)
            &&& ready.store@ == crate::store::with_batch(before.store@, samples, samples.len() as int)
            &&& #[trigger] samples_worked(calc, samples, pss, sts, outcomes)
            &&& outcomes.len() == samples.len()
            &&& pss[0] == ready.pipelines.built()
            &&& sts[0] == ready.store@
            &&& pss.last() == after.pipelines.built()
            &&& after.pipelines.built_for() == ready.pipelines.built_for()
            &&& after.computed == ready.computed
            &&& crate::computed::ran(
                eval,
                after.computed.computed(),
                sts.last(),
                crate::store::later_write(before.store.writes(), samples.len() + made(outcomes, outcomes.len() as int)),
                now,
                after.store@,
                after.store.writes(),
            )
        }
}

impl Gateway {
    pub open spec fn wf(&self) -> bool {
        self.store.wf() && self.pipelines.wf() && self.computed.wf()
    }

    /// A gateway without values, for a configuration at revision 0.
    pub fn new(config: &Config) -> (r: Result<Self, String>)
        requires
            workable(*config),
        ensures
            r matches Ok(g) ==> {
                &&& g.wf()
                &&& g.store@ == Map::<Seq<char>, SensorState>::empty()
                &&& crate::pipeline::fresh_set(config.pipelines@, g.pipelines.built())
                &&& crate::computed::built(crate::computed::effective(config.computed@), Ok(g.computed.list()))
                &&& g.pipelines.built_for() == 0
                &&& g.computed.built_for() == 0
            },
            r is Ok <==> buildable(*config),
    {
        let pipelines = match PipelinesCache::new(config) {
            Ok(p) => p,
            Err(m) => {
                return Err(m);
            },
        };
        let computed = match ComputedEngine::new(config) {
            Ok(c) => c,
            Err(m) => {
                return Err(m);
            },
        };
        Ok(Gateway { store: MetricStore::new(), pipelines, computed })
    }

    /// Brings the engines up to date with the configuration and records the raw
    /// samples.
    fn receive(&mut self, handle: &ConfigHandle, samples: &Vec<RawSample>) -> (r: Result<(), String>)
        requires
            old(self).wf(),
            workable(handle.current()),
        ensures
            final(self).wf(),
            r is Ok ==> {
                &&& up_to_date(*old(self), handle.current(), handle.changes(), *final(self))
                &&& final(self).store@ == crate::store::with_batch(
                    old(self).store@,
                    samples@,
                    samples@.len() as int,
                )
                &&& final(self).store.writes() == crate::store::later_write(old(self).store.writes(), samples@.len())
            },
            r is Err ==> final(self).store == old(self).store,
            r is Ok <==> served(*old(self), handle.current(), handle.changes()),
    {
        match self.pipelines.refresh(handle) {
            Ok(()) => {},
            Err(m) => {
                return Err(m);
            },
        }
        match self.computed.refresh(handle) {
            Ok(()) => {},
            Err(m) => {
                return Err(m);
            },
        }
        self.store.update_batch_raw(samples);
        Ok(())
    }

    /// Takes a sample through the pipeline of its sensor.
    fn work_sample<F: Fn(Arithmetic) -> Real>(&mut self, sample: &RawSample, calc: &F) -> (r: Option<
        Result<Metric, PipelineError>,
    >)
        requires
            old(self).wf(),
            forall|a: Arithmetic| calc.requires((a,)),
        ensures
            final(self).wf(),
            final(self).computed == old(self).computed,
            final(self).pipelines.built_for() == old(self).pipelines.built_for(),
            sample_worked(
                *calc,
                old(self).pipelines.built(),
                old(self).store@,
                *sample,
                final(self).pipelines.built(),
                final(self).store@,
                r,
            ),
            final(self).store.writes() == (if r matches Some(Ok(_)) {
                crate::store::next_write(old(self).store.writes())
            } else {
                old(self).store.writes()
            }),
    {
        let ghost ps0 = self.pipelines.built();
        match self.pipelines.position(&sample.sensor_id) {
            None => {
                assert(!crate::pipeline::has_pipeline(ps0, sample.sensor_id.0@));
                None
            },
            Some(i) => {
                assert(crate::pipeline::has_pipeline(ps0, sample.sensor_id.0@));
                assert(ps0[i as int].wf());
                let r = self.pipelines.at_mut(i).process(sample.clone(), calc);
                let ghost ps1 = self.pipelines.built();
                proof {
                    assert(ps1 =~= ps0.update(i as int, ps1[i as int]));
                    assert(crate::pipeline::processed(*calc, ps0[i as int], *sample, ps1[i as int], r));
                    assert(crate::pipeline::distinct_sensors(ps1)) by {
                        assert forall|a: int, b: int| #![trigger ps1[a], ps1[b]] 0 <= a < b < ps1.len() implies ps1[a].sensor_id.0@
                            != ps1[b].sensor_id.0@ by {
                            assert(ps0[a].sensor_id.0@ != ps0[b].sensor_id.0@);
                        }
                    }
                    assert forall|a: int| 0 <= a < ps1.len() implies (#[trigger] ps1[a]).wf() by {
                        if a != i {
                            assert(ps1[a] == ps0[a]);
                        }
                    }
                }
                match &r {
                    Ok(m) => {
                        self.store.update_metric(Some(sample.clone()), m.clone());
                    },
                    Err(_) => {},
                }
                Some(r)
            },
        }
    }

    /// Works a batch of samples off, at time `now`, and says what became of each
    /// sample that has a pipeline. The arithmetic of pipelines is done by
    /// `calc`, the expressions of computed sensors are evaluated by `eval`.
    pub fn work_off<F: Fn(Arithmetic) -> Real, E: Fn(Evaluation) -> Real>(
        &mut self,
        handle: &ConfigHandle,
        samples: &Vec<RawSample>,
        now: i64,
        calc: &F,
        eval: &E,
    ) -> (r: Result<Vec<Option<Result<Metric, PipelineError>>>, String>)
        requires
            old(self).wf(),
            workable(handle.current()),
            forall|a: Arithmetic| calc.requires((a,)),
            forall|e: Evaluation| eval.requires((e,)),
        ensures
            final(self).wf(),
            r matches Ok(outcomes) ==> worked_off(
                *calc,
                *eval,
                *old(self),
                handle.current(),
                handle.changes(),
                samples@,
                now,
                *final(self),
                outcomes@,
            ),
            r is Err ==> final(self).store == old(self).store,
            r is Ok <==> served(*old(self), handle.current(), handle.changes()),
    {
        match self.receive(handle, samples) {
            Ok(()) => {},
            Err(m) => {
                return Err(m);
            },
        }
        let ghost ready = *self;
        let ghost mut pss: Seq<Seq<Pipeline>> = seq![self.pipelines.built()];
        let ghost mut sts: Seq<Map<Seq<char>, SensorState>> = seq![self.store@];
        let mut outcomes: Vec<Option<Result<Metric, PipelineError>>> = Vec::new();
        let mut i: usize = 0;
        while i < samples.len()
            invariant
                i <= samples@.len(),
                self.wf(),
                forall|a: Arithmetic| calc.requires((a,)),
                outcomes@.len() == i,
                samples_worked(*calc, samples@, pss, sts, outcomes@),
                pss[0] == ready.pipelines.built(),
                sts[0] == ready.store@,
                pss[i as int] == self.pipelines.built(),
                sts[i as int] == self.store@,
                self.pipelines.built_for() == ready.pipelines.built_for(),
                self.computed == ready.computed,
                self.store.writes() == crate::store::later_write(
                    old(self).store.writes(),
                    samples@.len() + made(outcomes@, i as int),
                ),
            decreases samples@.len() - i,
        {
            let ghost before = *self;
            let ghost known = outcomes@;
            let outcome = self.work_sample(&samples[i], calc);
            outcomes.push(outcome);
            proof {
                let more = pss.push(self.pipelines.built());
                let states = sts.push(self.store@);
                assert forall|j: int| 0 <= j < outcomes@.len() implies sample_worked(
                    *calc,
                    more[j],
                    states[j],
                    samples@[j],
                    more[j + 1],
                    states[j + 1],
                    #[trigger] outcomes@[j],
                ) by {
                    if j < i {
                        assert(outcomes@[j] == known[j]);
                        assert(more[j] == pss[j] && more[j + 1] == pss[j + 1]);
                        assert(states[j] == sts[j] && states[j + 1] == sts[j + 1]);
                    } else {
                        assert(more[j] == before.pipelines.built() && states[j] == before.store@);
                    }
                }
                lemma_made(known, outcomes@, i as int);
                pss = more;
                sts = states;
            }
            i = i + 1;
        }
        let ghost worked = *self;
        self.computed.run(&mut self.store, now, eval);
        assert(samples_worked(*calc, samples@, pss, sts, outcomes@));
        Ok(outcomes)
    }
}

// ---- service arguments ----

/// Where the arguments of a service give the configuration file.
#[derive(Debug)]
pub enum ConfigArgument {
    /// The argument at this position.
    At(usize),
    /// This text.
    Inline(String),
}

/// The text that follows a prefix.
pub open spec fn after_prefix(t: Seq<char>, prefix: Seq<char>) -> Option<Seq<char>> {
    if t.len() >= prefix.len() && t.take(prefix.len() as int) == prefix {
        Some(t.skip(prefix.len() as int))
    } else {
        None
    }
}

/// `r` is where the configuration file is given, from argument `i` on: after
/// `--config`, or in `--config=`. An argument that is no text counts as none of
/// these.
pub open spec fn config_argument(args: Seq<Option<String>>, i: int, r: Option<ConfigArgument>) -> bool
    decreases args.len() - i,
{
    if i >= args.len() {
        r is None
    } else {
        match args[i] {
            None => config_argument(args, i + 1, r),
            Some(s) => if s@ == "--config"@ {
                if i + 1 < args.len() {
                    r == Some(ConfigArgument::At((i + 1) as usize))
                } else {
                    r is None
                }
            } else {
                match after_prefix(s@, "--config="@) {
                    Some(rest) => r matches Some(ConfigArgument::Inline(t)) && t@ == rest,
                    None => config_argument(args, i + 1, r),
                }
            },
        }
    }
}

fn strip<'a>(t: &'a str, prefix: &str) -> (r: Option<&'a str>)
    ensures
        r is Some <==> after_prefix(t@, prefix@) is Some,
        r matches Some(rest) ==> after_prefix(t@, prefix@) == Some(rest@),
{
    let n: usize = prefix.unicode_len();
    let m: usize = t.unicode_len();
    if m < n {
        return None;
    }
    let head = t.substring_char(0, n);
    assert(t@.subrange(0, n as int) =~= t@.take(n as int));
    assert(t@.subrange(n as int, m as int) =~= t@.skip(n as int));
    if crate::text::same_text(head, prefix) {
        Some(t.substring_char(n, m))
    } else {
        None
    }
}

/// Where the arguments of a service give the configuration file; an argument
/// that is no text is given as none.
pub fn parse_config_arg(args: &Vec<Option<String>>) -> (r: Option<ConfigArgument>)
    ensures
        config_argument(args@, 0, r),
{
    let mut i: usize = 0;
    while i < args.len()
        invariant
            i <= args@.len(),
            forall|r: Option<ConfigArgument>|
                config_argument(args@, 0, r) <==> #[trigger] config_argument(args@, i as int, r),
        decreases args@.len() - i,
    {
        let ghost i0 = i as int;
        match &args[i] {
            None => {},
            Some(s) => {
                if crate::text::same_text(s.as_str(), "--config") {
                    let r = if i + 1 < args.len() {
                        Some(ConfigArgument::At(i + 1))
                    } else {
                        None
                    };
                    assert(config_argument(args@, i as int, r));
                    return r;
                }
                match strip(s.as_str(), "--config=") {
                    Some(rest) => {
                        let r = Some(ConfigArgument::Inline(rest.to_owned()));
                        assert(config_argument(args@, i as int, r));
                        return r;
                    },
                    None => {},
                }
            },
        }
        proof {
            assert forall|r: Option<ConfigArgument>|
                config_argument(args@, 0, r) <==> #[trigger] config_argument(args@, i0 + 1, r) by {
                assert(config_argument(args@, 0, r) <==> config_argument(args@, i0, r));
            }
        }
        i = i + 1;
    }
    assert(config_argument(args@, i as int, None));
    None
}

/// The arguments that an installed service starts with.
pub fn launch_arguments(config: &Option<String>) -> (r: Vec<String>)
    ensures
        crate::expression::texts(r@) == (match config {
            Some(p) => seq!["--service"@, "--config"@, p@],
            None => seq!["--service"@],
        }),
{
    let mut r: Vec<String> = Vec::new();
    r.push("--service".to_owned());
    match config {
        Some(p) => {
            r.push("--config".to_owned());
            r.push(p.clone());
            assert(crate::expression::texts(r@) =~= seq!["--service"@, "--config"@, p@]);
        },
        None => {
            assert(crate::expression::texts(r@) =~= seq!["--service"@]);
        },
    }
    r
}

} // verus!
