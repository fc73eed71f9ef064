//! What the gateway makes of its arguments, and of a batch of samples.

use vstd::prelude::*;

use crate::config::{Config, GeneralConfig, LogLevel};
use crate::domain::{Metric, MetricStatus, RawSample};
use crate::evaluation::Evaluation;
use crate::gateway::{
    effective_level, launch_arguments, log_files, parse_config_arg, status_str, Cli, ConfigArgument, Gateway,
};
use crate::logging::{level_from_str, LogFileConfig};
use crate::number::Real;
use crate::pipeline::stages::Arithmetic;
use crate::pipeline::{Pipeline, PipelineError};
use crate::store::SensorState;

verus! {

// ---- levels ----

/// The text is the word, in whatever case of its letters.
pub open spec fn spells(text: Seq<char>, word: Seq<char>) -> bool {
    &&& text.len() == word.len()
    &&& forall|i: int|
        #![trigger text[i]]
        0 <= i < text.len() ==> {
            ||| text[i] == word[i] && !('A' <= text[i] <= 'Z')
            ||| 'A' <= text[i] <= 'Z' && text[i] as int + 32 == word[i] as int
        }
}

proof fn lemma_spells(text: Seq<char>, word: Seq<char>)
    ensures
        crate::logging::named(text, word) <==> spells(text, word),
{
    let low = text.map_values(|c: char| crate::logging::ascii_lower(c));
    if crate::logging::named(text, word) {
        assert forall|i: int| #![trigger text[i]] 0 <= i < text.len() implies {
            ||| text[i] == word[i] && !('A' <= text[i] <= 'Z')
            ||| 'A' <= text[i] <= 'Z' && text[i] as int + 32 == word[i] as int
        } by {
            assert(low[i] == word[i]);
        }
    }
    if spells(text, word) {
        assert forall|i: int| 0 <= i < text.len() implies low[i] == word[i] by {
            assert(text[i] == text[i]);
        }
        assert(low =~= word);
    }
}

/// A level is known by its name, in whatever case; "warning" is one more name
/// for warnings, and nothing else names a level.
pub proof fn a_level_is_known_by_its_name(s: &str, r: Option<LogLevel>)
    requires
        call_ensures(level_from_str, (s,), r),
    ensures
        spells(s@, "trace"@) <==> r == Some(LogLevel::Trace),
        spells(s@, "debug"@) <==> r == Some(LogLevel::Debug),
        spells(s@, "info"@) <==> r == Some(LogLevel::Info),
        (spells(s@, "warn"@) || spells(s@, "warning"@)) <==> r == Some(LogLevel::Warn),
        spells(s@, "error"@) <==> r == Some(LogLevel::Error),
{
    lemma_spells(s@, "trace"@);
    lemma_spells(s@, "debug"@);
    lemma_spells(s@, "info"@);
    lemma_spells(s@, "warn"@);
    lemma_spells(s@, "warning"@);
    lemma_spells(s@, "error"@);
    reveal_strlit("trace");
    reveal_strlit("debug");
    reveal_strlit("info");
    reveal_strlit("warn");
    reveal_strlit("warning");
    reveal_strlit("error");
    let low = s@.map_values(|c: char| crate::logging::ascii_lower(c));
    assert("trace"@[0] == 't' && "debug"@[0] == 'd' && "info"@[0] == 'i' && "warn"@[0] == 'w' && "warning"@[0] == 'w'
        && "error"@[0] == 'e');
}

/// A level on the command line goes before that of the configuration, where it
/// is one.
pub proof fn the_command_line_goes_first(cli: &Cli, general: &GeneralConfig, r: LogLevel)
    requires
        call_ensures(effective_level, (cli, general), r),
    ensures
        cli.log_level is None ==> r == general.log_level,
        (cli.log_level matches Some(s) && spells(s@, "trace"@)) ==> r == LogLevel::Trace,
        (cli.log_level matches Some(s) && spells(s@, "debug"@)) ==> r == LogLevel::Debug,
        (cli.log_level matches Some(s) && spells(s@, "info"@)) ==> r == LogLevel::Info,
        (cli.log_level matches Some(s) && spells(s@, "warn"@)) ==> r == LogLevel::Warn,
        (cli.log_level matches Some(s) && spells(s@, "error"@)) ==> r == LogLevel::Error,
        (cli.log_level matches Some(s) && !spells(s@, "trace"@) && !spells(s@, "debug"@) && !spells(s@, "info"@)
            && !spells(s@, "warn"@) && !spells(s@, "warning"@) && !spells(s@, "error"@)) ==> r == general.log_level,
{
    if let Some(s) = cli.log_level {
        lemma_level(s@);
    }
}

proof fn lemma_level(t: Seq<char>)
    ensures
        spells(t, "trace"@) <==> crate::logging::level_named(t) == Some(LogLevel::Trace),
        spells(t, "debug"@) <==> crate::logging::level_named(t) == Some(LogLevel::Debug),
        spells(t, "info"@) <==> crate::logging::level_named(t) == Some(LogLevel::Info),
        (spells(t, "warn"@) || spells(t, "warning"@)) <==> crate::logging::level_named(t) == Some(LogLevel::Warn),
        spells(t, "error"@) <==> crate::logging::level_named(t) == Some(LogLevel::Error),
{
    lemma_spells(t, "trace"@);
    lemma_spells(t, "debug"@);
    lemma_spells(t, "info"@);
    lemma_spells(t, "warn"@);
    lemma_spells(t, "warning"@);
    lemma_spells(t, "error"@);
    reveal_strlit("trace");
    reveal_strlit("debug");
    reveal_strlit("info");
    reveal_strlit("warn");
    reveal_strlit("warning");
    reveal_strlit("error");
    assert("trace"@[0] == 't' && "debug"@[0] == 'd' && "info"@[0] == 'i' && "warn"@[0] == 'w' && "warning"@[0] == 'w'
        && "error"@[0] == 'e');
}

/// There are log files exactly where a directory is given: in it, under the
/// gateway's name, and as many as the configuration says.
pub proof fn log_files_go_to_their_directory(general: &GeneralConfig, r: Option<LogFileConfig>)
    requires
        call_ensures(log_files, (general,), r),
    ensures
        general.log_dir is None ==> r is None,
        general.log_dir matches Some(dir) ==> (r matches Some(f) && f.dir@ == dir@ && f.prefix@ == "telemux"@
            && f.max_files == general.log_max_files),
{
}

/// Every status has its word.
pub proof fn a_status_has_its_word(s: MetricStatus, r: &'static str)
    requires
        call_ensures(status_str, (s,), r),
    ensures
        s == MetricStatus::Normal ==> r@ == "normal"@,
        s == MetricStatus::Warning ==> r@ == "warning"@,
        s == MetricStatus::Critical ==> r@ == "critical"@,
        s == MetricStatus::Unknown ==> r@ == "unknown"@,
{
}

// ---- arguments ----

/// The argument says nothing of the configuration.
pub open spec fn says_nothing(a: Option<String>) -> bool {
    a matches Some(s) ==> s@ != "--config"@ && !(s@.len() >= 9 && s@.take(9) == "--config="@)
}

proof fn lemma_first_argument(args: Seq<Option<String>>, i: int, k: int, r: Option<ConfigArgument>)
    requires
        0 <= i <= k <= args.len(),
        forall|j: int| i <= j < k ==> says_nothing(#[trigger] args[j]),
        crate::gateway::config_argument(args, i, r),
    ensures
        crate::gateway::config_argument(args, k, r),
    decreases k - i,
{
    reveal_strlit("--config=");
    if i < k {
        assert(says_nothing(args[i]));
        lemma_first_argument(args, i + 1, k, r);
    }
}

/// The first argument about the configuration counts: the option's own
/// argument, or what stands behind its equals sign. Without one there is none.
pub proof fn the_first_config_argument_counts(args: &Vec<Option<String>>, k: int, r: Option<ConfigArgument>)
    requires
        call_ensures(parse_config_arg, (args,), r),
        0 <= k <= args@.len(),
        forall|j: int| 0 <= j < k ==> says_nothing(#[trigger] args@[j]),
    ensures
        k == args@.len() ==> r is None,
        (k < args@.len() && (args@[k] matches Some(s) && s@ == "--config"@)) ==> {
            &&& (k + 1 < args@.len() ==> (r matches Some(ConfigArgument::At(i)) && i == k + 1))
            &&& (k + 1 == args@.len() ==> r is None)
        },
        (k < args@.len() && (args@[k] matches Some(s) && s@.len() >= 9 && s@.take(9) == "--config="@)) ==> (r matches Some(
            ConfigArgument::Inline(t),
        ) && t@ == (args@[k]->0)@.skip(9)),
{
    reveal_strlit("--config=");
    reveal_strlit("--config");
    lemma_first_argument(args@, 0, k, r);
    assert(args@.len() == args.len());
}

/// The arguments that a service is launched with lead back to the configuration
/// that they were made for.
pub proof fn launch_arguments_lead_back(
    config: &Option<String>,
    launched: Vec<String>,
    args: &Vec<Option<String>>,
    r: Option<ConfigArgument>,
)
    requires
        call_ensures(launch_arguments, (config,), launched),
        args@.len() == launched@.len(),
        forall|j: int| 0 <= j < args@.len() ==> #[trigger] args@[j] == Some(launched@[j]),
        call_ensures(parse_config_arg, (args,), r),
    ensures
        launched@.len() >= 1 && launched@[0]@ == "--service"@,
        config is None ==> r is None,
        config matches Some(p) ==> (r matches Some(ConfigArgument::At(i)) && i < args@.len() && (args@[i as int] matches Some(
            t,
        ) && t@ == p@)),
{
    reveal_strlit("--service");
    reveal_strlit("--config");
    reveal_strlit("--config=");
    let texts = crate::expression::texts(launched@);
    assert(texts.len() == launched@.len());
    assert(texts[0] == launched@[0]@);
    assert("--service"@[2] == 's' && "--config"@[2] == 'c' && "--config="@[2] == 'c');
    assert("--service"@.take(9)[2] == 's');
    assert(says_nothing(args@[0]));
    if let Some(p) = config {
        assert(texts.len() == 3);
        assert(texts[1] == launched@[1]@ && texts[2] == launched@[2]@);
        the_first_config_argument_counts(args, 1, r);
    } else {
        assert(texts.len() == 1);
        the_first_config_argument_counts(args, 1, r);
    }
}

// ---- batches ----

proof fn lemma_worked<F: Fn(Arithmetic) -> Real>(
    calc: F,
    ps0: Seq<Pipeline>,
    st0: Map<Seq<char>, SensorState>,
    s: RawSample,
    ps1: Seq<Pipeline>,
    st1: Map<Seq<char>, SensorState>,
    outcome: Option<Result<Metric, PipelineError>>,
    other: Seq<char>,
)
    requires
        crate::gateway::sample_worked(calc, ps0, st0, s, ps1, st1, outcome),
    ensures
        crate::pipeline::has_pipeline(ps0, s.sensor_id.0@) <==> outcome is Some,
        outcome is None ==> st1 == st0 && ps1 == ps0,
        outcome matches Some(Err(_)) ==> st1 == st0,
        outcome matches Some(Ok(m)) ==> m.sensor_id == s.sensor_id && m.timestamp == s.timestamp && st1.dom().contains(
            s.sensor_id.0@,
        ) && st1[s.sensor_id.0@].raw == Some(s) && st1[s.sensor_id.0@].metric == Some(m),
        other != s.sensor_id.0@ ==> st1.dom().contains(other) == st0.dom().contains(other) && st1[other] == st0[other],
        crate::pipeline::has_pipeline(ps1, other) <==> crate::pipeline::has_pipeline(ps0, other),
{
    if crate::pipeline::has_pipeline(ps0, s.sensor_id.0@) {
        let (i, r) = choose|i: int, r: Result<Metric, PipelineError>|
            {
                &&& 0 <= i < ps0.len()
                &&& ps0[i].sensor_id.0@ == s.sensor_id.0@
                &&& ps1 == ps0.update(i, ps1[i])
                &&& #[trigger] crate::pipeline::processed(calc, ps0[i], s, ps1[i], r)
                &&& outcome == Some(r)
                &&& st1 == (match r {
                    Ok(m) => crate::store::with_metric(st0, Some(s), m),
                    Err(_) => st0,
                })
            };
        if r is Ok {
            crate::laws::pipelines::a_metric_keeps_sensor_and_time(calc, ps0[i], s, ps1[i], r);
        }
        if crate::pipeline::has_pipeline(ps0, other) {
            let k = choose|k: int| 0 <= k < ps0.len() && (#[trigger] ps0[k]).sensor_id.0@ == other;
            assert(ps1[k].sensor_id.0@ == other);
        }
        if crate::pipeline::has_pipeline(ps1, other) {
            let k = choose|k: int| 0 <= k < ps1.len() && (#[trigger] ps1[k]).sensor_id.0@ == other;
            assert(ps0[k].sensor_id.0@ == other);
        }
    }
}

/// A sample whose sensor has a pipeline has an outcome, another has none. A metric
/// that comes of it is of its sensor and its time, and stands in the store beside
/// the sample; where none comes of it, and for every other sensor, the store
/// stays.
pub proof fn a_metric_stands_beside_its_sample<F: Fn(Arithmetic) -> Real>(
    calc: F,
    ps0: Seq<Pipeline>,
    st0: Map<Seq<char>, SensorState>,
    s: RawSample,
    ps1: Seq<Pipeline>,
    st1: Map<Seq<char>, SensorState>,
    outcome: Option<Result<Metric, PipelineError>>,
    other: Seq<char>,
)
    requires
        crate::gateway::sample_worked(calc, ps0, st0, s, ps1, st1, outcome),
    ensures
        outcome is Some <==> exists|i: int| 0 <= i < ps0.len() && (#[trigger] ps0[i]).sensor_id.0@ == s.sensor_id.0@,
        !(outcome matches Some(Ok(_))) ==> st1 == st0,
        outcome matches Some(Ok(m)) ==> m.sensor_id == s.sensor_id && m.timestamp == s.timestamp && st1.dom().contains(
            s.sensor_id.0@,
        ) && st1[s.sensor_id.0@].raw == Some(s) && st1[s.sensor_id.0@].metric == Some(m),
        other != s.sensor_id.0@ ==> st1.dom().contains(other) == st0.dom().contains(other) && st1[other] == st0[other],
{
    lemma_worked(calc, ps0, st0, s, ps1, st1, outcome, other);
}

proof fn lemma_left_alone<F: Fn(Arithmetic) -> Real>(
    calc: F,
    samples: Seq<RawSample>,
    pss: Seq<Seq<Pipeline>>,
    sts: Seq<Map<Seq<char>, SensorState>>,
    outcomes: Seq<Option<Result<Metric, PipelineError>>>,
    id: Seq<char>,
    k: int,
    n: int,
)
    requires
        crate::gateway::samples_worked(calc, samples, pss, sts, outcomes),
        0 <= k <= n <= outcomes.len(),
        forall|j: int|
            k <= j < n ==> (#[trigger] samples[j]).sensor_id.0@ != id || !crate::pipeline::has_pipeline(pss[0], id),
        crate::pipeline::has_pipeline(pss[k], id) <==> crate::pipeline::has_pipeline(pss[0], id),
    ensures
        sts[n].dom().contains(id) == sts[k].dom().contains(id),
        sts[n][id] == sts[k][id],
        crate::pipeline::has_pipeline(pss[n], id) <==> crate::pipeline::has_pipeline(pss[0], id),
    decreases n - k,
{
    if k < n {
        lemma_left_alone(calc, samples, pss, sts, outcomes, id, k, n - 1);
        let o = outcomes[n - 1];
        assert(crate::gateway::sample_worked(
            calc,
            pss[n - 1],
            sts[n - 1],
            samples[n - 1],
            pss[n - 1 + 1],
            sts[n - 1 + 1],
            o,
        ));
        assert(samples[n - 1].sensor_id.0@ != id || !crate::pipeline::has_pipeline(pss[0], id));
        lemma_worked(calc, pss[n - 1], sts[n - 1], samples[n - 1], pss[n], sts[n], o, id);
    }
}

proof fn lemma_pipelines_stay<F: Fn(Arithmetic) -> Real>(
    calc: F,
    samples: Seq<RawSample>,
    pss: Seq<Seq<Pipeline>>,
    sts: Seq<Map<Seq<char>, SensorState>>,
    outcomes: Seq<Option<Result<Metric, PipelineError>>>,
    id: Seq<char>,
    n: int,
)
    requires
        crate::gateway::samples_worked(calc, samples, pss, sts, outcomes),
        0 <= n <= outcomes.len(),
    ensures
        crate::pipeline::has_pipeline(pss[n], id) <==> crate::pipeline::has_pipeline(pss[0], id),
    decreases n,
{
    if n > 0 {
        lemma_pipelines_stay(calc, samples, pss, sts, outcomes, id, n - 1);
        let o = outcomes[n - 1];
        assert(crate::gateway::sample_worked(
            calc,
            pss[n - 1],
            sts[n - 1],
            samples[n - 1],
            pss[n - 1 + 1],
            sts[n - 1 + 1],
            o,
        ));
        lemma_worked(calc, pss[n - 1], sts[n - 1], samples[n - 1], pss[n], sts[n], o, id);
    }
}

/// No computed sensor has the id.
pub open spec fn not_computed(g: Gateway, id: Seq<char>) -> bool {
    forall|i: int|
        0 <= i < g.computed.computed().len() ==> (#[trigger] g.computed.computed()[i]).config.sensor_id@ != id
}

/// After a batch, a sensor that has one sample in it, and is not computed, holds
/// that sample. Where the sample became a metric, the sensor holds that metric too.
pub proof fn a_sample_of_a_batch_is_held<F: Fn(Arithmetic) -> Real, E: Fn(Evaluation) -> Real>(
    calc: F,
    eval: E,
    before: Gateway,
    c: Config,
    revision: u64,
    samples: Seq<RawSample>,
    now: i64,
    after: Gateway,
    outcomes: Seq<Option<Result<Metric, PipelineError>>>,
    k: int,
)
    requires
        crate::gateway::worked_off(calc, eval, before, c, revision, samples, now, after, outcomes),
        0 <= k < samples.len(),
        forall|j: int| k < j < samples.len() ==> (#[trigger] samples[j]).sensor_id.0@ != samples[k].sensor_id.0@,
        not_computed(after, samples[k].sensor_id.0@),
        forall|j: int| 0 <= j < k ==> (#[trigger] samples[j]).sensor_id.0@ != samples[k].sensor_id.0@,
    ensures
        outcomes.len() == samples.len(),
        after.store@.dom().contains(samples[k].sensor_id.0@),
        after.store@[samples[k].sensor_id.0@].raw == Some(samples[k]),
        outcomes[k] matches Some(Ok(m)) ==> after.store@[samples[k].sensor_id.0@].metric == Some(m),
{
    let id = samples[k].sensor_id.0@;
    let (ready, pss, sts) = choose|ready: Gateway, pss: Seq<Seq<Pipeline>>, sts: Seq<Map<Seq<char>, SensorState>>|
        {
            &&& #[trigger] crate::gateway::up_to_date(before, c, revision, ready)
            &&& ready.store@ == crate::store::with_batch(before.store@, samples, samples.len() as int)
            &&& #[trigger] crate::gateway::samples_worked(calc, samples, pss, sts, outcomes)
            &&& outcomes.len() == samples.len()
            &&& pss[0] == ready.pipelines.built()
            &&& sts[0] == ready.store@
            &&& pss.last() == after.pipelines.built()
            &&& after.pipelines.built_for() == ready.pipelines.built_for()
            &&& after.computed == ready.computed
            &&& crate::computed::ran(
                eval,
                after.computed.computed(),
                sts.last(),
                crate::store::later_write(
                    before.store.writes(),
                    samples.len() + crate::gateway::made(outcomes, outcomes.len() as int),
                ),
                now,
                after.store@,
                after.store.writes(),
            )
        };
    let n = outcomes.len() as int;
    crate::laws::shown::the_last_sample_of_a_batch_is_kept(before.store@, samples, n, k);
    lemma_left_alone(calc, samples, pss, sts, outcomes, id, 0, k);
    assert(crate::gateway::sample_worked(calc, pss[k], sts[k], samples[k], pss[k + 1], sts[k + 1], outcomes[k]));
    lemma_worked(calc, pss[k], sts[k], samples[k], pss[k + 1], sts[k + 1], outcomes[k], id);
    lemma_pipelines_stay(calc, samples, pss, sts, outcomes, id, k + 1);
    lemma_left_alone(calc, samples, pss, sts, outcomes, id, k + 1, n);
    assert(sts.last() == sts[n]);
    crate::laws::computed::every_computed_metric_is_normal(
        eval,
        after.computed.computed(),
        sts.last(),
        crate::store::later_write(
            before.store.writes(),
            samples.len() + crate::gateway::made(outcomes, outcomes.len() as int),
        ),
        now,
        after.store@,
        after.store.writes(),
        id,
    );
}

/// After a batch, a sensor without a sample in it, and not computed, is as it
/// was.
pub proof fn a_batch_leaves_the_rest<F: Fn(Arithmetic) -> Real, E: Fn(Evaluation) -> Real>(
    calc: F,
    eval: E,
    before: Gateway,
    c: Config,
    revision: u64,
    samples: Seq<RawSample>,
    now: i64,
    after: Gateway,
    outcomes: Seq<Option<Result<Metric, PipelineError>>>,
    id: Seq<char>,
)
    requires
        crate::gateway::worked_off(calc, eval, before, c, revision, samples, now, after, outcomes),
        forall|j: int| 0 <= j < samples.len() ==> (#[trigger] samples[j]).sensor_id.0@ != id,
        not_computed(after, id),
    ensures
        after.store@.dom().contains(id) == before.store@.dom().contains(id),
        before.store@.dom().contains(id) ==> after.store@[id] == before.store@[id],
{
    let (ready, pss, sts) = choose|ready: Gateway, pss: Seq<Seq<Pipeline>>, sts: Seq<Map<Seq<char>, SensorState>>|
        {
            &&& #[trigger] crate::gateway::up_to_date(before, c, revision, ready)
            &&& ready.store@ == crate::store::with_batch(before.store@, samples, samples.len() as int)
            &&& #[trigger] crate::gateway::samples_worked(calc, samples, pss, sts, outcomes)
            &&& outcomes.len() == samples.len()
            &&& pss[0] == ready.pipelines.built()
            &&& sts[0] == ready.store@
            &&& pss.last() == after.pipelines.built()
            &&& after.pipelines.built_for() == ready.pipelines.built_for()
            &&& after.computed == ready.computed
            &&& crate::computed::ran(
                eval,
                after.computed.computed(),
                sts.last(),
                crate::store::later_write(
                    before.store.writes(),
                    samples.len() + crate::gateway::made(outcomes, outcomes.len() as int),
                ),
                now,
                after.store@,
                after.store.writes(),
            )
        };
    let n = outcomes.len() as int;
    crate::laws::shown::a_batch_leaves_other_sensors(before.store@, samples, n, id);
    lemma_left_alone(calc, samples, pss, sts, outcomes, id, 0, n);
    assert(sts.last() == sts[n]);
    crate::laws::computed::every_computed_metric_is_normal(
        eval,
        after.computed.computed(),
        sts.last(),
        crate::store::later_write(
            before.store.writes(),
            samples.len() + crate::gateway::made(outcomes, outcomes.len() as int),
        ),
        now,
        after.store@,
        after.store.writes(),
        id,
    );
}

/// The pipelines and computed sensors that a batch is worked off with are those of
/// the configuration in force: the ones that were there where the revision is still
/// theirs, so that windows go on, and fresh ones where it is another.
pub proof fn a_batch_is_worked_off_by_the_configuration_in_force<
    F: Fn(Arithmetic) -> Real,
    E: Fn(Evaluation) -> Real,
>(
    calc: F,
    eval: E,
    before: Gateway,
    c: Config,
    revision: u64,
    samples: Seq<RawSample>,
    now: i64,
    after: Gateway,
    outcomes: Seq<Option<Result<Metric, PipelineError>>>,
)
    requires
        crate::gateway::worked_off(calc, eval, before, c, revision, samples, now, after, outcomes),
    ensures
        after.pipelines.built_for() == revision,
        after.computed.built_for() == revision,
        outcomes.len() == samples.len(),
        before.computed.built_for() == revision ==> after.computed == before.computed,
        (samples.len() == 0 && before.pipelines.built_for() == revision) ==> after.pipelines.built()
            == before.pipelines.built(),
        forall|i: int|
            0 <= i < outcomes.len() ==> (#[trigger] outcomes[i] is Some <==> crate::pipeline::has_pipeline(
                after.pipelines.built(),
                samples[i].sensor_id.0@,
            )),
{
    let (ready, pss, sts) = choose|ready: Gateway, pss: Seq<Seq<Pipeline>>, sts: Seq<Map<Seq<char>, SensorState>>|
        {
            &&& #[trigger] crate::gateway::up_to_date(before, c, revision, ready)
            &&& ready.store@ == crate::store::with_batch(before.store@, samples, samples.len() as int)
            &&& #[trigger] crate::gateway::samples_worked(calc, samples, pss, sts, outcomes)
            &&& outcomes.len() == samples.len()
            &&& pss[0] == ready.pipelines.built()
            &&& sts[0] == ready.store@
            &&& pss.last() == after.pipelines.built()
            &&& after.pipelines.built_for() == ready.pipelines.built_for()
            &&& after.computed == ready.computed
            &&& crate::computed::ran(
                eval,
                after.computed.computed(),
                sts.last(),
                crate::store::later_write(
                    before.store.writes(),
                    samples.len() + crate::gateway::made(outcomes, outcomes.len() as int),
                ),
                now,
                after.store@,
                after.store.writes(),
            )
        };
    let n = outcomes.len() as int;
    assert forall|i: int| 0 <= i < outcomes.len() implies (#[trigger] outcomes[i] is Some
        <==> crate::pipeline::has_pipeline(after.pipelines.built(), samples[i].sensor_id.0@)) by {
        let id = samples[i].sensor_id.0@;
        let o = outcomes[i];
        assert(crate::gateway::sample_worked(calc, pss[i], sts[i], samples[i], pss[i + 1], sts[i + 1], o));
        lemma_worked(calc, pss[i], sts[i], samples[i], pss[i + 1], sts[i + 1], o, id);
        lemma_pipelines_stay(calc, samples, pss, sts, outcomes, id, i);
        lemma_pipelines_stay(calc, samples, pss, sts, outcomes, id, n);
    }
}

} // verus!
