//! What the stages make of a sample, and pipelines of their stages.

use vstd::prelude::*;

use crate::config::{AggregateMode, PipelineConfig, StageConfig};
use crate::domain::{Metric, MetricStatus, RawSample};
use crate::number::Real;
use crate::pipeline::stages::{
    AggregateStage, Arithmetic, MathStage, MedianStage, ScaleStage, SlidingAverageStage, Stage, ThresholdStage,
};
use crate::pipeline::{build_pipelines, Pipeline, PipelineError, SampleContext};

verus! {

// ---- thresholds ----

/// A threshold stage judges a value by each of its four bounds on its own:
/// beyond either critical bound it is critical; short of that, beyond either
/// warning bound, a warning; otherwise normal. Nothing else of the sample changes.
pub proof fn each_bound_counts_on_its_own<F: Fn(Arithmetic) -> Real>(
    calc: F,
    s: ThresholdStage,
    before: SampleContext,
    fault: Option<Seq<char>>,
    stage: Stage,
    after: SampleContext,
    r: Result<(), PipelineError>,
)
    requires
        crate::pipeline::stages::processes(calc, Stage::Threshold(s), before, fault, stage, after, r),
    ensures
        r is Ok,
        stage == Stage::Threshold(s),
        after == (SampleContext { status: after.status, ..before }),
        (s.low_critical matches Some(b) && before.value.below(b)) ==> after.status == MetricStatus::Critical,
        (s.high_critical matches Some(b) && b.below(before.value)) ==> after.status == MetricStatus::Critical,
        after.status == MetricStatus::Critical ==> (s.low_critical matches Some(b) && before.value.below(b)) || (
        s.high_critical matches Some(b) && b.below(before.value)),
        (s.low_warning matches Some(b) && before.value.below(b)) ==> after.status == MetricStatus::Warning
            || after.status == MetricStatus::Critical,
        (s.high_warning matches Some(b) && b.below(before.value)) ==> after.status == MetricStatus::Warning
            || after.status == MetricStatus::Critical,
        after.status == MetricStatus::Warning ==> (s.low_warning matches Some(b) && before.value.below(b)) || (
        s.high_warning matches Some(b) && b.below(before.value)),
        after.status != MetricStatus::Unknown,
{
}

/// A sample beyond no bound is normal, and so is one that is no number.
pub proof fn a_value_within_all_bounds_is_normal<F: Fn(Arithmetic) -> Real>(
    calc: F,
    s: ThresholdStage,
    before: SampleContext,
    fault: Option<Seq<char>>,
    stage: Stage,
    after: SampleContext,
    r: Result<(), PipelineError>,
)
    requires
        crate::pipeline::stages::processes(calc, Stage::Threshold(s), before, fault, stage, after, r),
        before.value.nan() || ({
            &&& s.low_critical matches Some(b) ==> !before.value.below(b)
            &&& s.low_warning matches Some(b) ==> !before.value.below(b)
            &&& s.high_warning matches Some(b) ==> !b.below(before.value)
            &&& s.high_critical matches Some(b) ==> !b.below(before.value)
        }),
    ensures
        after.status == MetricStatus::Normal,
{
}

/// A threshold stage built from settings has the bounds that they give.
pub proof fn a_built_threshold_has_its_bounds<F: Fn(Arithmetic) -> Real>(
    calc: F,
    low_warning: Option<Real>,
    high_warning: Option<Real>,
    low_critical: Option<Real>,
    high_critical: Option<Real>,
    built: Stage,
    before: SampleContext,
    fault: Option<Seq<char>>,
    stage: Stage,
    after: SampleContext,
    r: Result<(), PipelineError>,
)
    requires
        crate::pipeline::fresh(
            StageConfig::Threshold { low_warning, high_warning, low_critical, high_critical },
            built,
        ),
        crate::pipeline::stages::processes(calc, built, before, fault, stage, after, r),
    ensures
        (low_critical matches Some(b) && before.value.below(b)) ==> after.status == MetricStatus::Critical,
        (high_critical matches Some(b) && b.below(before.value)) ==> after.status == MetricStatus::Critical,
        after.status == MetricStatus::Critical ==> (low_critical matches Some(b) && before.value.below(b)) || (
        high_critical matches Some(b) && b.below(before.value)),
        (low_warning matches Some(b) && before.value.below(b)) ==> after.status != MetricStatus::Normal,
        (high_warning matches Some(b) && b.below(before.value)) ==> after.status != MetricStatus::Normal,
        after.status == MetricStatus::Warning ==> (low_warning matches Some(b) && before.value.below(b)) || (
        high_warning matches Some(b) && b.below(before.value)),
{
    let s = ThresholdStage { low_warning, high_warning, low_critical, high_critical };
    each_bound_counts_on_its_own(calc, s, before, fault, stage, after, r);
}

// ---- scaling and expressions ----

/// A scale stage gives the value scaled and shifted by its own factor and offset.
/// Its unit, where it has one, replaces that of the sample; the rest of the
/// sample stays.
pub proof fn a_value_is_scaled<F: Fn(Arithmetic) -> Real>(
    calc: F,
    s: ScaleStage,
    before: SampleContext,
    fault: Option<Seq<char>>,
    stage: Stage,
    after: SampleContext,
    r: Result<(), PipelineError>,
)
    requires
        crate::pipeline::stages::processes(calc, Stage::Scale(s), before, fault, stage, after, r),
    ensures
        r is Ok,
        stage == Stage::Scale(s),
        calc.ensures((Arithmetic::Scale { value: before.value, scale: s.scale, offset: s.offset },), after.value),
        s.unit is Some ==> after.unit == s.unit,
        s.unit is None ==> after.unit == before.unit,
        after.status == before.status,
        after.timestamp == before.timestamp,
        after.sensor_id == before.sensor_id,
        after.name == before.name,
{
}

/// A scale stage built from settings has the factor, the offset and the unit that
/// they give.
pub proof fn a_built_scale_converts<F: Fn(Arithmetic) -> Real>(
    calc: F,
    scale: Real,
    offset: Real,
    unit: Option<String>,
    built: Stage,
    before: SampleContext,
    fault: Option<Seq<char>>,
    stage: Stage,
    after: SampleContext,
    r: Result<(), PipelineError>,
)
    requires
        crate::pipeline::fresh(StageConfig::Scale { scale, offset, unit }, built),
        crate::pipeline::stages::processes(calc, built, before, fault, stage, after, r),
    ensures
        calc.ensures((Arithmetic::Scale { value: before.value, scale, offset },), after.value),
        after.unit == (if unit is Some {
            unit
        } else {
            before.unit
        }),
{
    a_value_is_scaled(calc, ScaleStage { scale, offset, unit }, before, fault, stage, after, r);
}

/// An expression is evaluated with `v` standing for the value of the sample, and
/// nothing else of the sample changes. One that cannot be bound is an error with
/// the reason, and leaves the sample as it was.
pub proof fn an_expression_is_evaluated<F: Fn(Arithmetic) -> Real>(
    calc: F,
    s: MathStage,
    before: SampleContext,
    fault: Option<Seq<char>>,
    stage: Stage,
    after: SampleContext,
    r: Result<(), PipelineError>,
)
    requires
        crate::pipeline::stages::processes(calc, Stage::Math(s), before, fault, stage, after, r),
    ensures
        stage == Stage::Math(s),
        fault is None ==> r is Ok && after == (SampleContext { value: after.value, ..before }) && exists|a: Arithmetic|
            #[trigger]
            calc.ensures((a,), after.value) && (a matches Arithmetic::Evaluate { expression, v } && expression@
                == s.expression@ && v == before.value),
        fault matches Some(m) ==> after == before && (r matches Err(PipelineError::Math(e)) && e@ == m),
{
    let (c, began) = choose|c: SampleContext, began: Result<Option<Arithmetic>, PipelineError>|
        {
            &&& #[trigger] crate::pipeline::stages::begins(Stage::Math(s), before, fault, stage, c, began)
            &&& match began {
                Ok(Some(a)) => r is Ok && exists|v: Real|
                    calc.ensures((a,), v) && after == #[trigger] crate::pipeline::stages::finishes(stage, c, v),
                Ok(None) => r is Ok && after == c,
                Err(e) => r == Err::<(), PipelineError>(e) && after == c,
            }
        };
    if fault is None {
        let a = began->Ok_0->0;
        assert(calc.ensures((a,), after.value));
    }
}

// ---- windows ----

/// A window keeps the newest values in their order: every one while there is
/// room, and without the oldest once there is none.
pub proof fn a_window_slides(buffer: Seq<Real>, v: Real, window: usize)
    requires
        1 <= window,
        buffer.len() <= window,
    ensures
        buffer.len() < window ==> crate::pipeline::stages::slide(buffer, v, window) == buffer + seq![v],
        buffer.len() == window ==> crate::pipeline::stages::slide(buffer, v, window) == buffer.subrange(
            1,
            buffer.len() as int,
        ) + seq![v],
{
    assert(buffer.push(v) =~= buffer + seq![v]);
    if buffer.len() == window {
        assert(buffer.push(v).skip(1) =~= buffer.subrange(1, buffer.len() as int) + seq![v]);
    }
}

/// After any number of samples, a window that began empty holds the latest of
/// them, as many as it has room for, the oldest first.
pub proof fn a_window_holds_the_latest(xs: Seq<Real>, buffers: Seq<Seq<Real>>, window: usize, n: int)
    requires
        1 <= window,
        0 <= n <= xs.len(),
        buffers.len() == xs.len() + 1,
        buffers[0].len() == 0,
        forall|i: int|
            0 <= i < xs.len() ==> #[trigger] buffers[i + 1] == crate::pipeline::stages::slide(buffers[i], xs[i], window),
    ensures
        n <= window ==> buffers[n] == xs.take(n),
        n > window ==> buffers[n] == xs.subrange(n - window, n),
    decreases n,
{
    if n > 0 {
        a_window_holds_the_latest(xs, buffers, window, n - 1);
        assert(buffers[n - 1 + 1] == crate::pipeline::stages::slide(buffers[n - 1], xs[n - 1], window));
        assert(xs.take(n) =~= xs.take(n - 1).push(xs[n - 1]));
        if n > window {
            if n - 1 <= window {
                assert(xs.take(n - 1).push(xs[n - 1]).skip(1) =~= xs.subrange(n - window, n));
            } else {
                assert(xs.subrange(n - 1 - window, n - 1).push(xs[n - 1]).skip(1) =~= xs.subrange(n - window, n));
            }
        }
    } else {
        assert(buffers[0] =~= xs.take(0));
    }
}

/// A sliding average averages the window after the sample has been taken into it.
pub proof fn an_average_is_of_the_window<F: Fn(Arithmetic) -> Real>(
    calc: F,
    s: SlidingAverageStage,
    before: SampleContext,
    fault: Option<Seq<char>>,
    stage: Stage,
    after: SampleContext,
    r: Result<(), PipelineError>,
)
    requires
        crate::pipeline::stages::processes(calc, Stage::SlidingAverage(s), before, fault, stage, after, r),
        1 <= s.window,
        s.buffer@.len() <= s.window,
    ensures
        r is Ok,
        after == (SampleContext { value: after.value, ..before }),
        stage matches Stage::SlidingAverage(t) && t.window == s.window && t.buffer@ == (if s.buffer@.len() < s.window {
            s.buffer@ + seq![before.value]
        } else {
            s.buffer@.subrange(1, s.buffer@.len() as int) + seq![before.value]
        }) && exists|a: Arithmetic| #[trigger]
            calc.ensures((a,), after.value) && (a matches Arithmetic::Mean { values } && values@ == t.buffer@),
{
    a_window_slides(s.buffer@, before.value, s.window);
    let (c, began) = choose|c: SampleContext, began: Result<Option<Arithmetic>, PipelineError>|
        {
            &&& #[trigger] crate::pipeline::stages::begins(Stage::SlidingAverage(s), before, fault, stage, c, began)
            &&& match began {
                Ok(Some(a)) => r is Ok && exists|v: Real|
                    calc.ensures((a,), v) && after == #[trigger] crate::pipeline::stages::finishes(stage, c, v),
                Ok(None) => r is Ok && after == c,
                Err(e) => r == Err::<(), PipelineError>(e) && after == c,
            }
        };
    let a = began->Ok_0->0;
    assert(calc.ensures((a,), after.value));
}

/// No value of the sequence lies above `m`.
pub open spec fn none_above(s: Seq<Real>, m: Real) -> bool {
    forall|i: int| 0 <= i < s.len() ==> !m.below(#[trigger] s[i])
}

/// No value of the sequence lies below `m`.
pub open spec fn none_below(s: Seq<Real>, m: Real) -> bool {
    forall|i: int| 0 <= i < s.len() ==> !(#[trigger] s[i]).below(m)
}

/// `low` and `high` are the halves of a window around one value.
pub open spec fn splits(w: Seq<Real>, low: Seq<Real>, a: Real, high: Seq<Real>) -> bool {
    &&& low.len() == high.len()
    &&& (low + seq![a] + high).to_multiset() == w.to_multiset()
}

/// `low` and `high` are the halves of a window around two values.
pub open spec fn splits_evenly(w: Seq<Real>, low: Seq<Real>, a: Real, b: Real, high: Seq<Real>) -> bool {
    &&& low.len() == high.len()
    &&& (low + seq![a, b] + high).to_multiset() == w.to_multiset()
}

/// The median of an odd number of values has as many of them on its one side as
/// on its other: none of the one half lies above it, none of the other below.
pub proof fn a_median_lies_in_the_middle<F: Fn(Arithmetic) -> Real>(
    calc: F,
    s: MedianStage,
    before: SampleContext,
    fault: Option<Seq<char>>,
    stage: Stage,
    after: SampleContext,
    r: Result<(), PipelineError>,
)
    requires
        crate::pipeline::stages::processes(calc, Stage::Median(s), before, fault, stage, after, r),
        1 <= s.window,
        s.buffer@.len() <= s.window,
    ensures
        r is Ok,
        after == (SampleContext { value: after.value, ..before }),
        stage matches Stage::Median(t) && t.window == s.window && t.buffer@ == (if s.buffer@.len() < s.window {
            s.buffer@ + seq![before.value]
        } else {
            s.buffer@.subrange(1, s.buffer@.len() as int) + seq![before.value]
        }) && (crate::pipeline::stages::numbers(t.buffer@) && t.buffer@.len() % 2 == 1 ==> exists|
            low: Seq<Real>,
            high: Seq<Real>,
        |
            #[trigger]
            splits(t.buffer@, low, after.value, high) && none_above(low, after.value) && none_below(
                high,
                after.value,
            )) && (crate::pipeline::stages::numbers(t.buffer@) && t.buffer@.len() % 2 == 0 ==> exists|
            low: Seq<Real>,
            a: Real,
            b: Real,
            high: Seq<Real>,
        |
            #[trigger]
            splits_evenly(t.buffer@, low, a, b, high) && none_above(low, a) && none_below(high, b) && !b.below(a)
                && calc.ensures((Arithmetic::Midpoint { low: a, high: b },), after.value)),
{
    a_window_slides(s.buffer@, before.value, s.window);
    let w = crate::pipeline::stages::slide(s.buffer@, before.value, s.window);
    let mid = w.len() as int / 2;
    let (c, began) = choose|c: SampleContext, began: Result<Option<Arithmetic>, PipelineError>|
        {
            &&& #[trigger] crate::pipeline::stages::begins(Stage::Median(s), before, fault, stage, c, began)
            &&& match began {
                Ok(Some(a)) => r is Ok && exists|v: Real|
                    calc.ensures((a,), v) && after == #[trigger] crate::pipeline::stages::finishes(stage, c, v),
                Ok(None) => r is Ok && after == c,
                Err(e) => r == Err::<(), PipelineError>(e) && after == c,
            }
        };
    let a = choose|a: Seq<Real>|
        {
            &&& #[trigger] crate::pipeline::stages::arranges(w, a)
            &&& if w.len() % 2 == 0 {
                c == before && began == Ok::<Option<Arithmetic>, PipelineError>(
                    Some(Arithmetic::Midpoint { low: a[mid - 1], high: a[mid] }),
                )
            } else {
                c == (SampleContext { value: a[mid], ..before }) && began == Ok::<Option<Arithmetic>, PipelineError>(
                    None,
                )
            }
        };
    if crate::pipeline::stages::numbers(w) {
        if w.len() % 2 == 1 {
            let low = a.subrange(0, mid);
            let high = a.subrange(mid + 1, a.len() as int);
            assert(low + seq![a[mid]] + high =~= a);
            assert(splits(w, low, after.value, high));
            assert(none_above(low, after.value)) by {
                assert forall|i: int| 0 <= i < low.len() implies !after.value.below(#[trigger] low[i]) by {
                    assert(!a[mid].below(a[i]));
                }
            }
            assert(none_below(high, after.value)) by {
                assert forall|i: int| 0 <= i < high.len() implies !(#[trigger] high[i]).below(after.value) by {
                    assert(!a[mid + 1 + i].below(a[mid]));
                }
            }
        } else {
            let low = a.subrange(0, mid - 1);
            let high = a.subrange(mid + 1, a.len() as int);
            let x = a[mid - 1];
            let y = a[mid];
            assert(low + seq![x, y] + high =~= a);
            assert(splits_evenly(w, low, x, y, high));
            assert(none_above(low, x)) by {
                assert forall|i: int| 0 <= i < low.len() implies !x.below(#[trigger] low[i]) by {
                    assert(!a[mid - 1].below(a[i]));
                }
            }
            assert(none_below(high, y)) by {
                assert forall|i: int| 0 <= i < high.len() implies !(#[trigger] high[i]).below(y) by {
                    assert(!a[mid + 1 + i].below(a[mid]));
                }
            }
        }
    }
}

/// An aggregate is the least, the greatest or the mean of its window, the new
/// value among them.
pub proof fn an_aggregate_is_of_the_window<F: Fn(Arithmetic) -> Real>(
    calc: F,
    s: AggregateStage,
    before: SampleContext,
    fault: Option<Seq<char>>,
    stage: Stage,
    after: SampleContext,
    r: Result<(), PipelineError>,
)
    requires
        crate::pipeline::stages::processes(calc, Stage::Aggregate(s), before, fault, stage, after, r),
        1 <= s.window,
        s.buffer@.len() <= s.window,
    ensures
        r is Ok,
        after == (SampleContext { value: after.value, ..before }),
        stage matches Stage::Aggregate(t) && t.window == s.window && t.mode == s.mode && t.buffer@ == (
        if s.buffer@.len() < s.window {
            s.buffer@ + seq![before.value]
        } else {
            s.buffer@.subrange(1, s.buffer@.len() as int) + seq![before.value]
        }) && match s.mode {
            AggregateMode::Min => none_below(t.buffer@, after.value) && (t.buffer@.contains(after.value)
                || after.value.bits == 0x7ff0_0000_0000_0000),
            AggregateMode::Max => none_above(t.buffer@, after.value) && (t.buffer@.contains(after.value)
                || after.value.bits == 0xfff0_0000_0000_0000),
            AggregateMode::Avg => exists|a: Arithmetic| #[trigger]
                calc.ensures((a,), after.value) && (a matches Arithmetic::Mean { values } && values@ == t.buffer@),
        },
{
    a_window_slides(s.buffer@, before.value, s.window);
    let (c, began) = choose|c: SampleContext, began: Result<Option<Arithmetic>, PipelineError>|
        {
            &&& #[trigger] crate::pipeline::stages::begins(Stage::Aggregate(s), before, fault, stage, c, began)
            &&& match began {
                Ok(Some(a)) => r is Ok && exists|v: Real|
                    calc.ensures((a,), v) && after == #[trigger] crate::pipeline::stages::finishes(stage, c, v),
                Ok(None) => r is Ok && after == c,
                Err(e) => r == Err::<(), PipelineError>(e) && after == c,
            }
        };
    match s.mode {
        AggregateMode::Avg => {
            let a = began->Ok_0->0;
            assert(calc.ensures((a,), after.value));
        },
        _ => {},
    }
}

/// A stage built from settings has the window that they give, and begins with no
/// value in it.
pub proof fn a_built_window_begins_empty(config: StageConfig, built: Stage)
    requires
        crate::pipeline::fresh(config, built),
    ensures
        config matches StageConfig::SlidingAverage { window } ==> (built matches Stage::SlidingAverage(t) && t.window
            == window && t.buffer@ == Seq::<Real>::empty()),
        config matches StageConfig::Median { window } ==> (built matches Stage::Median(t) && t.window == window
            && t.buffer@ == Seq::<Real>::empty()),
        config matches StageConfig::Aggregate { window, mode } ==> (built matches Stage::Aggregate(t) && t.window
            == window && t.mode == mode && t.buffer@ == Seq::<Real>::empty()),
        config matches StageConfig::Math { expression } ==> (built matches Stage::Math(t) && t.expression@
            == expression@),
{
}

// ---- whole pipelines ----

proof fn lemma_stage_keeps<F: Fn(Arithmetic) -> Real>(
    calc: F,
    s0: Stage,
    c0: SampleContext,
    fault: Option<Seq<char>>,
    s1: Stage,
    c1: SampleContext,
    r: Result<(), PipelineError>,
)
    requires
        crate::pipeline::stages::processes(calc, s0, c0, fault, s1, c1, r),
    ensures
        c1.sensor_id == c0.sensor_id,
        c1.timestamp == c0.timestamp,
        !(s0 is Threshold) ==> c1.status == c0.status,
        !(s0 is Scale) ==> c1.unit == c0.unit,
        s0 is Threshold ==> c1.value == c0.value,
{
}

proof fn lemma_carried<F: Fn(Arithmetic) -> Real>(
    calc: F,
    before: Seq<Stage>,
    sample: RawSample,
    passed: Seq<SampleContext>,
    after: Seq<Stage>,
    r: Result<Metric, PipelineError>,
    n: int,
)
    requires
        crate::pipeline::goes_through(calc, before, sample, passed, after, r),
        0 <= n < passed.len(),
    ensures
        passed[n].sensor_id == sample.sensor_id,
        passed[n].timestamp == sample.timestamp,
        (forall|i: int| 0 <= i < n ==> !(#[trigger] before[i] is Threshold)) ==> passed[n].status
            == MetricStatus::Normal,
        (forall|i: int| 0 <= i < n ==> !(#[trigger] before[i] is Scale)) ==> passed[n].unit == sample.unit,
    decreases n,
{
    if n > 0 {
        lemma_carried(calc, before, sample, passed, after, r, n - 1);
        assert(crate::pipeline::stages::processes(
            calc,
            before[n - 1],
            passed[n - 1],
            crate::pipeline::stages::value_fault(before[n - 1]),
            after[n - 1],
            passed[n - 1 + 1],
            Ok(()),
        ));
        lemma_stage_keeps(
            calc,
            before[n - 1],
            passed[n - 1],
            crate::pipeline::stages::value_fault(before[n - 1]),
            after[n - 1],
            passed[n],
            Ok(()),
        );
        assert(before[n - 1] == before[n - 1]);
    }
}

/// A metric is of the sensor and of the time of the sample that it came from.
/// Only a threshold gives it a status other than normal, and only a scale stage
/// another unit.
pub proof fn a_metric_keeps_sensor_and_time<F: Fn(Arithmetic) -> Real>(
    calc: F,
    before: Pipeline,
    sample: RawSample,
    after: Pipeline,
    r: Result<Metric, PipelineError>,
)
    requires
        crate::pipeline::processed(calc, before, sample, after, r),
        r is Ok,
    ensures
        r->Ok_0.sensor_id == sample.sensor_id,
        r->Ok_0.timestamp == sample.timestamp,
        (forall|i: int| 0 <= i < before.chain().len() ==> !(#[trigger] before.chain()[i] is Threshold))
            ==> r->Ok_0.status == MetricStatus::Normal,
        (forall|i: int| 0 <= i < before.chain().len() ==> !(#[trigger] before.chain()[i] is Scale)) ==> r->Ok_0.unit
            == sample.unit,
{
    let passed = choose|passed: Seq<SampleContext>| #[trigger]
        crate::pipeline::goes_through(calc, before.chain(), sample, passed, after.chain(), r);
    lemma_carried(calc, before.chain(), sample, passed, after.chain(), r, passed.len() - 1);
}

/// Where the last stage is a threshold, the status of the metric is what the
/// bounds say of the metric's own value, not of the raw sample's.
pub proof fn a_final_threshold_judges_the_metric<F: Fn(Arithmetic) -> Real>(
    calc: F,
    before: Pipeline,
    sample: RawSample,
    after: Pipeline,
    r: Result<Metric, PipelineError>,
    s: ThresholdStage,
)
    requires
        crate::pipeline::processed(calc, before, sample, after, r),
        before.chain().len() > 0,
        before.chain().last() == Stage::Threshold(s),
        r is Ok,
    ensures
        ({
            let m = r->Ok_0;
            &&& (s.low_critical matches Some(b) && m.value.below(b)) ==> m.status == MetricStatus::Critical
            &&& (s.high_critical matches Some(b) && b.below(m.value)) ==> m.status == MetricStatus::Critical
            &&& m.status == MetricStatus::Critical ==> (s.low_critical matches Some(b) && m.value.below(b)) || (
            s.high_critical matches Some(b) && b.below(m.value))
            &&& (s.low_warning matches Some(b) && m.value.below(b)) ==> m.status != MetricStatus::Normal
            &&& (s.high_warning matches Some(b) && b.below(m.value)) ==> m.status != MetricStatus::Normal
            &&& m.status == MetricStatus::Warning ==> (s.low_warning matches Some(b) && m.value.below(b)) || (
            s.high_warning matches Some(b) && b.below(m.value))
            &&& m.status != MetricStatus::Unknown
        }),
{
    let chain = before.chain();
    let passed = choose|passed: Seq<SampleContext>| #[trigger]
        crate::pipeline::goes_through(calc, chain, sample, passed, after.chain(), r);
    let k = chain.len() - 1;
    assert(crate::pipeline::stages::processes(
        calc,
        chain[k],
        passed[k],
        crate::pipeline::stages::value_fault(chain[k]),
        after.chain()[k],
        passed[k + 1],
        Ok(()),
    ));
    each_bound_counts_on_its_own(
        calc,
        s,
        passed[k],
        crate::pipeline::stages::value_fault(chain[k]),
        after.chain()[k],
        passed[k + 1],
        Ok(()),
    );
}

/// A pipeline of one scale stage converts the raw value of the sample.
pub proof fn a_raw_value_is_converted<F: Fn(Arithmetic) -> Real>(
    calc: F,
    before: Pipeline,
    sample: RawSample,
    after: Pipeline,
    r: Result<Metric, PipelineError>,
    s: ScaleStage,
)
    requires
        crate::pipeline::processed(calc, before, sample, after, r),
        before.chain() == seq![Stage::Scale(s)],
    ensures
        r matches Ok(m) && calc.ensures(
            (Arithmetic::Scale { value: sample.raw_value, scale: s.scale, offset: s.offset },),
            m.value,
        ) && m.unit == (if s.unit is Some {
            s.unit
        } else {
            sample.unit
        }) && m.status == MetricStatus::Normal,
{
    let chain = before.chain();
    let passed = choose|passed: Seq<SampleContext>| #[trigger]
        crate::pipeline::goes_through(calc, chain, sample, passed, after.chain(), r);
    assert(chain[0] == Stage::Scale(s));
    if r is Ok {
        assert(crate::pipeline::stages::processes(
            calc,
            chain[0],
            passed[0],
            crate::pipeline::stages::value_fault(chain[0]),
            after.chain()[0],
            passed[1],
            Ok(()),
        ));
        a_value_is_scaled(
            calc,
            s,
            passed[0],
            crate::pipeline::stages::value_fault(chain[0]),
            after.chain()[0],
            passed[1],
            Ok(()),
        );
    } else {
        let c = choose|c: SampleContext| #[trigger]
            crate::pipeline::stages::processes(
                calc,
                chain[0],
                passed[0],
                crate::pipeline::stages::value_fault(chain[0]),
                after.chain()[0],
                c,
                Err(r->Err_0),
            );
        a_value_is_scaled(
            calc,
            s,
            passed[0],
            crate::pipeline::stages::value_fault(chain[0]),
            after.chain()[0],
            c,
            Err(r->Err_0),
        );
    }
}

/// Stages work one after the other: the second is handed what the first made.
pub proof fn stages_work_in_their_order<F: Fn(Arithmetic) -> Real>(
    calc: F,
    before: Pipeline,
    sample: RawSample,
    after: Pipeline,
    r: Result<Metric, PipelineError>,
    s: ScaleStage,
    t: ThresholdStage,
)
    requires
        crate::pipeline::processed(calc, before, sample, after, r),
        before.chain() == seq![Stage::Scale(s), Stage::Threshold(t)],
        r is Ok,
    ensures
        calc.ensures(
            (Arithmetic::Scale { value: sample.raw_value, scale: s.scale, offset: s.offset },),
            r->Ok_0.value,
        ),
        (t.high_critical matches Some(b) && b.below(r->Ok_0.value)) ==> r->Ok_0.status == MetricStatus::Critical,
        (t.low_critical matches Some(b) && r->Ok_0.value.below(b)) ==> r->Ok_0.status == MetricStatus::Critical,
{
    let chain = before.chain();
    assert(chain.last() == Stage::Threshold(t));
    assert(chain[0] == Stage::Scale(s) && chain[1] == Stage::Threshold(t));
    a_final_threshold_judges_the_metric(calc, before, sample, after, r, t);
    let passed = choose|passed: Seq<SampleContext>| #[trigger]
        crate::pipeline::goes_through(calc, chain, sample, passed, after.chain(), r);
    assert(crate::pipeline::stages::processes(
        calc,
        chain[0],
        passed[0],
        crate::pipeline::stages::value_fault(chain[0]),
        after.chain()[0],
        passed[1],
        Ok(()),
    ));
    assert(crate::pipeline::stages::processes(
        calc,
        chain[1],
        passed[1],
        crate::pipeline::stages::value_fault(chain[1]),
        after.chain()[1],
        passed[2],
        Ok(()),
    ));
    a_value_is_scaled(
        calc,
        s,
        passed[0],
        crate::pipeline::stages::value_fault(chain[0]),
        after.chain()[0],
        passed[1],
        Ok(()),
    );
}

/// A pipeline fails only where an expression cannot be bound, or where it has no
/// stage at all.
pub proof fn a_pipeline_fails_for_a_reason<F: Fn(Arithmetic) -> Real>(
    calc: F,
    before: Pipeline,
    sample: RawSample,
    after: Pipeline,
    r: Result<Metric, PipelineError>,
)
    requires
        crate::pipeline::processed(calc, before, sample, after, r),
    ensures
        before.chain().len() == 0 ==> r matches Err(PipelineError::Empty),
        r is Err && before.chain().len() > 0 ==> exists|k: int|
            0 <= k < before.chain().len() && (#[trigger] before.chain()[k] matches Stage::Math(s)
                && crate::expression::bind_fault(s.expression@, seq!["v"@]) matches Some(m) && r
                matches Err(PipelineError::Math(e)) && e@ == m),
{
    if r is Err && before.chain().len() > 0 {
        let passed = choose|passed: Seq<SampleContext>| #[trigger]
            crate::pipeline::goes_through(calc, before.chain(), sample, passed, after.chain(), r);
        let k = passed.len() - 1;
        let c = choose|c: SampleContext| #[trigger]
            crate::pipeline::stages::processes(
                calc,
                before.chain()[k],
                passed[k],
                crate::pipeline::stages::value_fault(before.chain()[k]),
                after.chain()[k],
                c,
                Err(r->Err_0),
            );
        assert(before.chain()[k] is Math);
    }
}

/// The text of an error tells what went wrong.
pub proof fn errors_tell_what_went_wrong(stage: &'static str, m: String)
    ensures
        PipelineError::Math(m).text() == "expression error: "@ + m@,
        PipelineError::Empty.text() == "pipeline has no stages"@,
        (PipelineError::Stage { stage, message: m }).text() == "stage `"@ + stage@ + "`: "@ + m@,
{
}

// ---- what settings are accepted ----

/// A scale factor is accepted where it is finite.
pub proof fn a_finite_scale_is_accepted(
    scale: Real,
    offset: Real,
    unit: Option<String>,
    fault: Option<Seq<char>>,
)
    ensures
        ({
            let p = crate::pipeline::stage_problem(StageConfig::Scale { scale, offset, unit }, fault);
            &&& p is None <==> !scale.nan() && scale.bits != 0x7ff0_0000_0000_0000 && scale.bits
                != 0xfff0_0000_0000_0000
            &&& p is Some ==> p == Some("scale must be finite"@)
        }),
{
}

/// A window is accepted from 1 to 1024, whatever filter it is for.
pub proof fn a_window_of_some_size_is_accepted(window: usize, mode: AggregateMode, fault: Option<Seq<char>>)
    ensures
        ({
            let p = crate::pipeline::stage_problem(StageConfig::SlidingAverage { window }, fault);
            &&& p is None <==> 1 <= window <= 1024
            &&& window == 0 ==> p == Some("window must be >= 1"@)
            &&& window > 1024 ==> p == Some("window too large (max 1024)"@)
            &&& crate::pipeline::stage_problem(StageConfig::Median { window }, fault) == p
            &&& crate::pipeline::stage_problem(StageConfig::Aggregate { window, mode }, fault) == p
        }),
{
}

/// A threshold is accepted where it has a bound and no lower bound lies above the
/// upper one of its level.
pub proof fn ordered_bounds_are_accepted(
    low_warning: Option<Real>,
    high_warning: Option<Real>,
    low_critical: Option<Real>,
    high_critical: Option<Real>,
    fault: Option<Seq<char>>,
)
    ensures
        crate::pipeline::stage_problem(
            StageConfig::Threshold { low_warning, high_warning, low_critical, high_critical },
            fault,
        ) is None <==> {
            &&& low_warning is Some || high_warning is Some || low_critical is Some || high_critical is Some
            &&& low_warning is Some && high_warning is Some ==> !(high_warning->0.below(low_warning->0))
            &&& low_critical is Some && high_critical is Some ==> !(high_critical->0.below(low_critical->0))
        },
{
}

/// An expression is accepted where the parser has nothing against it.
pub proof fn a_parsed_expression_is_accepted(expression: String, fault: Option<Seq<char>>)
    ensures
        ({
            let p = crate::pipeline::stage_problem(StageConfig::Math { expression }, fault);
            &&& p is None <==> fault is None
            &&& fault matches Some(f) ==> p == Some("invalid expression `"@ + expression@ + "`: "@ + f)
        }),
{
}

/// The words for a threshold that is not accepted.
pub proof fn a_wrong_threshold_is_told(
    low_warning: Option<Real>,
    high_warning: Option<Real>,
    low_critical: Option<Real>,
    high_critical: Option<Real>,
    fault: Option<Seq<char>>,
)
    ensures
        ({
            let p = crate::pipeline::stage_problem(
                StageConfig::Threshold { low_warning, high_warning, low_critical, high_critical },
                fault,
            );
            let bare = low_warning is None && high_warning is None && low_critical is None && high_critical is None;
            let critical = low_critical is Some && high_critical is Some && high_critical->0.below(low_critical->0);
            let warning = low_warning is Some && high_warning is Some && high_warning->0.below(low_warning->0);
            &&& (bare ==> p == Some("threshold needs at least one bound"@))
            &&& (critical ==> p == Some("low_critical must be <= high_critical"@))
            &&& (!critical && warning ==> p == Some("low_warning must be <= high_warning"@))
        }),
{
}

/// Every sensor with a pipeline in the configuration has one pipeline, built of the
/// stages of the last configuration for it, in their order, and fresh.
pub proof fn every_configured_pipeline_is_built(configs: &Vec<PipelineConfig>, ps: Vec<Pipeline>, k: int)
    requires
        call_ensures(build_pipelines, (configs,), Ok::<Vec<Pipeline>, String>(ps)),
        0 <= k < configs@.len(),
        forall|m: int| k < m < configs@.len() ==> (#[trigger] configs@[m]).sensor_id@ != configs@[k].sensor_id@,
    ensures
        exists|i: int|
            {
                &&& 0 <= i < ps@.len()
                &&& (#[trigger] ps@[i]).sensor_id.0@ == configs@[k].sensor_id@
                &&& ps@[i].chain().len() == configs@[k].stages@.len()
                &&& forall|j: int|
                    0 <= j < ps@[i].chain().len() ==> crate::pipeline::fresh(
                        #[trigger] configs@[k].stages@[j],
                        ps@[i].chain()[j],
                    )
                &&& forall|other: int|
                    0 <= other < ps@.len() && other != i ==> (#[trigger] ps@[other]).sensor_id.0@
                        != configs@[k].sensor_id@
            },
{
    let id = configs@[k].sensor_id@;
    assert(crate::pipeline::has_pipeline(ps@, configs@[k].sensor_id@));
    let i = choose|i: int| 0 <= i < ps@.len() && (#[trigger] ps@[i]).sensor_id.0@ == id;
    assert(crate::pipeline::fresh_pipeline(configs@, ps@[i]));
    let n = choose|n: int| #[trigger]
        crate::pipeline::last_for_sensor(configs@, n, ps@[i].sensor_id.0@) && crate::pipeline::fresh_chain(
            configs@[n].stages@,
            ps@[i].chain(),
        );
    if n < k {
        assert(configs@[k].sensor_id@ != id);
    }
    if k < n {
        assert(configs@[n].sensor_id@ != id);
    }
    assert forall|other: int| 0 <= other < ps@.len() && other != i implies (#[trigger] ps@[other]).sensor_id.0@
        != id by {
        if other < i {
            assert(ps@[other].sensor_id.0@ != ps@[i].sensor_id.0@);
        } else {
            assert(ps@[i].sensor_id.0@ != ps@[other].sensor_id.0@);
        }
    }
}

/// Pipelines are built exactly where no stage of any has a fault; else the message
/// is that of the first stage, in the first pipeline, that has one.
pub proof fn a_wrong_stage_is_told(configs: &Vec<PipelineConfig>, r: Result<Vec<Pipeline>, String>, k: int, j: int)
    requires
        call_ensures(build_pipelines, (configs,), r),
        0 <= k < configs@.len(),
        0 <= j < configs@[k].stages@.len(),
        forall|a: int, b: int|
            #![trigger configs@[a].stages@[b]]
            0 <= a < k && 0 <= b < configs@[a].stages@.len() ==> stage_passes(configs@[a].stages@[b]),
        forall|b: int| 0 <= b < j ==> stage_passes(#[trigger] configs@[k].stages@[b]),
        !stage_passes(configs@[k].stages@[j]),
    ensures
        r matches Err(m) && Some(m@) == crate::pipeline::stage_problem(
            configs@[k].stages@[j],
            crate::pipeline::stage_fault(configs@[k].stages@[j]),
        ),
{
    lemma_chain_at(configs@[k].stages@, 0, j);
    lemma_set_at(configs@, 0, k);
}

/// Nothing is wrong with the stage.
pub open spec fn stage_passes(s: StageConfig) -> bool {
    crate::pipeline::stage_problem(s, crate::pipeline::stage_fault(s)) is None
}

proof fn lemma_chain_at(stages: Seq<StageConfig>, i: int, j: int)
    requires
        0 <= i <= j < stages.len(),
        forall|b: int| i <= b < j ==> stage_passes(#[trigger] stages[b]),
        !stage_passes(stages[j]),
    ensures
        crate::pipeline::chain_problem(stages, i) == crate::pipeline::stage_problem(
            stages[j],
            crate::pipeline::stage_fault(stages[j]),
        ),
    decreases j - i,
{
    if i < j {
        assert(stage_passes(stages[i]));
        lemma_chain_at(stages, i + 1, j);
    }
}

proof fn lemma_chain_clear(stages: Seq<StageConfig>, i: int)
    requires
        0 <= i,
        forall|b: int| 0 <= b < stages.len() ==> stage_passes(#[trigger] stages[b]),
    ensures
        crate::pipeline::chain_problem(stages, i) is None,
    decreases stages.len() - i,
{
    if i < stages.len() {
        assert(stage_passes(stages[i]));
        lemma_chain_clear(stages, i + 1);
    }
}

proof fn lemma_set_at(configs: Seq<PipelineConfig>, i: int, k: int)
    requires
        0 <= i <= k < configs.len(),
        forall|a: int, b: int|
            #![trigger configs[a].stages@[b]]
            0 <= a < k && 0 <= b < configs[a].stages@.len() ==> stage_passes(configs[a].stages@[b]),
        crate::pipeline::chain_problem(configs[k].stages@, 0) is Some,
    ensures
        crate::pipeline::set_problem(configs, i) == crate::pipeline::chain_problem(configs[k].stages@, 0),
    decreases k - i,
{
    if i < k {
        assert forall|b: int| 0 <= b < configs[i].stages@.len() implies stage_passes(
            #[trigger] configs[i].stages@[b],
        ) by {}
        lemma_chain_clear(configs[i].stages@, 0);
        lemma_set_at(configs, i + 1, k);
    }
}

} // verus!
