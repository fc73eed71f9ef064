//! The stages of a pipeline.
//!
//! A stage handles a sample in two halves. [`Stage::begin`] does everything but
//! arithmetic; where the new value needs some, it says which. The caller does
//! it and hands the result to [`Stage::finish`].

use std::collections::VecDeque;

use vstd::prelude::*;

use crate::config::AggregateMode;
use crate::domain::{copy_text, MetricStatus};
use crate::number::{Real, INFINITY, SIGN};
use crate::pipeline::{PipelineError, SampleContext};
use crate::text::join3;

verus! {

/// Arithmetic that a stage asks for.
#[derive(Debug)]
pub enum Arithmetic {
    /// `value * scale + offset`.
    Scale { value: Real, scale: Real, offset: Real },
    /// The sum of the values divided by their number.
    Mean { values: Vec<Real> },
    /// Half the sum of the two.
    Midpoint { low: Real, high: Real },
    /// The expression, with `v` standing for the value.
    Evaluate { expression: String, v: Real },
}

/// Linear conversion, and a new unit where one is given.
#[derive(Debug)]
pub struct ScaleStage {
    pub scale: Real,
    pub offset: Real,
    pub unit: Option<String>,
}

/// Average of the last values.
#[derive(Debug)]
pub struct SlidingAverageStage {
    pub window: usize,
    pub buffer: VecDeque<Real>,
}

/// Median of the last values; the midpoint of the two middle ones where their
/// number is even.
#[derive(Debug)]
pub struct MedianStage {
    pub window: usize,
    pub buffer: VecDeque<Real>,
}

/// An expression over the current value.
#[derive(Debug)]
pub struct MathStage {
    pub expression: String,
}

/// Sets the status by bounds on the value.
#[derive(Debug)]
pub struct ThresholdStage {
    pub low_warning: Option<Real>,
    pub high_warning: Option<Real>,
    pub low_critical: Option<Real>,
    pub high_critical: Option<Real>,
}

/// A statistic of the last values.
#[derive(Debug)]
pub struct AggregateStage {
    pub window: usize,
    pub mode: AggregateMode,
    pub buffer: VecDeque<Real>,
}

/// The last values after one more: at most `window` of them, the oldest first.
pub open spec fn slide(buffer: Seq<Real>, v: Real, window: usize) -> Seq<Real> {
    let b = buffer.push(v);
    if b.len() > window {
        b.skip(1)
    } else {
        b
    }
}

/// A window never holds more values than its size, and it holds the new value
/// where its size is positive.
pub proof fn window_stays_within_size(buffer: Seq<Real>, v: Real, window: usize)
    requires
        buffer.len() <= window,
    ensures
        slide(buffer, v, window).len() <= window,
        slide(buffer, v, window).len() >= buffer.len(),
        window > 0 ==> slide(buffer, v, window).last() == v,
{
}

fn slide_window(buffer: &mut VecDeque<Real>, v: Real, window: usize)
    ensures
        final(buffer)@ == slide(old(buffer)@, v, window),
{
    let ghost before = buffer@.push(v);
    buffer.push_back(v);
    if buffer.len() > window {
        let _ = buffer.pop_front();
        assert(buffer@ =~= before.skip(1));
    }
}

/// The values of a window, the oldest first.
fn copy_values(values: &VecDeque<Real>) -> (r: Vec<Real>)
    ensures
        r@ == values@,
{
    let mut r: Vec<Real> = Vec::new();
    let mut i: usize = 0;
    while i < values.len()
        invariant
            i <= values@.len(),
            r@ == values@.take(i as int),
        decreases values@.len() - i,
    {
        r.push(values[i]);
        assert(values@.take(i + 1) =~= values@.take(i as int).push(values@[i as int]));
        i = i + 1;
    }
    assert(values@.take(i as int) =~= values@);
    r
}

/// No value is a NaN.
pub open spec fn numbers(s: Seq<Real>) -> bool {
    forall|i: int| 0 <= i < s.len() ==> !(#[trigger] s[i]).nan()
}

/// No value is below an earlier one.
pub open spec fn ascending(s: Seq<Real>) -> bool {
    forall|i: int, j: int| #![trigger s[i], s[j]] 0 <= i < j < s.len() ==> !s[j].below(s[i])
}

/// `s` holds the values of `w` in ascending order; where a NaN is among them,
/// in some order.
pub open spec fn arranges(w: Seq<Real>, s: Seq<Real>) -> bool {
    &&& s.to_multiset() == w.to_multiset()
    &&& s.len() == w.len()
    &&& numbers(w) ==> ascending(s)
}

proof fn lemma_insert(s: Seq<Real>, p: int, x: Real)
    requires
        0 <= p <= s.len(),
    ensures
        s.insert(p, x).to_multiset() == s.to_multiset().insert(x),
{
    let t = s.insert(p, x);
    broadcast use vstd::seq_lib::group_to_multiset_ensures;

    assert(t.remove(p) =~= s);
    assert(t[p] == x);
    assert(t.contains(x));
    assert(t.to_multiset() =~= s.to_multiset().insert(x));
}

/// The values in ascending order.
fn arrange(w: &Vec<Real>) -> (r: Vec<Real>)
    ensures
        arranges(w@, r@),
{
    let mut r: Vec<Real> = Vec::new();
    let mut i: usize = 0;
    assert(w@.take(0) =~= r@);
    while i < w.len()
        invariant
            i <= w@.len(),
            r@.len() == i,
            r@.to_multiset() == w@.take(i as int).to_multiset(),
            numbers(w@) ==> ascending(r@) && numbers(r@),
        decreases w@.len() - i,
    {
        let x = w[i];
        let ghost before = r@;
        let mut p: usize = r.len();
        while p > 0 && x.less(&r[p - 1])
            invariant
                p <= r@.len(),
                r@ == before,
                numbers(w@) ==> ascending(r@) && numbers(r@),
                forall|k: int| p <= k < r@.len() ==> x.below(#[trigger] r@[k]),
            decreases p,
        {
            p = p - 1;
        }
        r.insert(p, x);
        proof {
            lemma_insert(before, p as int, x);
            assert(w@.take(i + 1) =~= w@.take(i as int).push(x));
            vstd::seq_lib::to_multiset_build(w@.take(i as int), x);
            if numbers(w@) {
                assert(!w@[i as int].nan());
                assert forall|a: int| 0 <= a < r@.len() implies !(#[trigger] r@[a]).nan() by {
                    if a < p {
                        assert(r@[a] == before[a]);
                    } else if a > p {
                        assert(r@[a] == before[a - 1]);
                    }
                }
                assert forall|a: int, b: int| #![trigger r@[a], r@[b]] 0 <= a < b < r@.len() implies !r@[b].below(r@[a]) by {
                    if b < p {
                        assert(r@[a] == before[a] && r@[b] == before[b]);
                    } else if b == p {
                        assert(r@[a] == before[a]);
                        assert(!x.below(before[p - 1]));
                        if a < p - 1 {
                            assert(!before[p - 1].below(before[a]));
                        }
                    } else if a < p {
                        assert(r@[a] == before[a] && r@[b] == before[b - 1]);
                    } else if a == p {
                        assert(r@[b] == before[b - 1]);
                    } else {
                        assert(r@[a] == before[a - 1] && r@[b] == before[b - 1]);
                    }
                }
            }
        }
        i = i + 1;
    }
    assert(w@.take(i as int) =~= w@);
    r
}

/// `m` is the least of the values, NaNs aside; infinity where there is none.
pub open spec fn least(s: Seq<Real>, m: Real) -> bool {
    &&& !m.nan()
    &&& forall|i: int| 0 <= i < s.len() ==> !(#[trigger] s[i]).below(m)
    &&& m.bits == INFINITY || exists|i: int| 0 <= i < s.len() && #[trigger] s[i] == m
}

/// `m` is the greatest of the values, NaNs aside; minus infinity where there is
/// none.
pub open spec fn greatest(s: Seq<Real>, m: Real) -> bool {
    &&& !m.nan()
    &&& forall|i: int| 0 <= i < s.len() ==> !m.below(#[trigger] s[i])
    &&& m.bits == SIGN + INFINITY || exists|i: int| 0 <= i < s.len() && #[trigger] s[i] == m
}

fn find_least(s: &Vec<Real>) -> (m: Real)
    ensures
        least(s@, m),
{
    let mut m = Real { bits: INFINITY };
    let mut i: usize = 0;
    assert(least(s@.take(0), m));
    while i < s.len()
        invariant
            i <= s@.len(),
            least(s@.take(i as int), m),
        decreases s@.len() - i,
    {
        let ghost t = s@.take(i as int);
        let ghost u = s@.take(i + 1);
        let ghost m0 = m;
        if s[i].less(&m) {
            m = s[i];
            assert(u[i as int] == m);
        }
        proof {
            assert forall|k: int| 0 <= k < u.len() implies !(#[trigger] u[k]).below(m) by {
                if k < i {
                    assert(u[k] == t[k]);
                }
            }
            if m.bits != INFINITY && m == m0 {
                let k = choose|k: int| 0 <= k < t.len() && #[trigger] t[k] == m;
                assert(u[k] == m);
            }
        }
        i = i + 1;
    }
    assert(s@.take(i as int) =~= s@);
    m
}

fn find_greatest(s: &Vec<Real>) -> (m: Real)
    ensures
        greatest(s@, m),
{
    let mut m = Real { bits: SIGN + INFINITY };
    let mut i: usize = 0;
    assert(greatest(s@.take(0), m));
    while i < s.len()
        invariant
            i <= s@.len(),
            greatest(s@.take(i as int), m),
        decreases s@.len() - i,
    {
        let ghost t = s@.take(i as int);
        let ghost u = s@.take(i + 1);
        let ghost m0 = m;
        if m.less(&s[i]) {
            m = s[i];
            assert(u[i as int] == m);
        }
        proof {
            assert forall|k: int| 0 <= k < u.len() implies !m.below(#[trigger] u[k]) by {
                if k < i {
                    assert(u[k] == t[k]);
                }
            }
            if m.bits != SIGN + INFINITY && m == m0 {
                let k = choose|k: int| 0 <= k < t.len() && #[trigger] t[k] == m;
                assert(u[k] == m);
            }
        }
        i = i + 1;
    }
    assert(s@.take(i as int) =~= s@);
    m
}

impl ScaleStage {
    pub fn new(scale: Real, offset: Real, unit: Option<String>) -> (r: Self)
        ensures
            r == (ScaleStage { scale, offset, unit }),
    {
        ScaleStage { scale, offset, unit }
    }
}

impl SlidingAverageStage {
    pub fn new(window: usize) -> (r: Self)
        ensures
            r.window == window,
            r.buffer@.len() == 0,
    {
        SlidingAverageStage { window, buffer: VecDeque::new() }
    }
}

impl MedianStage {
    pub fn new(window: usize) -> (r: Self)
        ensures
            r.window == window,
            r.buffer@.len() == 0,
    {
        MedianStage { window, buffer: VecDeque::new() }
    }
}

impl MathStage {
    /// A stage for an expression, given what the parser has against it.
    pub fn new_given(expression: &str, fault: &Option<String>) -> (r: Result<Self, String>)
        ensures
            r is Ok <==> fault is None,
            r matches Ok(s) ==> s.expression@ == expression@,
            r matches Err(m) ==> m@ == crate::pipeline::bad_expression(expression@, fault->0@),
    {
        match fault {
            None => Ok(MathStage { expression: expression.to_owned() }),
            Some(f) => {
                let mut m = join3("invalid expression `", expression, "`: ");
                m.append(f.as_str());
                Err(m)
            },
        }
    }

    /// A stage for an expression that parses.
    pub fn new(expression: &str) -> (r: Result<Self, String>)
        requires
            !crate::expression::blank(expression@),
        ensures
            r is Ok <==> crate::expression::parse_fault(expression@) is None,
            r matches Ok(s) ==> s.expression@ == expression@,
            r matches Err(m) ==> m@ == crate::pipeline::bad_expression(
                expression@,
                crate::expression::parse_fault(expression@)->0,
            ),
    {
        let fault = crate::expression::check_expression(expression);
        MathStage::new_given(expression, &fault)
    }
}

impl ThresholdStage {
    pub fn new(
        low_warning: Option<Real>,
        high_warning: Option<Real>,
        low_critical: Option<Real>,
        high_critical: Option<Real>,
    ) -> (r: Self)
        ensures
            r == (ThresholdStage { low_warning, high_warning, low_critical, high_critical }),
    {
        ThresholdStage { low_warning, high_warning, low_critical, high_critical }
    }
}

impl AggregateStage {
    pub fn new(window: usize, mode: AggregateMode) -> (r: Self)
        ensures
            r.window == window,
            r.mode == mode,
            r.buffer@.len() == 0,
    {
        AggregateStage { window, mode, buffer: VecDeque::new() }
    }
}

/// The value lies below the lower or above the upper bound.
pub open spec fn outside(v: Real, low: Option<Real>, high: Option<Real>) -> bool {
    (low is Some && v.below(low->0)) || (high is Some && high->0.below(v))
}

/// The status of a value: critical outside the critical bounds, else warning
/// outside the warning bounds, else normal.
pub open spec fn status_of(s: ThresholdStage, v: Real) -> MetricStatus {
    if outside(v, s.low_critical, s.high_critical) {
        MetricStatus::Critical
    } else if outside(v, s.low_warning, s.high_warning) {
        MetricStatus::Warning
    } else {
        MetricStatus::Normal
    }
}

/// A critical bound takes precedence over every warning bound.
pub proof fn critical_beats_warning(s: ThresholdStage, v: Real)
    requires
        outside(v, s.low_critical, s.high_critical),
    ensures
        status_of(s, v) == MetricStatus::Critical,
{
}

fn is_outside(v: &Real, low: &Option<Real>, high: &Option<Real>) -> (r: bool)
    ensures
        r == outside(*v, *low, *high),
{
    if let Some(bound) = low {
        if v.less(bound) {
            return true;
        }
    }
    if let Some(bound) = high {
        if bound.less(v) {
            return true;
        }
    }
    false
}

/// A stage with its state.
#[derive(Debug)]
pub enum Stage {
    Scale(ScaleStage),
    SlidingAverage(SlidingAverageStage),
    Median(MedianStage),
    Math(MathStage),
    Threshold(ThresholdStage),
    Aggregate(AggregateStage),
}

/// A stage is usable: a median has room for a value, an expression is not
/// blank.
pub open spec fn usable(s: Stage) -> bool {
    match s {
        Stage::Median(m) => m.window >= 1,
        Stage::Math(m) => !crate::expression::blank(m.expression@),
        _ => true,
    }
}

/// What binding the expression of a stage to the variable `v` has against it.
pub open spec fn value_fault(s: Stage) -> Option<Seq<char>> {
    match s {
        Stage::Math(m) => crate::expression::bind_fault(m.expression@, seq!["v"@]),
        _ => None,
    }
}

/// What the first half of a stage does, given what binding has against its
/// expression: `s1` and `c1` are the stage and the sample after it.
pub open spec fn begins(
    s0: Stage,
    c0: SampleContext,
    fault: Option<Seq<char>>,
    s1: Stage,
    c1: SampleContext,
    r: Result<Option<Arithmetic>, PipelineError>,
) -> bool {
    match s0 {
        Stage::Scale(s) => {
            &&& s1 == s0
            &&& c1 == c0
            &&& r == Ok::<Option<Arithmetic>, PipelineError>(
                Some(Arithmetic::Scale { value: c0.value, scale: s.scale, offset: s.offset }),
            )
        },
        Stage::SlidingAverage(s) => {
            &&& s1 matches Stage::SlidingAverage(t) && t.window == s.window && t.buffer@ == slide(
                s.buffer@,
                c0.value,
                s.window,
            )
            &&& c1 == c0
            &&& r matches Ok(Some(Arithmetic::Mean { values })) && values@ == slide(s.buffer@, c0.value, s.window)
        },
        Stage::Median(s) => {
            let w = slide(s.buffer@, c0.value, s.window);
            let mid = w.len() as int / 2;
            &&& s1 matches Stage::Median(t) && t.window == s.window && t.buffer@ == w
            &&& exists|a: Seq<Real>|
                {
                    &&& #[trigger] arranges(w, a)
                    &&& if w.len() % 2 == 0 {
                        c1 == c0 && r == Ok::<Option<Arithmetic>, PipelineError>(
                            Some(Arithmetic::Midpoint { low: a[mid - 1], high: a[mid] }),
                        )
                    } else {
                        c1 == (SampleContext { value: a[mid], ..c0 }) && r == Ok::<
                            Option<Arithmetic>,
                            PipelineError,
                        >(None)
                    }
                }
        },
        Stage::Math(s) => {
            &&& s1 == s0
            &&& c1 == c0
            &&& match fault {
                Some(m) => r matches Err(PipelineError::Math(e)) && e@ == m,
                None => r matches Ok(Some(Arithmetic::Evaluate { expression, v })) && expression@ == s.expression@ && v
                    == c0.value,
            }
        },
        Stage::Threshold(s) => {
            &&& s1 == s0
            &&& c1 == (SampleContext { status: status_of(s, c0.value), ..c0 })
            &&& r == Ok::<Option<Arithmetic>, PipelineError>(None)
        },
        Stage::Aggregate(s) => {
            let w = slide(s.buffer@, c0.value, s.window);
            &&& s1 matches Stage::Aggregate(t) && t.window == s.window && t.mode == s.mode && t.buffer@ == w
            &&& match s.mode {
                AggregateMode::Min => c1 == (SampleContext { value: c1.value, ..c0 }) && least(w, c1.value) && r
                    == Ok::<Option<Arithmetic>, PipelineError>(None),
                AggregateMode::Max => c1 == (SampleContext { value: c1.value, ..c0 }) && greatest(w, c1.value) && r
                    == Ok::<Option<Arithmetic>, PipelineError>(None),
                AggregateMode::Avg => c1 == c0 && (r matches Ok(Some(Arithmetic::Mean { values })) && values@ == w),
            }
        },
    }
}

/// What the second half of a stage does with the result of the arithmetic.
pub open spec fn finishes(s: Stage, c0: SampleContext, result: Real) -> SampleContext {
    match s {
        Stage::Scale(t) => SampleContext {
            value: result,
            unit: if t.unit is Some {
                t.unit
            } else {
                c0.unit
            },
            ..c0
        },
        _ => SampleContext { value: result, ..c0 },
    }
}

/// What a stage does with a sample, given what binding has against its
/// expression: `s1` and `c1` are the stage and the sample after it. Arithmetic
/// is done by `calc`.
pub open spec fn processes<F: Fn(Arithmetic) -> Real>(
    calc: F,
    s0: Stage,
    c0: SampleContext,
    fault: Option<Seq<char>>,
    s1: Stage,
    c1: SampleContext,
    r: Result<(), PipelineError>,
) -> bool {
    exists|c: SampleContext, began: Result<Option<Arithmetic>, PipelineError>|
        {
            &&& #[trigger] begins(s0, c0, fault, s1, c, began)
            &&& match began {
                Ok(Some(a)) => r is Ok && exists|v: Real|
                    calc.ensures((a,), v) && c1 == #[trigger] finishes(s1, c, v),
                Ok(None) => r is Ok && c1 == c,
                Err(e) => r == Err::<(), PipelineError>(e) && c1 == c,
            }
        }
}

impl Stage {
    /// What binding the expression of this stage to `v` has against it.
    pub fn check_value(&self) -> (r: Option<String>)
        requires
            usable(*self),
        ensures
            crate::expression::text_of(r) == value_fault(*self),
    {
        match self {
            Stage::Math(s) => {
                let mut names: Vec<String> = Vec::new();
                names.push("v".to_owned());
                assert(crate::expression::texts(names@) =~= seq!["v"@]);
                crate::expression::check_binding(s.expression.as_str(), &names)
            },
            _ => None,
        }
    }

    /// The first half of the stage, given what binding has against its
    /// expression.
    pub fn begin_given(&mut self, ctx: &mut SampleContext, fault: &Option<String>) -> (r: Result<
        Option<Arithmetic>,
        PipelineError,
    >)
        requires
            usable(*old(self)),
        ensures
            begins(
                *old(self),
                *old(ctx),
                crate::expression::text_of(*fault),
                *final(self),
                *final(ctx),
                r,
            ),
            usable(*final(self)),
    {
        match self {
            Stage::Scale(s) => Ok(
                Some(Arithmetic::Scale { value: ctx.value, scale: s.scale, offset: s.offset }),
            ),
            Stage::SlidingAverage(s) => {
                slide_window(&mut s.buffer, ctx.value, s.window);
                Ok(Some(Arithmetic::Mean { values: copy_values(&s.buffer) }))
            },
            Stage::Median(s) => {
                slide_window(&mut s.buffer, ctx.value, s.window);
                let a = arrange(&copy_values(&s.buffer));
                assert(arranges(s.buffer@, a@));
                let mid: usize = a.len() / 2;
                if a.len() % 2 == 0 {
                    Ok(Some(Arithmetic::Midpoint { low: a[mid - 1], high: a[mid] }))
                } else {
                    ctx.value = a[mid];
                    Ok(None)
                }
            },
            Stage::Math(s) => match fault {
                Some(m) => Err(PipelineError::Math(m.clone())),
                None => Ok(Some(Arithmetic::Evaluate { expression: s.expression.clone(), v: ctx.value })),
            },
            Stage::Threshold(s) => {
                let v = ctx.value;
                ctx.status = if is_outside(&v, &s.low_critical, &s.high_critical) {
                    MetricStatus::Critical
                } else if is_outside(&v, &s.low_warning, &s.high_warning) {
                    MetricStatus::Warning
                } else {
                    MetricStatus::Normal
                };
                Ok(None)
            },
            Stage::Aggregate(s) => {
                slide_window(&mut s.buffer, ctx.value, s.window);
                match s.mode {
                    AggregateMode::Min => {
                        ctx.value = find_least(&copy_values(&s.buffer));
                        Ok(None)
                    },
                    AggregateMode::Max => {
                        ctx.value = find_greatest(&copy_values(&s.buffer));
                        Ok(None)
                    },
                    AggregateMode::Avg => Ok(Some(Arithmetic::Mean { values: copy_values(&s.buffer) })),
                }
            },
        }
    }

    /// The first half of the stage.
    pub fn begin(&mut self, ctx: &mut SampleContext) -> (r: Result<Option<Arithmetic>, PipelineError>)
        requires
            usable(*old(self)),
        ensures
            begins(*old(self), *old(ctx), value_fault(*old(self)), *final(self), *final(ctx), r),
            usable(*final(self)),
    {
        let fault = self.check_value();
        self.begin_given(ctx, &fault)
    }

    /// The second half of the stage: takes the result of the arithmetic.
    pub fn finish(&self, ctx: &mut SampleContext, result: Real)
        ensures
            *final(ctx) == finishes(*self, *old(ctx), result),
    {
        ctx.value = result;
        match self {
            Stage::Scale(s) => {
                if s.unit.is_some() {
                    ctx.unit = copy_text(&s.unit);
                }
            },
            _ => {},
        }
    }

    /// Takes a sample through the stage. Arithmetic is done by `calc`.
    pub fn process<F: Fn(Arithmetic) -> Real>(&mut self, ctx: &mut SampleContext, calc: &F) -> (r: Result<
        (),
        PipelineError,
    >)
        requires
            usable(*old(self)),
            forall|a: Arithmetic| calc.requires((a,)),
        ensures
            usable(*final(self)),
            processes(*calc, *old(self), *old(ctx), value_fault(*old(self)), *final(self), *final(ctx), r),
    {
        let began = self.begin(ctx);
        let ghost b = began;
        let ghost c = *ctx;
        match began {
            Ok(Some(a)) => {
                let result = calc(a);
                self.finish(ctx, result);
                assert(*ctx == finishes(*self, c, result));
                assert(begins(*old(self), *old(ctx), value_fault(*old(self)), *self, c, b));
                Ok(())
            },
            Ok(None) => {
                assert(begins(*old(self), *old(ctx), value_fault(*old(self)), *self, c, b));
                Ok(())
            },
            Err(e) => {
                assert(begins(*old(self), *old(ctx), value_fault(*old(self)), *self, c, b));
                Err(e)
            },
        }
    }
}

} // verus!
