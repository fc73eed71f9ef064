//! Readable formulas of stages and pipelines.
//!
//! The numbers of a stage come in as text: [`stage_numbers`] lists them in the
//! order in which they are shown.

use vstd::prelude::*;

use crate::config::{AggregateMode, PipelineConfig, StageConfig};
use crate::number::Real;
use crate::text::{decimal_text, join2, join3, join_all};

verus! {

/// An optional number, as a list of at most one.
pub open spec fn listed_real(o: Option<Real>) -> Seq<Real> {
    match o {
        Some(x) => seq![x],
        None => Seq::empty(),
    }
}

/// The numbers that the formula of a stage shows, in order.
pub open spec fn shown_numbers(config: StageConfig) -> Seq<Real> {
    match config {
        StageConfig::Scale { scale, offset, .. } => if offset.zero() {
            seq![scale]
        } else {
            seq![scale, offset]
        },
        StageConfig::Threshold { low_warning, high_warning, low_critical, high_critical } => listed_real(low_critical)
            + listed_real(low_warning) + listed_real(high_warning) + listed_real(high_critical),
        _ => Seq::empty(),
    }
}

fn push_number(v: &mut Vec<Real>, o: &Option<Real>)
    ensures
        final(v)@ == old(v)@ + listed_real(*o),
{
    match o {
        Some(x) => {
            v.push(*x);
            assert(v@ =~= old(v)@ + seq![*x]);
        },
        None => {
            assert(v@ =~= old(v)@ + Seq::<Real>::empty());
        },
    }
}

/// The numbers that the formula of a stage shows, in order.
pub fn stage_numbers(config: &StageConfig) -> (r: Vec<Real>)
    ensures
        r@ == shown_numbers(*config),
{
    let mut r: Vec<Real> = Vec::new();
    match config {
        StageConfig::Scale { scale, offset, .. } => {
            r.push(*scale);
            if !offset.is_zero() {
                r.push(*offset);
            }
            assert(r@ =~= shown_numbers(*config));
        },
        StageConfig::Threshold { low_warning, high_warning, low_critical, high_critical } => {
            push_number(&mut r, low_critical);
            push_number(&mut r, low_warning);
            push_number(&mut r, high_warning);
            push_number(&mut r, high_critical);
            assert(r@ =~= shown_numbers(*config));
        },
        _ => {},
    }
    r
}

/// The part of a formula about one bound, as a list of at most one.
pub open spec fn bound_part(
    bound: Option<Real>,
    shown: Seq<Seq<char>>,
    k: int,
    sign: Seq<char>,
    level: Seq<char>,
) -> Seq<Seq<char>> {
    if bound is Some {
        seq![sign + shown[k] + level]
    } else {
        Seq::empty()
    }
}

/// 1 where there is a bound, else 0.
pub open spec fn presence(bound: Option<Real>) -> int {
    if bound is Some {
        1
    } else {
        0
    }
}

/// The parts of a formula about the four bounds.
pub open spec fn bound_parts(
    low_critical: Option<Real>,
    low_warning: Option<Real>,
    high_warning: Option<Real>,
    high_critical: Option<Real>,
    shown: Seq<Seq<char>>,
) -> Seq<Seq<char>> {
    let a = presence(low_critical);
    let b = a + presence(low_warning);
    let c = b + presence(high_warning);
    bound_part(low_critical, shown, 0, "<"@, " critical"@) + bound_part(low_warning, shown, a, "<"@, " warning"@)
        + bound_part(high_warning, shown, b, ">"@, " warning"@) + bound_part(
        high_critical,
        shown,
        c,
        ">"@,
        " critical"@,
    )
}

/// The name of a statistic.
pub open spec fn mode_name(mode: AggregateMode) -> Seq<char> {
    match mode {
        AggregateMode::Min => "min"@,
        AggregateMode::Max => "max"@,
        AggregateMode::Avg => "avg"@,
    }
}

/// The formula of a stage, given the texts of its numbers.
pub open spec fn stage_formula(config: StageConfig, shown: Seq<Seq<char>>) -> Seq<char> {
    match config {
        StageConfig::Scale { offset, unit, .. } => "v = v × "@ + shown[0] + (if offset.zero() {
            Seq::empty()
        } else {
            " + "@ + shown[1]
        }) + (match unit {
            Some(u) => " → "@ + u@,
            None => Seq::empty(),
        }),
        StageConfig::SlidingAverage { window } => "v = avg(最近 "@ + crate::text::decimal(window as nat) + " 个值)"@,
        StageConfig::Median { window } => "v = median(最近 "@ + crate::text::decimal(window as nat) + " 个值)"@,
        StageConfig::Math { expression } => "v = "@ + expression@ + "  (v 为当前值)"@,
        StageConfig::Threshold { low_warning, high_warning, low_critical, high_critical } => "状态: "@
            + crate::text::joined(
            bound_parts(low_critical, low_warning, high_warning, high_critical, shown),
            " / "@,
        ),
        StageConfig::Aggregate { window, mode } => "v = "@ + mode_name(mode) + "(窗口 "@ + crate::text::decimal(
            window as nat,
        ) + ")"@,
    }
}

fn push_bound(
    parts: &mut Vec<String>,
    bound: &Option<Real>,
    shown: &Vec<String>,
    k: usize,
    sign: &str,
    level: &str,
) -> (next: usize)
    requires
        bound is Some ==> k < shown@.len(),
    ensures
        crate::expression::texts(final(parts)@) == crate::expression::texts(old(parts)@) + bound_part(
            *bound,
            crate::expression::texts(shown@),
            k as int,
            sign@,
            level@,
        ),
        next == k + presence(*bound),
{
    let ghost before = crate::expression::texts(parts@);
    match bound {
        Some(_) => {
            assert(k < shown.len());
            parts.push(join3(sign, shown[k].as_str(), level));
            assert(crate::expression::texts(parts@) =~= before + seq![
                sign@ + crate::expression::texts(shown@)[k as int] + level@,
            ]);
            k + 1
        },
        None => {
            assert(crate::expression::texts(parts@) =~= before + Seq::<Seq<char>>::empty());
            k
        },
    }
}

/// The formula of a stage, given the texts of its numbers.
pub fn describe_stage(config: &StageConfig, shown: &Vec<String>) -> (r: String)
    requires
        shown@.len() == shown_numbers(*config).len(),
    ensures
        r@ == stage_formula(*config, crate::expression::texts(shown@)),
{
    match config {
        StageConfig::Scale { offset, unit, .. } => {
            let offset_part = if offset.is_zero() {
                String::new()
            } else {
                join2(" + ", shown[1].as_str())
            };
            let unit_part = match unit {
                Some(u) => join2(" → ", u.as_str()),
                None => String::new(),
            };
            let mut r = join2("v = v × ", shown[0].as_str());
            r.append(offset_part.as_str());
            r.append(unit_part.as_str());
            r
        },
        StageConfig::SlidingAverage { window } => {
            let n = decimal_text(*window as u128);
            join3("v = avg(最近 ", n.as_str(), " 个值)")
        },
        StageConfig::Median { window } => {
            let n = decimal_text(*window as u128);
            join3("v = median(最近 ", n.as_str(), " 个值)")
        },
        StageConfig::Math { expression } => join3("v = ", expression.as_str(), "  (v 为当前值)"),
        StageConfig::Threshold { low_warning, high_warning, low_critical, high_critical } => {
            let mut parts: Vec<String> = Vec::new();
            assert(crate::expression::texts(parts@) =~= Seq::<Seq<char>>::empty());
            let a: usize = push_bound(&mut parts, low_critical, shown, 0, "<", " critical");
            let b: usize = push_bound(&mut parts, low_warning, shown, a, "<", " warning");
            let c: usize = push_bound(&mut parts, high_warning, shown, b, ">", " warning");
            let _d: usize = push_bound(&mut parts, high_critical, shown, c, ">", " critical");
            assert(crate::expression::texts(parts@) =~= bound_parts(
                *low_critical,
                *low_warning,
                *high_warning,
                *high_critical,
                crate::expression::texts(shown@),
            ));
            let all = join_all(&parts, " / ");
            join2("状态: ", all.as_str())
        },
        StageConfig::Aggregate { window, mode } => {
            let m = match mode {
                AggregateMode::Min => "min",
                AggregateMode::Max => "max",
                AggregateMode::Avg => "avg",
            };
            let n = decimal_text(*window as u128);
            let mut r = join3("v = ", m, "(窗口 ");
            r.append(n.as_str());
            r.append(")");
            r
        },
    }
}

/// One text for each number of each stage.
pub open spec fn shows(config: PipelineConfig, shown: Seq<Vec<String>>) -> bool {
    &&& shown.len() == config.stages@.len()
    &&& forall|i: int|
        0 <= i < shown.len() ==> (#[trigger] shown[i])@.len() == shown_numbers(config.stages@[i]).len()
}

/// The formulas of the stages.
pub open spec fn formulas(config: PipelineConfig, shown: Seq<Vec<String>>) -> Seq<Seq<char>> {
    Seq::new(
        config.stages@.len(),
        |i: int| stage_formula(config.stages@[i], crate::expression::texts(shown[i]@)),
    )
}

/// The formula of a pipeline, given the texts of the numbers of its stages.
pub fn describe_pipeline(config: &PipelineConfig, shown: &Vec<Vec<String>>) -> (r: String)
    requires
        shows(*config, shown@),
    ensures
        r@ == crate::text::joined(formulas(*config, shown@), " → "@),
{
    let mut parts: Vec<String> = Vec::new();
    let mut i: usize = 0;
    while i < config.stages.len()
        invariant
            i <= config.stages@.len(),
            shows(*config, shown@),
            parts@.len() == i,
            forall|j: int| 0 <= j < i ==> (#[trigger] parts@[j])@ == formulas(*config, shown@)[j],
        decreases config.stages@.len() - i,
    {
        assert(shown@[i as int]@.len() == shown_numbers(config.stages@[i as int]).len());
        parts.push(describe_stage(&config.stages[i], &shown[i]));
        i = i + 1;
    }
    assert(parts@.map_values(|s: String| s@) =~= formulas(*config, shown@));
    join_all(&parts, " → ")
}

} // verus!
