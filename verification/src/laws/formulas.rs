//! What the variables of a formula stand for, and what value a sensor gets.

use vstd::prelude::*;

use crate::engine::Engine;
use crate::evaluation::{Evaluation, Meaning, Model, Progress, Round, SensorFormula, Source};
use crate::number::Real;

verus! {

// ---- names ----

/// The last segment of an id has no dot in it, and is all of the id, or what
/// follows a dot.
pub proof fn the_last_segment_follows_the_last_dot(id: Seq<char>)
    ensures
        ({
            let short = crate::evaluation::last_segment(id);
            &&& forall|i: int| 0 <= i < short.len() ==> #[trigger] short[i] != '.'
            &&& short.len() <= id.len()
            &&& short == id.skip(id.len() - short.len())
            &&& short.len() < id.len() ==> id[id.len() - short.len() - 1] == '.'
        }),
{
    lemma_segment(id, id.len() as int);
    let n = crate::evaluation::segment_start(id, id.len() as int);
    let short = crate::evaluation::last_segment(id);
    assert(short =~= id.skip(n));
    assert forall|i: int| 0 <= i < short.len() implies #[trigger] short[i] != '.' by {
        assert(short[i] == id[n + i]);
    }
}

proof fn lemma_segment(id: Seq<char>, n: int)
    requires
        0 <= n <= id.len(),
    ensures
        0 <= crate::evaluation::segment_start(id, n) <= n,
        forall|i: int| crate::evaluation::segment_start(id, n) <= i < n ==> #[trigger] id[i] != '.',
        crate::evaluation::segment_start(id, n) > 0 ==> id[crate::evaluation::segment_start(id, n) - 1] == '.',
    decreases n,
{
    if n > 0 && id[n - 1] != '.' {
        lemma_segment(id, n - 1);
    }
}

/// A letter, an underscore or, but for the first character, a digit.
pub open spec fn is_name(t: Seq<char>) -> bool {
    &&& t.len() > 0
    &&& ('a' <= t[0] && t[0] <= 'z') || ('A' <= t[0] && t[0] <= 'Z') || t[0] == '_'
    &&& forall|i: int|
        0 <= i < t.len() ==> ('a' <= #[trigger] t[i] && t[i] <= 'z') || ('A' <= t[i] && t[i] <= 'Z') || t[i] == '_' || (
        '0' <= t[i] && t[i] <= '9')
}

proof fn lemma_run(t: Seq<char>, i: int)
    requires
        0 <= i <= t.len(),
        is_name(t),
    ensures
        crate::evaluation::name_end(t, i) == t.len(),
    decreases t.len() - i,
{
    if i < t.len() {
        lemma_run(t, i + 1);
    }
}

/// A formula that is one name refers to that name, where the expression language
/// does not have it.
pub proof fn a_name_refers_to_itself(t: Seq<char>)
    requires
        is_name(t),
        !crate::evaluation::builtin(t),
    ensures
        crate::evaluation::names_from(t, 0) == seq![t],
{
    lemma_run(t, 0);
    assert(t.subrange(0, t.len() as int) =~= t);
    assert(crate::evaluation::names_from(t, t.len() as int) =~= Seq::<Seq<char>>::empty());
    assert(seq![t] + Seq::<Seq<char>>::empty() =~= seq![t]);
}

proof fn lemma_name_end(t: Seq<char>, i: int)
    requires
        0 <= i <= t.len(),
    ensures
        i <= crate::evaluation::name_end(t, i) <= t.len(),
        i < t.len() && crate::evaluation::name_part(t[i]) ==> i < crate::evaluation::name_end(t, i),
        forall|j: int|
            i <= j < crate::evaluation::name_end(t, i) ==> crate::evaluation::name_part(#[trigger] t[j]),
    decreases t.len() - i,
{
    if i < t.len() && crate::evaluation::name_part(t[i]) {
        lemma_name_end(t, i + 1);
    }
}

/// What a formula refers to are names that stand in it and that the expression
/// language does not have.
pub proof fn references_are_names(t: Seq<char>, i: int, k: int)
    requires
        0 <= i,
        0 <= k < crate::evaluation::names_from(t, i).len(),
    ensures
        is_name(crate::evaluation::names_from(t, i)[k]),
        !crate::evaluation::builtin(crate::evaluation::names_from(t, i)[k]),
        exists|a: int, b: int|
            0 <= a <= b <= t.len() && #[trigger] t.subrange(a, b) == crate::evaluation::names_from(t, i)[k],
    decreases t.len() - i,
{
    if i < t.len() {
        if crate::evaluation::name_start(t[i]) {
            lemma_name_end(t, i);
            let j = crate::evaluation::name_end(t, i);
            let name = t.subrange(i, j);
            if crate::evaluation::builtin(name) {
                references_are_names(t, j, k);
            } else if k == 0 {
                assert((seq![name] + crate::evaluation::names_from(t, j))[0] == name);
                assert(t.subrange(i, j) == name);
                assert(is_name(name)) by {
                    assert forall|x: int| 0 <= x < name.len() implies crate::evaluation::name_part(#[trigger] name[x]) by {
                        assert(name[x] == t[i + x]);
                    }
                }
            } else {
                assert((seq![name] + crate::evaluation::names_from(t, j))[k] == crate::evaluation::names_from(t, j)[k
                    - 1]);
                references_are_names(t, j, k - 1);
            }
        } else {
            references_are_names(t, i + 1, k);
        }
    }
}

/// The functions and constants of the expression language are no variables.
pub proof fn functions_are_no_variables()
    ensures
        crate::evaluation::builtin("sqrt"@) && crate::evaluation::builtin("abs"@) && crate::evaluation::builtin("exp"@)
            && crate::evaluation::builtin("ln"@) && crate::evaluation::builtin("log"@),
        crate::evaluation::builtin("sin"@) && crate::evaluation::builtin("cos"@) && crate::evaluation::builtin("tan"@)
            && crate::evaluation::builtin("asin"@) && crate::evaluation::builtin("acos"@)
            && crate::evaluation::builtin("atan"@) && crate::evaluation::builtin("atan2"@),
        crate::evaluation::builtin("sinh"@) && crate::evaluation::builtin("cosh"@) && crate::evaluation::builtin(
            "tanh"@,
        ),
        crate::evaluation::builtin("floor"@) && crate::evaluation::builtin("ceil"@) && crate::evaluation::builtin(
            "round"@,
        ) && crate::evaluation::builtin("min"@) && crate::evaluation::builtin("max"@),
        crate::evaluation::builtin("pow"@) && crate::evaluation::builtin("sign"@) && crate::evaluation::builtin(
            "fmod"@,
        ) && crate::evaluation::builtin("pi"@) && crate::evaluation::builtin("e"@),
{
}

// ---- what names stand for ----

/// The name is mapped to this target.
pub open spec fn mapped(s: SensorFormula, name: Seq<char>, target: Seq<char>) -> bool {
    exists|k: int| 0 <= k < s.inputs@.len() && (#[trigger] s.inputs@[k]).0@ == name && s.inputs@[k].1@ == target
}

/// No input maps the name.
pub open spec fn unmapped(s: SensorFormula, name: Seq<char>) -> bool {
    forall|k: int| 0 <= k < s.inputs@.len() ==> (#[trigger] s.inputs@[k]).0@ != name
}

/// A control has this name.
pub open spec fn is_control(m: Model, name: Seq<char>) -> bool {
    exists|k: int| 0 <= k < m.controls@.len() && (#[trigger] m.controls@[k])@ == name
}

/// A sensor has this id.
pub open spec fn is_sensor(m: Model, id: Seq<char>) -> bool {
    exists|k: int| 0 <= k < m.sensors@.len() && (#[trigger] m.sensors@[k]).id@ == id
}

proof fn lemma_target(inputs: Seq<(String, String)>, name: Seq<char>, i: int)
    requires
        0 <= i,
    ensures
        match crate::evaluation::input_target(inputs, name, i) {
            Some(t) => exists|k: int| i <= k < inputs.len() && (#[trigger] inputs[k]).0@ == name && inputs[k].1@ == t,
            None => forall|k: int| i <= k < inputs.len() ==> (#[trigger] inputs[k]).0@ != name,
        },
    decreases inputs.len() - i,
{
    if i < inputs.len() {
        if inputs[i].0@ == name {
            assert(inputs[i].0@ == name);
        } else {
            lemma_target(inputs, name, i + 1);
        }
    }
}

proof fn lemma_control(controls: Seq<String>, name: Seq<char>, i: int)
    requires
        0 <= i,
    ensures
        match crate::evaluation::control_index(controls, name, i) {
            Some(k) => i <= k < controls.len() && controls[k]@ == name,
            None => forall|k: int| i <= k < controls.len() ==> (#[trigger] controls[k])@ != name,
        },
    decreases controls.len() - i,
{
    if i < controls.len() && controls[i]@ != name {
        lemma_control(controls, name, i + 1);
    }
}

proof fn lemma_sensor(sensors: Seq<SensorFormula>, id: Seq<char>, i: int)
    requires
        0 <= i,
    ensures
        match crate::evaluation::sensor_index(sensors, id, i) {
            Some(k) => i <= k < sensors.len() && sensors[k].id@ == id,
            None => forall|k: int| i <= k < sensors.len() ==> (#[trigger] sensors[k]).id@ != id,
        },
    decreases sensors.len() - i,
{
    if i < sensors.len() && sensors[i].id@ != id {
        lemma_sensor(sensors, id, i + 1);
    }
}

proof fn lemma_short(sensors: Seq<SensorFormula>, name: Seq<char>, i: int)
    requires
        0 <= i,
    ensures
        match crate::evaluation::short_index(sensors, name, i) {
            Some(k) => i <= k < sensors.len() && crate::evaluation::last_segment(sensors[k].id@) == name && forall|j: int|
                i <= j < k ==> crate::evaluation::last_segment((#[trigger] sensors[j]).id@) != name,
            None => forall|k: int|
                i <= k < sensors.len() ==> crate::evaluation::last_segment((#[trigger] sensors[k]).id@) != name,
        },
    decreases sensors.len() - i,
{
    if i < sensors.len() && crate::evaluation::last_segment(sensors[i].id@) != name {
        lemma_short(sensors, name, i + 1);
    }
}

proof fn lemma_bindings(m: Model, s: SensorFormula, names: Seq<Seq<char>>, n: int)
    requires
        0 <= n <= names.len(),
    ensures
        crate::evaluation::bindings(m, s, names, n) matches Some(b) ==> {
            &&& b.vars.len() == b.sources.len()
            &&& forall|t: int|
                0 <= t < b.vars.len() ==> crate::evaluation::meaning(m, s, #[trigger] b.vars[t]) == Meaning::Stands(
                    b.sources[t],
                )
            &&& forall|i: int|
                0 <= i < n && crate::evaluation::meaning(m, s, #[trigger] names[i]) is Stands ==> b.vars.contains(
                    names[i],
                )
        },
    decreases n,
{
    if n > 0 {
        lemma_bindings(m, s, names, n - 1);
        if let Some(b) = crate::evaluation::bindings(m, s, names, n - 1) {
            if let Some(now) = crate::evaluation::bindings(m, s, names, n) {
                if now.vars != b.vars {
                    assert(now.vars == b.vars.push(names[n - 1]));
                    assert forall|i: int|
                        0 <= i < n && crate::evaluation::meaning(m, s, #[trigger] names[i]) is Stands implies now.vars.contains(
                        names[i],
                    ) by {
                        if i < n - 1 {
                            let t = choose|t: int| 0 <= t < b.vars.len() && b.vars[t] == names[i];
                            assert(now.vars[t] == names[i]);
                        } else {
                            assert(now.vars[b.vars.len() as int] == names[i]);
                        }
                    }
                }
            }
        }
    }
}

/// The value of a name in the formula of a sensor is that of what it stands for:
/// what the inputs map it to, before a control of that name, before the time for
/// `t`, before the sensor whose id ends in it.
pub open spec fn stands_for(e: Engine, round: Round, s: SensorFormula, name: Seq<char>, v: Real) -> bool {
    let m = e.model;
    &&& forall|target: Seq<char>| #[trigger]
        mapped(s, name, target) ==> {
            &&& is_control(m, target) ==> e.control_value(target) == Some(v)
            &&& !is_control(m, target) && target == "t"@ ==> round.time == v
            &&& !is_control(m, target) && target != "t"@ ==> is_sensor(m, target) && e.sensor_value(round, target)
                == Some(v)
        }
    &&& unmapped(s, name) && is_control(m, name) ==> e.control_value(name) == Some(v)
    &&& unmapped(s, name) && !is_control(m, name) && name == "t"@ ==> round.time == v
    &&& unmapped(s, name) && !is_control(m, name) && name != "t"@ ==> exists|k: int|
        0 <= k < m.sensors@.len() && crate::evaluation::last_segment((#[trigger] m.sensors@[k]).id@) == name
            && round.progress@[k] == Progress::Known(v)
}

proof fn lemma_stands(e: Engine, round: Round, s: SensorFormula, name: Seq<char>, x: Source, v: Real)
    requires
        e.wf(),
        crate::evaluation::distinct_variables(s.inputs@),
        round.controls@ == e.values@,
        crate::evaluation::meaning(e.model, s, name) == Meaning::Stands(x),
        crate::evaluation::known_source(e.model, x),
        crate::evaluation::source_value(round, x) == Some(v),
        e.model.controls@.len() <= usize::MAX,
        e.model.sensors@.len() <= usize::MAX,
    ensures
        stands_for(e, round, s, name, v),
{
    let m = e.model;
    lemma_target(s.inputs@, name, 0);
    lemma_control(m.controls@, name, 0);
    lemma_short(m.sensors@, name, 0);
    assert forall|target: Seq<char>| #[trigger] mapped(s, name, target) implies {
        &&& is_control(m, target) ==> e.control_value(target) == Some(v)
        &&& !is_control(m, target) && target == "t"@ ==> round.time == v
        &&& !is_control(m, target) && target != "t"@ ==> is_sensor(m, target) && e.sensor_value(round, target) == Some(v)
    } by {
        let k = choose|k: int|
            0 <= k < s.inputs@.len() && (#[trigger] s.inputs@[k]).0@ == name && s.inputs@[k].1@ == target;
        let found = crate::evaluation::input_target(s.inputs@, name, 0)->0;
        let j = choose|j: int|
            0 <= j < s.inputs@.len() && (#[trigger] s.inputs@[j]).0@ == name && s.inputs@[j].1@ == found;
        assert(j == k) by {
            if j < k {
                assert(s.inputs@[j].0@ != s.inputs@[k].0@);
            } else if k < j {
                assert(s.inputs@[k].0@ != s.inputs@[j].0@);
            }
        }
        lemma_control(m.controls@, target, 0);
        lemma_sensor(m.sensors@, target, 0);
        if !is_control(m, target) && target != "t"@ {
            let q = crate::evaluation::sensor_index(m.sensors@, target, 0)->0;
            assert(m.sensors@[q].id@ == target);
        }
    }
    if unmapped(s, name) && !is_control(m, name) && name != "t"@ {
        let k = crate::evaluation::short_index(m.sensors@, name, 0)->0;
        assert(crate::evaluation::last_segment(m.sensors@[k].id@) == name);
    }
}

/// The value of a sensor is finite, and is what its formula comes to when each of
/// its variables stands for the right thing; every name of the formula that stands
/// for something is among the variables.
pub proof fn a_value_follows_from_the_formula<F: Fn(Evaluation) -> Real>(
    e: Engine,
    f: F,
    time: Real,
    round: Round,
    i: int,
)
    requires
        e.wf(),
        e.evaluated(f, time, round),
        0 <= i < e.model.sensors@.len(),
        round.progress@[i] is Known,
        e.model.controls@.len() <= usize::MAX,
        e.model.sensors@.len() <= usize::MAX,
    ensures
        round.time == time,
        round.progress@[i]->Known_0.finite(),
        exists|q: Evaluation| #[trigger]
            f.ensures((q,), round.progress@[i]->Known_0) && q.expression@ == e.model.sensors@[i].formula@
                && q.names@.len() == q.values@.len() && (forall|t: int|
                0 <= t < q.names@.len() ==> stands_for(
                    e,
                    round,
                    e.model.sensors@[i],
                    (#[trigger] q.names@[t])@,
                    q.values@[t],
                )) && (forall|k: int|
                0 <= k < crate::evaluation::names_from(e.model.sensors@[i].formula@, 0).len()
                    && crate::evaluation::meaning(
                    e.model,
                    e.model.sensors@[i],
                    #[trigger] crate::evaluation::names_from(e.model.sensors@[i].formula@, 0)[k],
                ) is Stands ==> crate::expression::texts(q.names@).contains(
                    crate::evaluation::names_from(e.model.sensors@[i].formula@, 0)[k],
                )),
{
    let m = e.model;
    let s = m.sensors@[i];
    let p = e.plans@[i];
    let v = round.progress@[i]->Known_0;
    let outcomes = crate::evaluation::answers_of(f);
    let rank = choose|rank: Seq<nat>| #[trigger]
        crate::evaluation::explained(outcomes, m, e.plans@, round, rank);
    assert(crate::evaluation::accounted(outcomes, m, e.plans@, round, rank, i));
    assert(crate::evaluation::may_be(outcomes, m, e.plans@, round, i, v));
    let q = choose|q: Evaluation| #[trigger]
        f.ensures((q,), v) && crate::evaluation::asks(
            q,
            s.formula@,
            crate::expression::texts(p.vars@),
            crate::evaluation::supply_of(round, p),
        );
    let names = crate::evaluation::names_from(s.formula@, 0);
    lemma_bindings(m, s, names, names.len() as int);
    assert(crate::evaluation::planned(
        m,
        s,
        crate::expression::parse_fault(s.formula@),
        crate::evaluation::formula_fault(m, s),
        p,
    ));
    assert(crate::evaluation::sound_plan(m, p));
    let b = crate::evaluation::sensor_bindings(m, s)->0;
    assert(crate::expression::texts(q.names@).len() == q.names@.len());
    assert(crate::expression::texts(p.vars@).len() == p.vars@.len());
    assert(crate::evaluation::distinct_variables(s.inputs@));
    assert forall|t: int| 0 <= t < q.names@.len() implies stands_for(
        e,
        round,
        s,
        (#[trigger] q.names@[t])@,
        q.values@[t],
    ) by {
        assert(crate::expression::texts(q.names@)[t] == q.names@[t]@);
        assert(b.vars[t] == q.names@[t]@);
        assert(crate::evaluation::known_source(m, p.sources@[t]));
        assert(crate::evaluation::supplied_before(round, e.plans@, rank, i));
        assert(crate::evaluation::source_value(round, p.sources@[t]) is Some);
        lemma_stands(e, round, s, q.names@[t]@, p.sources@[t], q.values@[t]);
    }
}

/// A sensor whose formula does not parse, or whose variables cannot be bound, has
/// no value; neither has one of which a variable is mapped to nothing.
pub proof fn an_unusable_formula_gives_no_value<F: Fn(Evaluation) -> Real>(
    e: Engine,
    f: F,
    time: Real,
    round: Round,
    i: int,
)
    requires
        e.wf(),
        e.evaluated(f, time, round),
        0 <= i < e.model.sensors@.len(),
        crate::expression::parse_fault(e.model.sensors@[i].formula@) is Some,
    ensures
        !(round.progress@[i] is Known),
{
    let m = e.model;
    let outcomes = crate::evaluation::answers_of(f);
    let rank = choose|rank: Seq<nat>| #[trigger]
        crate::evaluation::explained(outcomes, m, e.plans@, round, rank);
    assert(crate::evaluation::accounted(outcomes, m, e.plans@, round, rank, i));
    assert(crate::evaluation::planned(
        m,
        m.sensors@[i],
        crate::expression::parse_fault(m.sensors@[i].formula@),
        crate::evaluation::formula_fault(m, m.sensors@[i]),
        e.plans@[i],
    ));
}

/// A sensor that can be evaluated, and whose variables all have values, has a value
/// unless its evaluation gave none that is finite.
pub proof fn a_usable_formula_is_evaluated<F: Fn(Evaluation) -> Real>(
    e: Engine,
    f: F,
    time: Real,
    round: Round,
    i: int,
)
    requires
        e.wf(),
        e.evaluated(f, time, round),
        0 <= i < e.model.sensors@.len(),
        e.plans@[i].usable,
        forall|k: int|
            0 <= k < e.plans@[i].sources@.len() ==> crate::evaluation::source_value(
                round,
                #[trigger] e.plans@[i].sources@[k],
            ) is Some,
    ensures
        round.progress@[i] is Known || exists|q: Evaluation, v: Real| #[trigger]
            f.ensures((q,), v) && q.expression@ == e.model.sensors@[i].formula@ && !v.finite(),
{
    let m = e.model;
    let outcomes = crate::evaluation::answers_of(f);
    let rank = choose|rank: Seq<nat>| #[trigger]
        crate::evaluation::explained(outcomes, m, e.plans@, round, rank);
    assert(crate::evaluation::accounted(outcomes, m, e.plans@, round, rank, i));
    assert(crate::evaluation::supplied(round, e.plans@[i]));
    assert(!crate::evaluation::ready(round, e.plans@, i));
    if round.progress@[i] is Failed {
        let v = choose|v: Real| #[trigger]
            crate::evaluation::may_be(outcomes, m, e.plans@, round, i, v) && !v.finite();
        let q = choose|q: Evaluation| #[trigger]
            f.ensures((q,), v) && crate::evaluation::asks(
                q,
                m.sensors@[i].formula@,
                crate::expression::texts(e.plans@[i].vars@),
                crate::evaluation::supply_of(round, e.plans@[i]),
            );
        assert(q.expression@ == m.sensors@[i].formula@);
    }
}

/// The value shown of a sensor is that of the round.
pub proof fn a_sensor_has_the_value_of_the_round(e: Engine, round: Round, i: int)
    requires
        e.wf(),
        0 <= i < e.model.sensors@.len(),
        e.model.sensors@.len() <= usize::MAX,
    ensures
        e.sensor_value(round, e.model.sensors@[i].id@) == (match round.progress@[i] {
            Progress::Known(v) => Some(v),
            _ => None,
        }),
{
    let id = e.model.sensors@[i].id@;
    lemma_sensor(e.model.sensors@, id, 0);
    let k = crate::evaluation::sensor_index(e.model.sensors@, id, 0)->0;
    assert(k == i) by {
        if k < i {
            assert(e.model.sensors@[k].id@ != e.model.sensors@[i].id@);
        } else if i < k {
            assert(e.model.sensors@[i].id@ != e.model.sensors@[k].id@);
        }
    }
}

} // verus!
