//! What a pass over the computed sensors records.

use vstd::prelude::*;

use crate::computed::ComputedSensor;
use crate::domain::MetricStatus;
use crate::evaluation::Evaluation;
use crate::number::Real;
use crate::store::SensorState;

verus! {

/// The latest value of a sensor is `v`: that of its metric, or, where it has none,
/// that of its raw sample.
pub open spec fn latest_is(store: Map<Seq<char>, SensorState>, id: Seq<char>, v: Real) -> bool {
    &&& store.dom().contains(id)
    &&& match (store[id].metric, store[id].raw) {
        (Some(m), _) => m.value == v,
        (None, Some(r)) => r.raw_value == v,
        (None, None) => false,
    }
}

/// The state holds a metric of this computed sensor, made at time `now`: it is
/// normal, whatever its value, has the sensor's unit, and comes from no raw sample.
pub open spec fn holds_computed(st: SensorState, s: ComputedSensor, now: i64) -> bool {
    &&& st.raw is None
    &&& st.metric matches Some(m) && {
        &&& m.status == MetricStatus::Normal
        &&& m.timestamp == now
        &&& m.unit == s.config.unit
        &&& m.sensor_id.0@ == s.config.sensor_id@
    }
}

/// The evaluation is of the sensor's expression, each input's variable standing
/// for the latest value of that input.
pub open spec fn takes_latest(store: Map<Seq<char>, SensorState>, s: ComputedSensor, e: Evaluation) -> bool {
    &&& e.expression@ == s.config.expression@
    &&& e.names@.len() == s.config.inputs@.len()
    &&& e.values@.len() == s.config.inputs@.len()
    &&& forall|k: int| 0 <= k < e.names@.len() ==> (#[trigger] e.names@[k])@ == s.config.inputs@[k].0@
    &&& forall|k: int|
        0 <= k < e.values@.len() ==> latest_is(store, s.config.inputs@[k].1@, #[trigger] e.values@[k])
}

/// Every input of the sensor has a metric or a raw sample.
pub open spec fn inputs_present(store: Map<Seq<char>, SensorState>, s: ComputedSensor) -> bool {
    forall|k: int|
        0 <= k < s.config.inputs@.len() ==> store.dom().contains((#[trigger] s.config.inputs@[k]).1@) && (
        store[s.config.inputs@[k].1@].metric is Some || store[s.config.inputs@[k].1@].raw is Some)
}

/// No two of the sensors have the same id.
pub open spec fn own_ids(ss: Seq<ComputedSensor>) -> bool {
    forall|i: int, j: int|
        #![trigger ss[i], ss[j]]
        0 <= i < j < ss.len() ==> ss[i].config.sensor_id@ != ss[j].config.sensor_id@
}

proof fn lemma_states<F: Fn(Evaluation) -> Real>(
    f: F,
    ss: Seq<ComputedSensor>,
    states: Seq<Map<Seq<char>, SensorState>>,
    values: Seq<Real>,
    now: i64,
    n: int,
    id: Seq<char>,
)
    requires
        crate::computed::one_pass(f, ss, states, values, now),
        0 <= n <= ss.len(),
    ensures
        (states[n].dom().contains(id) == states[0].dom().contains(id) && states[n][id] == states[0][id]) || (
        states[n].dom().contains(id) && exists|i: int|
            0 <= i < n && (#[trigger] ss[i]).config.sensor_id@ == id && holds_computed(states[n][id], ss[i], now)),
    decreases n,
{
    if n > 0 {
        lemma_states(f, ss, states, values, now, n - 1, id);
        assert(crate::computed::passes(f, ss[n - 1], states, values, now, n - 1));
        if crate::computed::inputs_known(states[n - 1], ss[n - 1].config) && ss[n - 1].config.sensor_id@ == id {
            assert(holds_computed(states[n][id], ss[n - 1], now));
        }
    }
}

/// After a pass a sensor is as it was, or holds a metric of a computed sensor of
/// that id. Every metric that the pass records is normal: no bound is ever held
/// against a computed value.
pub proof fn every_computed_metric_is_normal<F: Fn(Evaluation) -> Real>(
    f: F,
    ss: Seq<ComputedSensor>,
    before: Map<Seq<char>, SensorState>,
    writes_before: u64,
    now: i64,
    after: Map<Seq<char>, SensorState>,
    writes_after: u64,
    id: Seq<char>,
)
    requires
        crate::computed::ran(f, ss, before, writes_before, now, after, writes_after),
    ensures
        (after.dom().contains(id) == before.dom().contains(id) && after[id] == before[id]) || (
        after.dom().contains(id) && exists|i: int|
            0 <= i < ss.len() && (#[trigger] ss[i]).config.sensor_id@ == id && holds_computed(after[id], ss[i], now)),
{
    let (states, values) = choose|states: Seq<Map<Seq<char>, SensorState>>, values: Seq<Real>|
        {
            &&& #[trigger] crate::computed::one_pass(f, ss, states, values, now)
            &&& states[0] == before
            &&& states.last() == after
            &&& writes_after == crate::store::later_write(
                writes_before,
                crate::computed::recorded(ss, states, ss.len() as int),
            )
        };
    lemma_states(f, ss, states, values, now, ss.len() as int, id);
}

proof fn lemma_latest(store: Map<Seq<char>, SensorState>, id: Seq<char>)
    ensures
        crate::computed::input_value(store, id) matches Some(v) ==> latest_is(store, id, v),
        crate::computed::input_value(store, id) is Some <==> store.dom().contains(id) && (store[id].metric is Some
            || store[id].raw is Some),
{
}

proof fn lemma_present<F: Fn(Evaluation) -> Real>(
    f: F,
    ss: Seq<ComputedSensor>,
    states: Seq<Map<Seq<char>, SensorState>>,
    values: Seq<Real>,
    now: i64,
    s: ComputedSensor,
    n: int,
)
    requires
        crate::computed::one_pass(f, ss, states, values, now),
        0 <= n <= ss.len(),
        inputs_present(states[0], s),
    ensures
        crate::computed::inputs_known(states[n], s.config),
{
    assert forall|k: int| 0 <= k < s.config.inputs@.len() implies crate::computed::input_value(
        states[n],
        (#[trigger] s.config.inputs@[k]).1@,
    ) is Some by {
        let id = s.config.inputs@[k].1@;
        lemma_states(f, ss, states, values, now, n, id);
        lemma_latest(states[n], id);
    }
}

proof fn lemma_kept<F: Fn(Evaluation) -> Real>(
    f: F,
    ss: Seq<ComputedSensor>,
    states: Seq<Map<Seq<char>, SensorState>>,
    values: Seq<Real>,
    now: i64,
    i: int,
    n: int,
)
    requires
        crate::computed::one_pass(f, ss, states, values, now),
        own_ids(ss),
        0 <= i < n <= ss.len(),
    ensures
        states[n].dom().contains(ss[i].config.sensor_id@) == states[i + 1].dom().contains(ss[i].config.sensor_id@),
        states[n][ss[i].config.sensor_id@] == states[i + 1][ss[i].config.sensor_id@],
    decreases n,
{
    if n > i + 1 {
        lemma_kept(f, ss, states, values, now, i, n - 1);
        assert(crate::computed::passes(f, ss[n - 1], states, values, now, n - 1));
        assert(ss[i].config.sensor_id@ != ss[n - 1].config.sensor_id@);
    }
}

/// A computed sensor whose inputs all have values gets a metric in one pass. Its
/// value is what the expression comes to when each variable stands for the value
/// that its input has after the pass, be that input computed itself or not.
pub proof fn a_computed_value_follows_from_its_inputs<F: Fn(Evaluation) -> Real>(
    f: F,
    ss: Seq<ComputedSensor>,
    before: Map<Seq<char>, SensorState>,
    writes_before: u64,
    now: i64,
    after: Map<Seq<char>, SensorState>,
    writes_after: u64,
    i: int,
)
    requires
        crate::computed::ran(f, ss, before, writes_before, now, after, writes_after),
        crate::computed::in_order(ss),
        own_ids(ss),
        0 <= i < ss.len(),
        ss[i].wf(),
        inputs_present(before, ss[i]),
    ensures
        after.dom().contains(ss[i].config.sensor_id@),
        holds_computed(after[ss[i].config.sensor_id@], ss[i], now),
        exists|e: Evaluation| #[trigger]
            takes_latest(after, ss[i], e) && f.ensures((e,), after[ss[i].config.sensor_id@].metric->0.value),
{
    let (states, values) = choose|states: Seq<Map<Seq<char>, SensorState>>, values: Seq<Real>|
        {
            &&& #[trigger] crate::computed::one_pass(f, ss, states, values, now)
            &&& states[0] == before
            &&& states.last() == after
            &&& writes_after == crate::store::later_write(
                writes_before,
                crate::computed::recorded(ss, states, ss.len() as int),
            )
        };
    let s = ss[i];
    let id = s.config.sensor_id@;
    lemma_present(f, ss, states, values, now, s, i);
    assert(crate::computed::passes(f, ss[i], states, values, now, i));
    assert(holds_computed(states[i + 1][id], s, now));
    lemma_kept(f, ss, states, values, now, i, ss.len() as int);
    let e = choose|e: Evaluation| #[trigger]
        f.ensures((e,), values[i]) && crate::computed::evaluates_inputs(states[i], s, e);
    assert(takes_latest(after, s, e)) by {
        assert(crate::expression::texts(e.names@) == crate::validation::variables(s.config.inputs@));
        assert(crate::expression::texts(e.names@).len() == e.names@.len());
        assert forall|k: int| 0 <= k < e.names@.len() implies (#[trigger] e.names@[k])@ == s.config.inputs@[k].0@ by {
            assert(crate::expression::texts(e.names@)[k] == e.names@[k]@);
        }
        assert forall|k: int| 0 <= k < e.values@.len() implies latest_is(
            after,
            s.config.inputs@[k].1@,
            #[trigger] e.values@[k],
        ) by {
            crate::computed::one_pass_settles_every_sensor(f, ss, states, values, now, i, k);
            lemma_latest(after, s.config.inputs@[k].1@);
        }
    }
}

/// A computed sensor of which an input has neither metric nor raw sample, and is
/// computed by no sensor, is passed over.
pub proof fn a_missing_input_leaves_a_sensor_out<F: Fn(Evaluation) -> Real>(
    f: F,
    s: ComputedSensor,
    before: Map<Seq<char>, SensorState>,
    writes_before: u64,
    now: i64,
    after: Map<Seq<char>, SensorState>,
    writes_after: u64,
)
    requires
        crate::computed::ran(f, seq![s], before, writes_before, now, after, writes_after),
        !inputs_present(before, s),
    ensures
        after == before,
        writes_after == writes_before,
{
    let ss = seq![s];
    let (states, values) = choose|states: Seq<Map<Seq<char>, SensorState>>, values: Seq<Real>|
        {
            &&& #[trigger] crate::computed::one_pass(f, ss, states, values, now)
            &&& states[0] == before
            &&& states.last() == after
            &&& writes_after == crate::store::later_write(
                writes_before,
                crate::computed::recorded(ss, states, ss.len() as int),
            )
        };
    assert(crate::computed::passes(f, ss[0], states, values, now, 0));
    let k = choose|k: int|
        0 <= k < s.config.inputs@.len() && !(before.dom().contains((#[trigger] s.config.inputs@[k]).1@) && (
        before[s.config.inputs@[k].1@].metric is Some || before[s.config.inputs@[k].1@].raw is Some));
    lemma_latest(before, s.config.inputs@[k].1@);
    assert(crate::computed::input_value(before, s.config.inputs@[k].1@) is None);
    assert(!crate::computed::inputs_known(before, s.config));
    reveal_with_fuel(crate::computed::recorded, 2);
}

/// A built sensor is by one of the configurations: it has that one's id, unit,
/// expression and inputs.
pub proof fn a_built_sensor_is_as_configured(s: ComputedSensor, c: crate::config::ComputedConfig)
    requires
        crate::computed::computed_by(s, c),
    ensures
        s.config.sensor_id@ == c.sensor_id@,
        s.config.unit == c.unit,
        s.config.expression@ == c.expression@,
        s.config.inputs@ == c.inputs@,
        s.vars@.len() == c.inputs@.len(),
        forall|k: int| 0 <= k < s.vars@.len() ==> (#[trigger] s.vars@[k])@ == c.inputs@[k].0@,
{
    assert(crate::expression::texts(s.vars@).len() == s.vars@.len());
    assert forall|k: int| 0 <= k < s.vars@.len() implies (#[trigger] s.vars@[k])@ == c.inputs@[k].0@ by {
        assert(crate::expression::texts(s.vars@)[k] == s.vars@[k]@);
    }
}

/// Of several computed sensors with one id the first is in force, and every id
/// has one that is.
pub proof fn the_first_of_an_id_is_in_force(cs: Seq<crate::config::ComputedConfig>, i: int)
    requires
        0 <= i < cs.len(),
        forall|j: int| 0 <= j < i ==> (#[trigger] cs[j]).sensor_id@ != cs[i].sensor_id@,
    ensures
        crate::computed::effective(cs).contains(cs[i]),
        forall|k: int|
            0 <= k < crate::computed::effective(cs).len() && (#[trigger] crate::computed::effective(cs)[k]).sensor_id@
                == cs[i].sensor_id@ ==> crate::computed::effective(cs)[k] == cs[i],
{
    lemma_first(cs, i, cs.len() as int);
}

proof fn lemma_first(cs: Seq<crate::config::ComputedConfig>, i: int, n: int)
    requires
        0 <= i < cs.len(),
        0 <= n <= cs.len(),
        forall|j: int| 0 <= j < i ==> (#[trigger] cs[j]).sensor_id@ != cs[i].sensor_id@,
    ensures
        i < n ==> crate::computed::in_force(cs, n).contains(cs[i]),
        forall|k: int|
            0 <= k < crate::computed::in_force(cs, n).len() && (#[trigger] crate::computed::in_force(
                cs,
                n,
            )[k]).sensor_id@ == cs[i].sensor_id@ ==> crate::computed::in_force(cs, n)[k] == cs[i],
    decreases n,
{
    if n > 0 {
        lemma_first(cs, i, n - 1);
        let before = crate::computed::in_force(cs, n - 1);
        let now = crate::computed::in_force(cs, n);
        if crate::computed::first_of_id(cs, n - 1) {
            assert(now == before.push(cs[n - 1]));
            if i < n - 1 {
                assert(cs[i].sensor_id@ != cs[n - 1].sensor_id@);
                let k = choose|k: int| 0 <= k < before.len() && before[k] == cs[i];
                assert(now[k] == cs[i]);
            } else if i == n - 1 {
                assert(now[before.len() as int] == cs[i]);
            }
            assert forall|k: int| 0 <= k < now.len() && (#[trigger] now[k]).sensor_id@ == cs[i].sensor_id@ implies now[k]
                == cs[i] by {
                if k < before.len() {
                    assert(now[k] == before[k]);
                } else if n - 1 > i {
                    assert(cs[i].sensor_id@ != cs[n - 1].sensor_id@);
                }
            }
        } else {
            assert(now == before);
        }
    }
}

proof fn lemma_every_place(order: Seq<usize>, n: nat, i: int)
    requires
        order.len() == n,
        order.no_duplicates(),
        forall|k: int| 0 <= k < n ==> #[trigger] order[k] < n,
        0 <= i < n,
    ensures
        exists|k: int| 0 <= k < n && #[trigger] order[k] == i,
{
    let ints = order.map_values(|x: usize| x as int);
    assert(ints.no_duplicates());
    ints.unique_seq_to_set();
    vstd::set_lib::lemma_int_range(0, n as int);
    let all = vstd::set_lib::set_int_range(0, n as int);
    assert(ints.to_set().subset_of(all)) by {
        assert forall|x: int| ints.to_set().contains(x) implies all.contains(x) by {
            let k = choose|k: int| 0 <= k < ints.len() && ints[k] == x;
            assert(order[k] < n);
        }
    }
    vstd::set_lib::lemma_subset_equality(ints.to_set(), all);
    assert(all.contains(i));
    let k = choose|k: int| 0 <= k < ints.len() && ints[k] == i;
    assert(order[k] == i);
}

/// Every computed sensor of an accepted configuration is built, as it is
/// configured.
pub proof fn every_computed_sensor_is_built(
    c: crate::config::Config,
    f: crate::validation::FaultTexts,
    ss: Vec<ComputedSensor>,
    i: int,
)
    requires
        crate::validation::finding(c, f, None),
        crate::computed::built(crate::computed::effective(c.computed@), Ok(ss)),
        0 <= i < c.computed@.len(),
    ensures
        ss@.len() == c.computed@.len(),
        exists|k: int|
            {
                &&& 0 <= k < ss@.len()
                &&& (#[trigger] ss@[k]).config.sensor_id@ == c.computed@[i].sensor_id@
                &&& ss@[k].config.name@ == c.computed@[i].name@
                &&& ss@[k].config.unit == c.computed@[i].unit
                &&& ss@[k].config.expression@ == c.computed@[i].expression@
                &&& ss@[k].config.inputs@ == c.computed@[i].inputs@
            },
{
    crate::laws::validation::what_is_accepted_keeps_the_rules(c, f);
    crate::computed::distinct_sensors_are_in_force(c.computed@);
    let cs = c.computed@;
    let order = choose|order: Seq<usize>|
        {
            &&& order.len() == cs.len()
            &&& ss@.len() == cs.len()
            &&& order.no_duplicates()
            &&& forall|i: int|
                0 <= i < ss@.len() ==> #[trigger] order[i] < cs.len() && crate::computed::computed_by(
                    ss@[i],
                    cs[order[i] as int],
                )
        };
    lemma_every_place(order, cs.len(), i);
    let k = choose|k: int| 0 <= k < cs.len() && #[trigger] order[k] == i;
    a_built_sensor_is_as_configured(ss@[k], cs[i]);
}

/// In an accepted configuration every computed sensor stands behind those that it
/// reads.
pub proof fn a_computed_sensor_stands_behind_its_inputs(
    c: crate::config::Config,
    f: crate::validation::FaultTexts,
    ss: Vec<ComputedSensor>,
    i: int,
    k: int,
    j: int,
)
    requires
        crate::validation::finding(c, f, None),
        crate::computed::built(crate::computed::effective(c.computed@), Ok(ss)),
        0 <= i < ss@.len(),
        0 <= j < ss@.len(),
        0 <= k < ss@[i].config.inputs@.len(),
        ss@[i].config.inputs@[k].1@ == ss@[j].config.sensor_id@,
    ensures
        j < i,
{
    crate::laws::validation::what_is_accepted_keeps_the_rules(c, f);
    crate::validity::validation_is_exact(c, f, None);
    crate::computed::distinct_sensors_are_in_force(c.computed@);
    assert(crate::validation::cycle_free(c.computed@));
    assert(crate::computed::uses(ss@, i, j));
}

} // verus!
