//! Virtual sensors, computed from the latest values of other sensors.

use vstd::prelude::*;

use crate::config::{ComputedConfig, Config};
use crate::config_handle::ConfigHandle;
use crate::domain::{copy_text, Metric, MetricStatus, SensorId};
use crate::evaluation::Evaluation;
use crate::number::Real;
use crate::store::{MetricStore, SensorState};
use crate::text::join3;
use crate::validation;

verus! {

/// A computed sensor, bound to its inputs.
#[derive(Debug)]
pub struct ComputedSensor {
    pub config: ComputedConfig,
    /// The variables of the expression.
    pub vars: Vec<String>,
}

/// Both configurations say the same.
pub open spec fn same_computed(a: ComputedConfig, b: ComputedConfig) -> bool {
    &&& a.sensor_id == b.sensor_id
    &&& a.name == b.name
    &&& a.unit == b.unit
    &&& a.inputs@ == b.inputs@
    &&& a.expression == b.expression
}

pub(crate) fn copy_computed(c: &ComputedConfig) -> (r: ComputedConfig)
    ensures
        same_computed(r, *c),
{
    let mut inputs: Vec<(String, String)> = Vec::new();
    let mut i: usize = 0;
    while i < c.inputs.len()
        invariant
            i <= c.inputs@.len(),
            inputs@ == c.inputs@.take(i as int),
        decreases c.inputs@.len() - i,
    {
        inputs.push((c.inputs[i].0.clone(), c.inputs[i].1.clone()));
        assert(c.inputs@.take(i + 1) =~= c.inputs@.take(i as int).push(c.inputs@[i as int]));
        i = i + 1;
    }
    assert(c.inputs@.take(i as int) =~= c.inputs@);
    ComputedConfig {
        sensor_id: c.sensor_id.clone(),
        name: c.name.clone(),
        unit: copy_text(&c.unit),
        inputs,
        expression: c.expression.clone(),
    }
}

/// What is wrong with a computed sensor, given what parsing its expression and
/// binding its variables have against it.
pub open spec fn sensor_problem(
    c: ComputedConfig,
    parsing: Option<Seq<char>>,
    binding: Option<Seq<char>>,
) -> Option<Seq<char>> {
    match parsing {
        Some(m) => Some(crate::pipeline::bad_expression(c.expression@, m)),
        None => match binding {
            Some(m) => Some("expression `"@ + c.expression@ + "`: "@ + m),
            None => None,
        },
    }
}

/// The sensor is by this configuration.
pub open spec fn computed_by(s: ComputedSensor, c: ComputedConfig) -> bool {
    same_computed(s.config, c) && crate::expression::texts(s.vars@) == validation::variables(c.inputs@)
}

/// The latest value of an input: its metric, else its raw sample.
pub open spec fn input_value(store: Map<Seq<char>, SensorState>, id: Seq<char>) -> Option<Real> {
    crate::protocol::modbus_server::current_value(store, id)
}

/// Every input has a value.
pub open spec fn inputs_known(store: Map<Seq<char>, SensorState>, c: ComputedConfig) -> bool {
    forall|k: int| 0 <= k < c.inputs@.len() ==> input_value(store, (#[trigger] c.inputs@[k]).1@) is Some
}

/// The evaluation takes the latest values of the inputs.
pub open spec fn evaluates_inputs(store: Map<Seq<char>, SensorState>, s: ComputedSensor, e: Evaluation) -> bool {
    &&& e.expression@ == s.config.expression@
    &&& e.names@ == s.vars@
    &&& e.values@.len() == s.config.inputs@.len()
    &&& forall|k: int|
        0 <= k < e.values@.len() ==> Some(#[trigger] e.values@[k]) == input_value(store, s.config.inputs@[k].1@)
}

/// `v` is what `f` makes of the sensor's expression for the latest values of its
/// inputs.
pub open spec fn evaluated_by<F: Fn(Evaluation) -> Real>(
    f: F,
    store: Map<Seq<char>, SensorState>,
    s: ComputedSensor,
    v: Real,
) -> bool {
    exists|e: Evaluation| #[trigger] f.ensures((e,), v) && evaluates_inputs(store, s, e)
}

/// The metric of a computed sensor.
pub open spec fn computed_metric(c: ComputedConfig, value: Real, now: i64) -> Metric {
    Metric {
        sensor_id: SensorId(c.sensor_id),
        value,
        unit: c.unit,
        status: MetricStatus::Normal,
        timestamp: now,
    }
}

impl ComputedSensor {
    /// The inputs are a mapping, and the variables are those of the inputs.
    pub open spec fn wf(self) -> bool {
        &&& crate::evaluation::distinct_variables(self.config.inputs@)
        &&& crate::expression::texts(self.vars@) == validation::variables(self.config.inputs@)
    }

    /// A computed sensor, given what parsing its expression and binding its
    /// variables have against it.
    pub fn new_given(config: ComputedConfig, parsing: &Option<String>, binding: &Option<String>) -> (r: Result<
        Self,
        String,
    >)
        requires
            crate::evaluation::distinct_variables(config.inputs@),
        ensures
            r is Ok <==> sensor_problem(
                config,
                crate::expression::text_of(*parsing),
                crate::expression::text_of(*binding),
            ) is None,
            r matches Ok(s) ==> computed_by(s, config) && s.wf(),
            r matches Err(m) ==> Some(m@) == sensor_problem(
                config,
                crate::expression::text_of(*parsing),
                crate::expression::text_of(*binding),
            ),
    {
        match parsing {
            Some(f) => {
                let mut m = join3("invalid expression `", config.expression.as_str(), "`: ");
                m.append(f.as_str());
                return Err(m);
            },
            None => {},
        }
        match binding {
            Some(f) => {
                let mut m = join3("expression `", config.expression.as_str(), "`: ");
                m.append(f.as_str());
                return Err(m);
            },
            None => {},
        }
        let vars = validation::variable_names(&config.inputs);
        Ok(ComputedSensor { config, vars })
    }

    /// A computed sensor whose expression parses and whose variables are all
    /// inputs.
    pub fn new(config: ComputedConfig) -> (r: Result<Self, String>)
        requires
            !crate::expression::blank(config.expression@),
            crate::evaluation::distinct_variables(config.inputs@),
        ensures
            r is Ok <==> sensor_problem(
                config,
                crate::expression::parse_fault(config.expression@),
                crate::expression::bind_fault(config.expression@, validation::variables(config.inputs@)),
            ) is None,
            r matches Ok(s) ==> computed_by(s, config) && s.wf(),
            r matches Err(m) ==> Some(m@) == sensor_problem(
                config,
                crate::expression::parse_fault(config.expression@),
                crate::expression::bind_fault(config.expression@, validation::variables(config.inputs@)),
            ),
    {
        let parsing = crate::expression::check_expression(config.expression.as_str());
        let names = validation::variable_names(&config.inputs);
        let binding = crate::expression::check_binding(config.expression.as_str(), &names);
        ComputedSensor::new_given(config, &parsing, &binding)
    }

    /// The evaluation with the latest values; none while an input has no value.
    pub fn prepare(&self, store: &MetricStore) -> (r: Option<Evaluation>)
        requires
            store.wf(),
        ensures
            r is Some <==> inputs_known(store@, self.config),
            r matches Some(e) ==> evaluates_inputs(store@, *self, e),
    {
        let mut values: Vec<Real> = Vec::new();
        let mut k: usize = 0;
        while k < self.config.inputs.len()
            invariant
                store.wf(),
                k <= self.config.inputs@.len(),
                values@.len() == k,
                forall|j: int|
                    0 <= j < k ==> Some(#[trigger] values@[j]) == input_value(store@, self.config.inputs@[j].1@),
                forall|j: int| 0 <= j < k ==> input_value(store@, (#[trigger] self.config.inputs@[j]).1@) is Some,
            decreases self.config.inputs@.len() - k,
        {
            match crate::protocol::modbus_server::value_of(store, &self.config.inputs[k].1) {
                Some(v) => {
                    values.push(v);
                },
                None => {
                    assert(input_value(store@, self.config.inputs@[k as int].1@) is None);
                    return None;
                },
            }
            k = k + 1;
        }
        Some(
            Evaluation {
                expression: self.config.expression.clone(),
                names: crate::evaluation::copy_names(&self.vars),
                values,
            },
        )
    }

    /// The metric that the latest values make at time `now`; none while an input
    /// has no value. The expression is evaluated by `f`.
    pub fn eval<F: Fn(Evaluation) -> Real>(&self, store: &MetricStore, now: i64, f: &F) -> (r: Option<Metric>)
        requires
            store.wf(),
            forall|e: Evaluation| f.requires((e,)),
        ensures
            r is Some <==> inputs_known(store@, self.config),
            r matches Some(m) ==> m == computed_metric(self.config, m.value, now) && evaluated_by(
                *f,
                store@,
                *self,
                m.value,
            ),
            r matches Some(m) ==> m.status == MetricStatus::Normal && m.timestamp == now && m.sensor_id.0@
                == self.config.sensor_id@ && m.unit == self.config.unit,
    {
        match self.prepare(store) {
            Some(e) => {
                let ghost asked = e;
                let v = f(e);
                assert(f.ensures((asked,), v));
                Some(self.metric(v, now))
            },
            None => None,
        }
    }

    /// The metric that a value makes at time `now`.
    fn metric(&self, value: Real, now: i64) -> (r: Metric)
        ensures
            r == computed_metric(self.config, value, now),
    {
        Metric {
            sensor_id: SensorId(self.config.sensor_id.clone()),
            value,
            unit: copy_text(&self.config.unit),
            status: MetricStatus::Normal,
            timestamp: now,
        }
    }
}

/// No expression is blank.
pub open spec fn readable_computed(cs: Seq<ComputedConfig>) -> bool {
    forall|i: int| 0 <= i < cs.len() ==> !crate::expression::blank((#[trigger] cs[i]).expression@)
}

/// The inputs of every computed sensor are a mapping.
pub open spec fn mapped_computed(cs: Seq<ComputedConfig>) -> bool {
    forall|i: int| 0 <= i < cs.len() ==> crate::evaluation::distinct_variables((#[trigger] cs[i]).inputs@)
}

/// No two computed sensors have the same id.
pub open spec fn distinct_ids(cs: Seq<ComputedConfig>) -> bool {
    forall|i: int, j: int| #![trigger cs[i], cs[j]] 0 <= i < j < cs.len() ==> cs[i].sensor_id@ != cs[j].sensor_id@
}

/// No earlier computed sensor has the id of sensor `i`.
pub open spec fn first_of_id(cs: Seq<ComputedConfig>, i: int) -> bool {
    forall|j: int| 0 <= j < i ==> (#[trigger] cs[j]).sensor_id@ != cs[i].sensor_id@
}

/// The computed sensors in force among the first `n`: the first of every id.
pub open spec fn in_force(cs: Seq<ComputedConfig>, n: int) -> Seq<ComputedConfig>
    decreases n,
{
    if n <= 0 {
        Seq::empty()
    } else if first_of_id(cs, n - 1) {
        in_force(cs, n - 1).push(cs[n - 1])
    } else {
        in_force(cs, n - 1)
    }
}

/// The computed sensors in force.
pub open spec fn effective(cs: Seq<ComputedConfig>) -> Seq<ComputedConfig> {
    in_force(cs, cs.len() as int)
}

/// What is wrong with a computed sensor.
pub open spec fn own_problem(c: ComputedConfig) -> Option<Seq<char>> {
    sensor_problem(
        c,
        crate::expression::parse_fault(c.expression@),
        crate::expression::bind_fault(c.expression@, validation::variables(c.inputs@)),
    )
}

/// Sensor `i` has sensor `j` among its inputs.
pub open spec fn uses(ss: Seq<ComputedSensor>, i: int, j: int) -> bool {
    exists|k: int|
        0 <= k < ss[i].config.inputs@.len() && #[trigger] ss[i].config.inputs@[k].1@ == ss[j].config.sensor_id@
}

/// Every sensor stands after those that it has among its inputs.
pub open spec fn in_order(ss: Seq<ComputedSensor>) -> bool {
    forall|i: int, j: int| 0 <= i < ss.len() && 0 <= j < ss.len() && #[trigger] uses(ss, i, j) ==> j < i
}

/// Following inputs from one computed sensor leads to another.
pub open spec fn reads_through(es: Seq<ComputedConfig>, from: Seq<char>, to: Seq<char>) -> bool {
    exists|p: Seq<int>|
        {
            &&& #[trigger] validation::reading_chain(es, p)
            &&& p.len() >= 1
            &&& forall|i: int| #![trigger p[i]] 0 <= i < p.len() ==> 0 <= p[i] < es.len()
            &&& es[p[0]].sensor_id@ == from
            &&& es[p.last()].sensor_id@ == to
        }
}

/// Every sensor stands after those among its inputs that do not, in turn, read
/// it.
pub open spec fn mostly_in_order(es: Seq<ComputedConfig>, ss: Seq<ComputedSensor>) -> bool {
    forall|i: int, j: int|
        0 <= i < ss.len() && 0 <= j < ss.len() && #[trigger] uses(ss, i, j) ==> j < i || reads_through(
            es,
            ss[j].config.sensor_id@,
            ss[i].config.sensor_id@,
        )
}

/// The sensors are those of the configuration, each once.
pub open spec fn builds(cs: Seq<ComputedConfig>, ss: Seq<ComputedSensor>) -> bool {
    exists|order: Seq<usize>|
        {
            &&& order.len() == cs.len()
            &&& ss.len() == cs.len()
            &&& order.no_duplicates()
            &&& forall|i: int|
                0 <= i < ss.len() ==> #[trigger] order[i] < cs.len() && computed_by(ss[i], cs[order[i] as int])
        }
}

/// What building these computed sensors comes to: all of them, each after those
/// that it reads and that do not read it, or the problem of one of them.
pub open spec fn built(es: Seq<ComputedConfig>, r: Result<Vec<ComputedSensor>, String>) -> bool {
    match r {
        Ok(ss) => {
            &&& forall|i: int| 0 <= i < es.len() ==> own_problem(#[trigger] es[i]) is None
            &&& builds(es, ss@)
            &&& mostly_in_order(es, ss@)
            &&& validation::cycle_free(es) ==> in_order(ss@)
        },
        Err(m) => exists|i: int| 0 <= i < es.len() && own_problem(#[trigger] es[i]) == Some(m@),
    }
}

/// Each configuration says what the other at its place says.
pub open spec fn copies(a: Seq<ComputedConfig>, b: Seq<ComputedConfig>) -> bool {
    a.len() == b.len() && forall|k: int| #![trigger a[k]] 0 <= k < a.len() ==> same_computed(a[k], b[k])
}

fn is_first(configs: &Vec<ComputedConfig>, i: usize) -> (r: bool)
    requires
        i < configs@.len(),
    ensures
        r == first_of_id(configs@, i as int),
{
    let mut j: usize = 0;
    while j < i
        invariant
            j <= i < configs@.len(),
            forall|k: int| 0 <= k < j ==> (#[trigger] configs@[k]).sensor_id@ != configs@[i as int].sensor_id@,
        decreases i - j,
    {
        if crate::text::same_string(&configs[j].sensor_id, &configs[i].sensor_id) {
            return false;
        }
        j = j + 1;
    }
    true
}

fn keep_first(configs: &Vec<ComputedConfig>) -> (r: Vec<ComputedConfig>)
    ensures
        copies(r@, effective(configs@)),
{
    let mut r: Vec<ComputedConfig> = Vec::new();
    let mut n: usize = 0;
    while n < configs.len()
        invariant
            n <= configs@.len(),
            copies(r@, in_force(configs@, n as int)),
        decreases configs@.len() - n,
    {
        if is_first(configs, n) {
            r.push(copy_computed(&configs[n]));
        }
        n = n + 1;
    }
    r
}

proof fn lemma_in_force(cs: Seq<ComputedConfig>, n: int)
    requires
        0 <= n <= cs.len(),
    ensures
        distinct_ids(in_force(cs, n)),
        readable_computed(cs) ==> readable_computed(in_force(cs, n)),
        mapped_computed(cs) ==> mapped_computed(in_force(cs, n)),
        forall|k: int|
            0 <= k < in_force(cs, n).len() ==> exists|i: int| 0 <= i < n && cs[i] == #[trigger] in_force(cs, n)[k],
        distinct_ids(cs) ==> in_force(cs, n) == cs.take(n),
    decreases n,
{
    if n > 0 {
        lemma_in_force(cs, n - 1);
        let before = in_force(cs, n - 1);
        if first_of_id(cs, n - 1) {
            assert forall|k: int| 0 <= k < before.len() implies (#[trigger] before[k]).sensor_id@ != cs[n - 1].sensor_id@ by {
                let i = choose|i: int| 0 <= i < n - 1 && cs[i] == before[k];
                assert(cs[i].sensor_id@ != cs[n - 1].sensor_id@);
            }
            assert forall|k: int| 0 <= k < in_force(cs, n).len() implies exists|i: int|
                0 <= i < n && cs[i] == #[trigger] in_force(cs, n)[k] by {
                if k < before.len() {
                    let i = choose|i: int| 0 <= i < n - 1 && cs[i] == before[k];
                    assert(cs[i] == in_force(cs, n)[k]);
                } else {
                    assert(cs[n - 1] == in_force(cs, n)[k]);
                }
            }
        } else {
            assert forall|k: int| 0 <= k < in_force(cs, n).len() implies exists|i: int|
                0 <= i < n && cs[i] == #[trigger] in_force(cs, n)[k] by {
                let i = choose|i: int| 0 <= i < n - 1 && cs[i] == before[k];
                assert(cs[i] == in_force(cs, n)[k]);
            }
        }
        if distinct_ids(cs) {
            assert(first_of_id(cs, n - 1));
            assert(cs.take(n) =~= cs.take(n - 1).push(cs[n - 1]));
        }
    } else {
        assert(cs.take(0) =~= Seq::<ComputedConfig>::empty());
    }
}

/// Where no two computed sensors have the same id, all are in force.
pub proof fn distinct_sensors_are_in_force(cs: Seq<ComputedConfig>)
    requires
        distinct_ids(cs),
    ensures
        effective(cs) == cs,
{
    lemma_in_force(cs, cs.len() as int);
    assert(cs.take(cs.len() as int) =~= cs);
}

proof fn lemma_same_graph(a: Seq<ComputedConfig>, b: Seq<ComputedConfig>, g: Seq<Vec<usize>>)
    requires
        copies(a, b),
        validation::reading_graph(a, g),
    ensures
        validation::reading_graph(b, g),
{
    assert forall|u: int, v: int| #[trigger] crate::graph::depends(g, u, v) <==> validation::reads(b, u, v) by {
        if 0 <= u < a.len() && 0 <= v < a.len() {
            assert(same_computed(a[u], b[u]) && same_computed(a[v], b[v]));
            if validation::reads(a, u, v) {
                let k = choose|k: int|
                    0 <= k < a[u].inputs@.len() && #[trigger] a[u].inputs@[k].1@ == a[v].sensor_id@;
                assert(b[u].inputs@[k].1@ == b[v].sensor_id@);
            }
            if validation::reads(b, u, v) {
                let k = choose|k: int|
                    0 <= k < b[u].inputs@.len() && #[trigger] b[u].inputs@[k].1@ == b[v].sensor_id@;
                assert(a[u].inputs@[k].1@ == a[v].sensor_id@);
            }
        }
    }
}

/// The computed sensors, each after those that it reads.
#[derive(Debug)]
pub struct ComputedEngine {
    revision: u64,
    sensors: Vec<ComputedSensor>,
}

impl ComputedEngine {
    /// The sensors, in the order of evaluation.
    pub closed spec fn list(&self) -> Vec<ComputedSensor> {
        self.sensors
    }

    /// The sensors, in the order of evaluation.
    pub open spec fn computed(&self) -> Seq<ComputedSensor> {
        self.list()@
    }

    /// The inputs of every sensor are a mapping.
    pub open spec fn wf(&self) -> bool {
        forall|i: int| 0 <= i < self.computed().len() ==> (#[trigger] self.computed()[i]).wf()
    }

    /// The revision that the sensors were built for.
    pub closed spec fn built_for(&self) -> u64 {
        self.revision
    }

    /// The sensors in force, in an order in which one pass settles them all
    /// where none reads itself; the message is that of a sensor that cannot be
    /// built.
    pub fn build(configs: &Vec<ComputedConfig>) -> (r: Result<Vec<ComputedSensor>, String>)
        requires
            readable_computed(configs@),
            mapped_computed(configs@),
        ensures
            built(effective(configs@), r),
            r matches Ok(ss) ==> forall|i: int| 0 <= i < ss@.len() ==> (#[trigger] ss@[i]).wf(),
    {
        let list = keep_first(configs);
        proof {
            lemma_in_force(configs@, configs@.len() as int);
        }
        let g = validation::build_reading_graph(&list);
        let ghost es = effective(configs@);
        proof {
            lemma_same_graph(list@, es, g@);
        }
        let order = crate::graph::finishing_order(&g);
        let mut ss: Vec<ComputedSensor> = Vec::new();
        let mut i: usize = 0;
        while i < order.len()
            invariant
                i <= order@.len(),
                crate::graph::finishing(g@, order@),
                es == effective(configs@),
                g@.len() == es.len(),
                copies(list@, es),
                readable_computed(es),
                mapped_computed(es),
                ss@.len() == i,
                forall|k: int| 0 <= k < i ==> (#[trigger] ss@[k]).wf(),
                forall|k: int|
                    #![trigger ss@[k]]
                    0 <= k < i ==> computed_by(ss@[k], es[order@[k] as int]) && own_problem(es[order@[k] as int]) is None,
            decreases order@.len() - i,
        {
            let n: usize = order[i];
            assert(n < es.len());
            assert(same_computed(list@[n as int], es[n as int]));
            assert(!crate::expression::blank(es[n as int].expression@));
            assert(crate::evaluation::distinct_variables(es[n as int].inputs@));
            let c = copy_computed(&list[n]);
            let ghost d = c;
            match ComputedSensor::new(c) {
                Ok(s) => {
                    assert(same_computed(d, es[n as int]));
                    assert(computed_by(s, es[n as int]));
                    assert(own_problem(es[n as int]) is None);
                    ss.push(s);
                },
                Err(m) => {
                    assert(own_problem(es[n as int]) == Some(m@));
                    return Err(m);
                },
            }
            i = i + 1;
        }
        proof {
            assert forall|v: int| 0 <= v < es.len() implies own_problem(#[trigger] es[v]) is None by {
                assert(crate::graph::listed(order@, v));
                let k = choose|k: int| 0 <= k < order@.len() && #[trigger] order@[k] == v;
                assert(own_problem(es[order@[k] as int]) is None) by {
                    assert(computed_by(ss@[k], es[order@[k] as int]));
                }
            }
            lemma_builds(es, order@, ss@);
            lemma_mostly(es, g@, order@, ss@);
            if validation::cycle_free(es) {
                assert forall|v: int| !#[trigger] crate::graph::on_cycle(g@, v) by {
                    validation::lemma_circular_on_cycle(es, g@, v);
                    if crate::graph::on_cycle(g@, v) {
                        let p = choose|p: Seq<int>| #[trigger]
                            crate::graph::walk(g@, p) && p.len() >= 2 && p[0] == v && p.last() == v;
                        assert(crate::graph::depends(g@, p[0], p[1]));
                        assert(validation::circular(es, v));
                    }
                }
                crate::graph::finishing_is_topological(g@, order@);
                lemma_order(es, g@, order@, ss@);
            }
        }
        Ok(ss)
    }

    /// The computed sensors of a configuration at revision 0.
    pub fn new(config: &Config) -> (r: Result<Self, String>)
        requires
            readable_computed(config.computed@),
            mapped_computed(config.computed@),
        ensures
            built(
                effective(config.computed@),
                match r {
                    Ok(e) => Ok(e.list()),
                    Err(m) => Err(m),
                },
            ),
            r matches Ok(e) ==> e.built_for() == 0 && e.wf(),
    {
        match ComputedEngine::build(&config.computed) {
            Ok(sensors) => Ok(ComputedEngine { revision: 0, sensors }),
            Err(m) => Err(m),
        }
    }

    /// Rebuilds the sensors where the configuration has changed since they were
    /// built.
    pub fn refresh(&mut self, handle: &ConfigHandle) -> (r: Result<(), String>)
        requires
            old(self).wf(),
            readable_computed(handle.current().computed@),
            mapped_computed(handle.current().computed@),
        ensures
            final(self).wf(),
            handle.changes() == old(self).built_for() ==> r is Ok && *final(self) == *old(self),
            handle.changes() != old(self).built_for() ==> {
                &&& built(
                    effective(handle.current().computed@),
                    match r {
                        Ok(_) => Ok(final(self).list()),
                        Err(m) => Err(m),
                    },
                )
                &&& r is Ok ==> final(self).built_for() == handle.changes()
                &&& r is Err ==> *final(self) == *old(self)
            },
    {
        let rev: u64 = handle.revision();
        if rev != self.revision {
            match ComputedEngine::build(&handle.read().computed) {
                Ok(sensors) => {
                    self.sensors = sensors;
                    self.revision = rev;
                },
                Err(m) => {
                    return Err(m);
                },
            }
        }
        Ok(())
    }

    /// The number of sensors.
    pub fn len(&self) -> (r: usize)
        ensures
            r == self.computed().len(),
    {
        self.sensors.len()
    }

    /// Whether there is no sensor.
    pub fn is_empty(&self) -> (r: bool)
        ensures
            r == (self.computed().len() == 0),
    {
        self.sensors.len() == 0
    }

    /// Evaluates every sensor by `f` and records its value, as a metric of time
    /// `now` without a raw sample. A sensor of which an input has no value is
    /// passed over.
    pub fn run<F: Fn(Evaluation) -> Real>(&self, store: &mut MetricStore, now: i64, f: &F)
        requires
            old(store).wf(),
            forall|e: Evaluation| f.requires((e,)),
        ensures
            final(store).wf(),
            ran(
                *f,
                self.computed(),
                old(store)@,
                old(store).writes(),
                now,
                final(store)@,
                final(store).writes(),
            ),
    {
        let ghost mut states: Seq<Map<Seq<char>, SensorState>> = seq![store@];
        let ghost mut values: Seq<Real> = Seq::empty();
        let mut i: usize = 0;
        while i < self.sensors.len()
            invariant
                i <= self.sensors@.len(),
                store.wf(),
                forall|e: Evaluation| f.requires((e,)),
                states.len() == i + 1,
                values.len() == i,
                states[0] == old(store)@,
                states[i as int] == store@,
                store.writes() == crate::store::later_write(
                    old(store).writes(),
                    recorded(self.sensors@, states, i as int),
                ),
                forall|j: int| 0 <= j < i ==> #[trigger] passes(*f, self.sensors@[j], states, values, now, j),
            decreases self.sensors@.len() - i,
        {
            let ghost before = store@;
            let mut v = Real { bits: 0 };
            match self.sensors[i].eval(store, now, f) {
                Some(m) => {
                    v = m.value;
                    store.update_metric(None, m);
                },
                None => {},
            }
            proof {
                let more = states.push(store@);
                let given = values.push(v);
                assert forall|j: int| 0 <= j < i + 1 implies #[trigger] passes(
                    *f,
                    self.sensors@[j],
                    more,
                    given,
                    now,
                    j,
                ) by {
                    if j < i {
                        assert(passes(*f, self.sensors@[j], states, values, now, j));
                        assert(more[j] == states[j] && more[j + 1] == states[j + 1] && given[j] == values[j]);
                    } else {
                        assert(more[j] == before && more[j + 1] == store@ && given[j] == v);
                    }
                }
                lemma_recorded(self.sensors@, states, more, i as int);
                states = more;
                values = given;
            }
            i = i + 1;
        }
        assert(one_pass(*f, self.computed(), states, values, now));
    }
}

proof fn lemma_builds(cs: Seq<ComputedConfig>, order: Seq<usize>, ss: Seq<ComputedSensor>)
    requires
        ss.len() == cs.len(),
        order.len() == cs.len(),
        order.no_duplicates(),
        forall|k: int| 0 <= k < order.len() ==> #[trigger] order[k] < cs.len(),
        forall|k: int| #![trigger ss[k]] 0 <= k < ss.len() ==> computed_by(ss[k], cs[order[k] as int]),
    ensures
        builds(cs, ss),
{
    assert forall|i: int| 0 <= i < ss.len() implies #[trigger] order[i] < cs.len() && computed_by(
        ss[i],
        cs[order[i] as int],
    ) by {
        assert(computed_by(ss[i], cs[order[i] as int]));
    }
}

proof fn lemma_mostly(cs: Seq<ComputedConfig>, g: Seq<Vec<usize>>, order: Seq<usize>, ss: Seq<ComputedSensor>)
    requires
        validation::reading_graph(cs, g),
        crate::graph::finishing(g, order),
        ss.len() == cs.len(),
        order.len() == cs.len(),
        forall|k: int| 0 <= k < order.len() ==> #[trigger] order[k] < cs.len(),
        forall|k: int| #![trigger ss[k]] 0 <= k < ss.len() ==> computed_by(ss[k], cs[order[k] as int]),
    ensures
        mostly_in_order(cs, ss),
{
    assert forall|i: int, j: int| 0 <= i < ss.len() && 0 <= j < ss.len() && #[trigger] uses(ss, i, j) implies j < i
        || reads_through(cs, ss[j].config.sensor_id@, ss[i].config.sensor_id@) by {
        let u = order[i] as int;
        let v = order[j] as int;
        let k = choose|k: int|
            0 <= k < ss[i].config.inputs@.len() && #[trigger] ss[i].config.inputs@[k].1@ == ss[j].config.sensor_id@;
        assert(computed_by(ss[i], cs[u]) && computed_by(ss[j], cs[v]));
        assert(cs[u].inputs@[k].1@ == cs[v].sensor_id@);
        assert(validation::reads(cs, u, v));
        assert(crate::graph::depends(g, order[i] as int, v));
        if crate::graph::leads_back(g, u, v) {
            reveal(crate::graph::leads_back);
            let p = choose|p: Seq<int>| #[trigger]
                crate::graph::walk(g, p) && p.len() >= 1 && p[0] == v && p.last() == u;
            assert(validation::reading_chain(cs, p)) by {
                assert forall|m: int| #![trigger p[m]] 0 <= m < p.len() - 1 implies validation::reads(cs, p[m], p[m + 1]) by {
                    assert(crate::graph::depends(g, p[m], p[m + 1]));
                }
            }
            assert forall|m: int| #![trigger p[m]] 0 <= m < p.len() implies 0 <= p[m] < cs.len() by {
                if m < p.len() - 1 {
                    assert(validation::reads(cs, p[m], p[m + 1]));
                }
            }
        } else {
            let b = choose|b: int| 0 <= b < i && #[trigger] order[b] == v;
            assert(order[b] == order[j]);
        }
    }
}

proof fn lemma_order(cs: Seq<ComputedConfig>, g: Seq<Vec<usize>>, order: Seq<usize>, ss: Seq<ComputedSensor>)
    requires
        validation::reading_graph(cs, g),
        crate::graph::topological(g, order),
        ss.len() == cs.len(),
        order.len() == cs.len(),
        forall|k: int| 0 <= k < order.len() ==> #[trigger] order[k] < cs.len(),
        forall|k: int| #![trigger ss[k]] 0 <= k < ss.len() ==> computed_by(ss[k], cs[order[k] as int]),
    ensures
        in_order(ss),
{
    assert forall|i: int, j: int| 0 <= i < ss.len() && 0 <= j < ss.len() && #[trigger] uses(ss, i, j) implies j < i by {
        let u = order[i] as int;
        let v = order[j] as int;
        let k = choose|k: int|
            0 <= k < ss[i].config.inputs@.len() && #[trigger] ss[i].config.inputs@[k].1@ == ss[j].config.sensor_id@;
        assert(computed_by(ss[i], cs[u]) && computed_by(ss[j], cs[v]));
        assert(cs[u].inputs@[k].1@ == cs[v].sensor_id@);
        assert(validation::reads(cs, u, v));
        assert(crate::graph::depends(g, order[i] as int, v));
        let b = choose|b: int| 0 <= b < i && #[trigger] order[b] == v;
        assert(order[b] == order[j]);
    }
}

/// The computed sensors of an acceptable configuration can all be built, have
/// distinct ids, and form no cycle.
pub proof fn acceptable_computed_build(c: Config)
    requires
        crate::validity::acceptable(c, validation::faults_of(c)),
    ensures
        distinct_ids(c.computed@),
        validation::cycle_free(c.computed@),
        forall|i: int| 0 <= i < c.computed@.len() ==> own_problem(#[trigger] c.computed@[i]) is None,
{
    let f = validation::faults_of(c);
    assert forall|i: int| 0 <= i < c.computed@.len() implies own_problem(#[trigger] c.computed@[i]) is None by {
        assert(crate::validity::sound_computed_sensor(c, f, i));
        assert(f.parsing[i] == crate::expression::parse_fault(c.computed@[i].expression@));
        assert(f.binding[i] == crate::expression::bind_fault(
            c.computed@[i].expression@,
            validation::variables(c.computed@[i].inputs@),
        ));
    }
}

/// What becomes of sensor `i` between two states: where its inputs are known,
/// its value is recorded; otherwise nothing changes.
pub open spec fn passes<F: Fn(Evaluation) -> Real>(
    f: F,
    s: ComputedSensor,
    states: Seq<Map<Seq<char>, SensorState>>,
    values: Seq<Real>,
    now: i64,
    i: int,
) -> bool {
    if inputs_known(states[i], s.config) {
        &&& evaluated_by(f, states[i], s, values[i])
        &&& states[i + 1] == crate::store::with_metric(states[i], None, computed_metric(s.config, values[i], now))
    } else {
        states[i + 1] == states[i]
    }
}

/// One pass over the sensors: the states before each is evaluated, and after
/// the last.
pub open spec fn one_pass<F: Fn(Evaluation) -> Real>(
    f: F,
    ss: Seq<ComputedSensor>,
    states: Seq<Map<Seq<char>, SensorState>>,
    values: Seq<Real>,
    now: i64,
) -> bool {
    &&& states.len() == ss.len() + 1
    &&& forall|i: int| 0 <= i < ss.len() ==> #[trigger] passes(f, ss[i], states, values, now, i)
}

/// How many of the first `n` sensors have their values recorded.
pub open spec fn recorded(ss: Seq<ComputedSensor>, states: Seq<Map<Seq<char>, SensorState>>, n: int) -> nat
    decreases n,
{
    if n <= 0 {
        0
    } else {
        recorded(ss, states, n - 1) + (if inputs_known(states[n - 1], ss[n - 1].config) {
            1nat
        } else {
            0nat
        })
    }
}

proof fn lemma_recorded(
    ss: Seq<ComputedSensor>,
    states: Seq<Map<Seq<char>, SensorState>>,
    more: Seq<Map<Seq<char>, SensorState>>,
    n: int,
)
    requires
        0 <= n <= states.len(),
        states.is_prefix_of(more),
    ensures
        recorded(ss, states, n) == recorded(ss, more, n),
    decreases n,
{
    if n > 0 {
        lemma_recorded(ss, states, more, n - 1);
        assert(states[n - 1] == more[n - 1]);
    }
}

/// One pass over the sensors leads from one state, and count of writes, to the
/// other: every recorded value is one write.
pub open spec fn ran<F: Fn(Evaluation) -> Real>(
    f: F,
    ss: Seq<ComputedSensor>,
    before: Map<Seq<char>, SensorState>,
    writes_before: u64,
    now: i64,
    after: Map<Seq<char>, SensorState>,
    writes_after: u64,
) -> bool {
    exists|states: Seq<Map<Seq<char>, SensorState>>, values: Seq<Real>|
        {
            &&& #[trigger] one_pass(f, ss, states, values, now)
            &&& states[0] == before
            &&& states.last() == after
            &&& writes_after == crate::store::later_write(writes_before, recorded(ss, states, ss.len() as int))
        }
}

/// Where every sensor stands after those that it reads, one pass settles them
/// all: what a sensor was evaluated with is what its inputs are after the pass.
pub proof fn one_pass_settles_every_sensor<F: Fn(Evaluation) -> Real>(
    f: F,
    ss: Seq<ComputedSensor>,
    states: Seq<Map<Seq<char>, SensorState>>,
    values: Seq<Real>,
    now: i64,
    i: int,
    k: int,
)
    requires
        in_order(ss),
        one_pass(f, ss, states, values, now),
        0 <= i < ss.len(),
        0 <= k < ss[i].config.inputs@.len(),
    ensures
        input_value(states.last(), ss[i].config.inputs@[k].1@) == input_value(states[i], ss[i].config.inputs@[k].1@),
{
    lemma_untouched(f, ss, states, values, now, i, k, ss.len() as int);
}

proof fn lemma_untouched<F: Fn(Evaluation) -> Real>(
    f: F,
    ss: Seq<ComputedSensor>,
    states: Seq<Map<Seq<char>, SensorState>>,
    values: Seq<Real>,
    now: i64,
    i: int,
    k: int,
    n: int,
)
    requires
        in_order(ss),
        one_pass(f, ss, states, values, now),
        0 <= i < ss.len(),
        0 <= k < ss[i].config.inputs@.len(),
        i <= n <= ss.len(),
    ensures
        input_value(states[n], ss[i].config.inputs@[k].1@) == input_value(states[i], ss[i].config.inputs@[k].1@),
    decreases n,
{
    if n > i {
        lemma_untouched(f, ss, states, values, now, i, k, n - 1);
        assert(passes(f, ss[n - 1], states, values, now, n - 1));
        if ss[i].config.inputs@[k].1@ == ss[n - 1].config.sensor_id@ {
            assert(uses(ss, i, n - 1));
        }
    }
}

} // verus!
