//! Evaluation of formulas that refer to controls, to the time and to one
//! another.
//!
//! A [`Model`] lists control names and sensors with their formulas. A plan says
//! what each variable of a formula stands for. A [`Round`] then evaluates the
//! sensors, each once the sensors that it refers to have values. The arithmetic
//! itself is done by a function that the caller gives.

use vstd::prelude::*;

use crate::number::Real;
use crate::text::{characters, same_string, same_text};

verus! {

/// A sensor whose value follows from a formula.
#[derive(Debug)]
pub struct SensorFormula {
    pub id: String,
    pub formula: String,
    /// Variable name and what it stands for: a control, the time, or a sensor.
    pub inputs: Vec<(String, String)>,
}

/// Controls, by name, and sensors.
#[derive(Debug)]
pub struct Model {
    pub controls: Vec<String>,
    pub sensors: Vec<SensorFormula>,
}

/// What a variable stands for.
#[derive(Debug, Clone, Copy, PartialEq, Eq, Structural)]
pub enum Source {
    /// The control at this position.
    Control(usize),
    /// The seconds since the start.
    Time,
    /// The sensor at this position.
    Sensor(usize),
}

// ---- names in a formula ----

pub open spec fn name_start(c: char) -> bool {
    ('a' <= c && c <= 'z') || ('A' <= c && c <= 'Z') || c == '_'
}

pub open spec fn name_part(c: char) -> bool {
    name_start(c) || ('0' <= c && c <= '9')
}

/// The end of the name that reaches up to position `i`.
pub open spec fn name_end(t: Seq<char>, i: int) -> int
    decreases t.len() - i,
{
    if 0 <= i < t.len() && name_part(t[i]) {
        name_end(t, i + 1)
    } else {
        i
    }
}

/// A name of the expression language.
pub open spec fn builtin(name: Seq<char>) -> bool {
    ||| name == "ln"@
    ||| name == "log"@
    ||| name == "exp"@
    ||| name == "sqrt"@
    ||| name == "abs"@
    ||| name == "sin"@
    ||| name == "cos"@
    ||| name == "tan"@
    ||| name == "asin"@
    ||| name == "acos"@
    ||| name == "atan"@
    ||| name == "sinh"@
    ||| name == "cosh"@
    ||| name == "tanh"@
    ||| name == "floor"@
    ||| name == "ceil"@
    ||| name == "round"@
    ||| name == "min"@
    ||| name == "max"@
    ||| name == "pow"@
    ||| name == "pi"@
    ||| name == "e"@
    ||| name == "atan2"@
    ||| name == "sign"@
    ||| name == "fmod"@
}

/// The names in a formula from position `i` on, in order, those of the
/// expression language aside.
pub open spec fn names_from(t: Seq<char>, i: int) -> Seq<Seq<char>>
    decreases t.len() - i,
    via names_from_terminates
{
    if i < 0 || i >= t.len() {
        Seq::empty()
    } else if name_start(t[i]) {
        let j = name_end(t, i);
        let name = t.subrange(i, j);
        if builtin(name) {
            names_from(t, j)
        } else {
            seq![name] + names_from(t, j)
        }
    } else {
        names_from(t, i + 1)
    }
}

#[via_fn]
proof fn names_from_terminates(t: Seq<char>, i: int) {
    if 0 <= i < t.len() && name_start(t[i]) {
        lemma_name_end(t, i);
    }
}

proof fn lemma_name_end(t: Seq<char>, i: int)
    requires
        0 <= i <= t.len(),
    ensures
        i <= name_end(t, i) <= t.len(),
        i < t.len() && name_part(t[i]) ==> i < name_end(t, i),
    decreases t.len() - i,
{
    if i < t.len() && name_part(t[i]) {
        lemma_name_end(t, i + 1);
    }
}

fn is_name_start(c: char) -> (r: bool)
    ensures
        r == name_start(c),
{
    ('a' <= c && c <= 'z') || ('A' <= c && c <= 'Z') || c == '_'
}

fn is_builtin(name: &str) -> (r: bool)
    ensures
        r == builtin(name@),
{
    same_text(name, "ln") || same_text(name, "log") || same_text(name, "exp") || same_text(name, "sqrt") || same_text(
        name,
        "abs",
    ) || same_text(name, "sin") || same_text(name, "cos") || same_text(name, "tan") || same_text(name, "asin")
        || same_text(name, "acos") || same_text(name, "atan") || same_text(name, "sinh") || same_text(name, "cosh")
        || same_text(name, "tanh") || same_text(name, "floor") || same_text(name, "ceil") || same_text(name, "round")
        || same_text(name, "min") || same_text(name, "max") || same_text(name, "pow") || same_text(name, "pi")
        || same_text(name, "e") || same_text(name, "atan2") || same_text(name, "sign") || same_text(name, "fmod")
}

/// The names in a formula, in order, those of the expression language aside.
pub fn formula_refs(formula: &str) -> (r: Vec<String>)
    ensures
        crate::expression::texts(r@) == names_from(formula@, 0),
{
    let cs = characters(formula);
    let mut out: Vec<String> = Vec::new();
    let mut i: usize = 0;
    assert(crate::expression::texts(out@) =~= Seq::<Seq<char>>::empty());
    assert(Seq::<Seq<char>>::empty() + names_from(formula@, 0) =~= names_from(formula@, 0));
    while i < cs.len()
        invariant
            cs@ == formula@,
            i <= cs@.len(),
            crate::expression::texts(out@) + names_from(formula@, i as int) == names_from(formula@, 0),
        decreases cs@.len() - i,
    {
        if is_name_start(cs[i]) {
            let start: usize = i;
            while i < cs.len() && (is_name_start(cs[i]) || ('0' <= cs[i] && cs[i] <= '9'))
                invariant
                    cs@ == formula@,
                    start <= i <= cs@.len(),
                    name_end(formula@, start as int) == name_end(formula@, i as int),
                decreases cs@.len() - i,
            {
                i = i + 1;
            }
            proof {
                lemma_name_end(formula@, start as int);
            }
            let name = formula.substring_char(start, i);
            let ghost before = crate::expression::texts(out@);
            if !is_builtin(name) {
                out.push(name.to_owned());
                proof {
                    assert(crate::expression::texts(out@) =~= before.push(name@));
                    assert(before + (seq![name@] + names_from(formula@, i as int)) =~= before.push(name@) + names_from(
                        formula@,
                        i as int,
                    ));
                }
            }
        } else {
            i = i + 1;
        }
    }
    assert(crate::expression::texts(out@) + Seq::<Seq<char>>::empty() =~= crate::expression::texts(out@));
    out
}

// ---- short names ----

/// Where the last segment of an id begins, among its first `n` characters.
pub open spec fn segment_start(id: Seq<char>, n: int) -> int
    decreases n,
{
    if n <= 0 {
        0
    } else if id[n - 1] == '.' {
        n
    } else {
        segment_start(id, n - 1)
    }
}

/// The last segment of an id: what follows its last dot, or all of it.
pub open spec fn last_segment(id: Seq<char>) -> Seq<char> {
    id.subrange(segment_start(id, id.len() as int), id.len() as int)
}

/// The last segment of an id.
pub fn short_name(sensor_id: &str) -> (r: &str)
    ensures
        r@ == last_segment(sensor_id@),
{
    let cs = characters(sensor_id);
    let mut n: usize = cs.len();
    while n > 0 && cs[n - 1] != '.'
        invariant
            cs@ == sensor_id@,
            n <= cs@.len(),
            segment_start(sensor_id@, cs@.len() as int) == segment_start(sensor_id@, n as int),
        decreases n,
    {
        n = n - 1;
    }
    sensor_id.substring_char(n, cs.len())
}

// ---- what names stand for ----

/// The control of a name: the first one, from `i` on.
pub open spec fn control_index(controls: Seq<String>, name: Seq<char>, i: int) -> Option<int>
    decreases controls.len() - i,
{
    if i >= controls.len() {
        None
    } else if controls[i]@ == name {
        Some(i)
    } else {
        control_index(controls, name, i + 1)
    }
}

/// The sensor of an id: the first one, from `i` on.
pub open spec fn sensor_index(sensors: Seq<SensorFormula>, id: Seq<char>, i: int) -> Option<int>
    decreases sensors.len() - i,
{
    if i >= sensors.len() {
        None
    } else if sensors[i].id@ == id {
        Some(i)
    } else {
        sensor_index(sensors, id, i + 1)
    }
}

/// The sensor whose id ends in a name: the first one, from `i` on.
pub open spec fn short_index(sensors: Seq<SensorFormula>, name: Seq<char>, i: int) -> Option<int>
    decreases sensors.len() - i,
{
    if i >= sensors.len() {
        None
    } else if last_segment(sensors[i].id@) == name {
        Some(i)
    } else {
        short_index(sensors, name, i + 1)
    }
}

/// The target that an input maps a variable to: the first one, from `k` on.
pub open spec fn input_target(inputs: Seq<(String, String)>, name: Seq<char>, k: int) -> Option<Seq<char>>
    decreases inputs.len() - k,
{
    if k >= inputs.len() {
        None
    } else if inputs[k].0@ == name {
        Some(inputs[k].1@)
    } else {
        input_target(inputs, name, k + 1)
    }
}

/// The inputs are a mapping: no variable stands twice.
pub open spec fn distinct_variables(inputs: Seq<(String, String)>) -> bool {
    forall|i: int, j: int| #![trigger inputs[i], inputs[j]] 0 <= i < j < inputs.len() ==> inputs[i].0@ != inputs[j].0@
}

/// Whether the inputs are a mapping.
pub fn has_distinct_variables(inputs: &Vec<(String, String)>) -> (r: bool)
    ensures
        r == distinct_variables(inputs@),
{
    let mut j: usize = 0;
    while j < inputs.len()
        invariant
            j <= inputs@.len(),
            forall|a: int, b: int|
                #![trigger inputs@[a], inputs@[b]]
                0 <= a < b < j ==> inputs@[a].0@ != inputs@[b].0@,
        decreases inputs@.len() - j,
    {
        let mut i: usize = 0;
        while i < j
            invariant
                i <= j < inputs@.len(),
                forall|a: int| 0 <= a < i ==> (#[trigger] inputs@[a]).0@ != inputs@[j as int].0@,
            decreases j - i,
        {
            if same_string(&inputs[i].0, &inputs[j].0) {
                assert(inputs@[i as int].0@ == inputs@[j as int].0@);
                return false;
            }
            i = i + 1;
        }
        j = j + 1;
    }
    true
}

/// Every sensor has its own id, and its inputs are a mapping.
pub open spec fn sound_formulas(sensors: Seq<SensorFormula>) -> bool {
    &&& forall|i: int, j: int|
        #![trigger sensors[i], sensors[j]]
        0 <= i < j < sensors.len() ==> sensors[i].id@ != sensors[j].id@
    &&& forall|i: int| 0 <= i < sensors.len() ==> distinct_variables((#[trigger] sensors[i]).inputs@)
}

/// What a name is: a source of a value, a mapping to nothing known, or a name
/// that is left to the expression language.
pub enum Meaning {
    Stands(Source),
    Nothing,
    Unbound,
}

/// What the target of an input is.
pub open spec fn target_meaning(m: Model, target: Seq<char>) -> Meaning {
    if let Some(k) = control_index(m.controls@, target, 0) {
        Meaning::Stands(Source::Control(k as usize))
    } else if target == "t"@ {
        Meaning::Stands(Source::Time)
    } else if let Some(k) = sensor_index(m.sensors@, target, 0) {
        Meaning::Stands(Source::Sensor(k as usize))
    } else {
        Meaning::Nothing
    }
}

/// What a name in the formula of a sensor is: what the inputs map it to, else a
/// control, else the time, else the sensor whose id ends in it.
pub open spec fn meaning(m: Model, s: SensorFormula, name: Seq<char>) -> Meaning {
    if let Some(target) = input_target(s.inputs@, name, 0) {
        target_meaning(m, target)
    } else if let Some(k) = control_index(m.controls@, name, 0) {
        Meaning::Stands(Source::Control(k as usize))
    } else if name == "t"@ {
        Meaning::Stands(Source::Time)
    } else if let Some(k) = short_index(m.sensors@, name, 0) {
        Meaning::Stands(Source::Sensor(k as usize))
    } else {
        Meaning::Unbound
    }
}

pub(crate) fn find_control(controls: &Vec<String>, name: &str) -> (r: Option<usize>)
    ensures
        r is Some <==> control_index(controls@, name@, 0) is Some,
        r matches Some(k) ==> k < controls@.len() && control_index(controls@, name@, 0) == Some(k as int),
{
    let mut i: usize = 0;
    while i < controls.len()
        invariant
            i <= controls@.len(),
            control_index(controls@, name@, 0) == control_index(controls@, name@, i as int),
        decreases controls@.len() - i,
    {
        if same_text(controls[i].as_str(), name) {
            return Some(i);
        }
        i = i + 1;
    }
    None
}

pub(crate) fn find_sensor(sensors: &Vec<SensorFormula>, id: &str) -> (r: Option<usize>)
    ensures
        r is Some <==> sensor_index(sensors@, id@, 0) is Some,
        r matches Some(k) ==> k < sensors@.len() && sensor_index(sensors@, id@, 0) == Some(k as int),
{
    let mut i: usize = 0;
    while i < sensors.len()
        invariant
            i <= sensors@.len(),
            sensor_index(sensors@, id@, 0) == sensor_index(sensors@, id@, i as int),
        decreases sensors@.len() - i,
    {
        if same_text(sensors[i].id.as_str(), id) {
            return Some(i);
        }
        i = i + 1;
    }
    None
}

/// The sensor whose id ends in a name.
pub fn resolve_sensor(sensors: &Vec<SensorFormula>, name: &str) -> (r: Option<usize>)
    ensures
        r is Some <==> short_index(sensors@, name@, 0) is Some,
        r matches Some(k) ==> k < sensors@.len() && short_index(sensors@, name@, 0) == Some(k as int),
{
    let mut i: usize = 0;
    while i < sensors.len()
        invariant
            i <= sensors@.len(),
            short_index(sensors@, name@, 0) == short_index(sensors@, name@, i as int),
        decreases sensors@.len() - i,
    {
        if same_text(short_name(sensors[i].id.as_str()), name) {
            return Some(i);
        }
        i = i + 1;
    }
    None
}

fn find_target<'a>(inputs: &'a Vec<(String, String)>, name: &str) -> (r: Option<&'a String>)
    ensures
        r is Some <==> input_target(inputs@, name@, 0) is Some,
        r matches Some(t) ==> input_target(inputs@, name@, 0) == Some(t@),
{
    let mut k: usize = 0;
    while k < inputs.len()
        invariant
            k <= inputs@.len(),
            input_target(inputs@, name@, 0) == input_target(inputs@, name@, k as int),
        decreases inputs@.len() - k,
    {
        if same_text(inputs[k].0.as_str(), name) {
            return Some(&inputs[k].1);
        }
        k = k + 1;
    }
    None
}

/// What a mapping's target stands for; none where it is unknown.
pub fn value_of(m: &Model, target: &str) -> (r: Option<Source>)
    ensures
        match target_meaning(*m, target@) {
            Meaning::Stands(s) => r == Some(s) && known_source(*m, s),
            _ => r is None,
        },
{
    if let Some(k) = find_control(&m.controls, target) {
        return Some(Source::Control(k));
    }
    if same_text(target, "t") {
        return Some(Source::Time);
    }
    match find_sensor(&m.sensors, target) {
        Some(k) => Some(Source::Sensor(k)),
        None => None,
    }
}

/// The source exists in the model.
pub open spec fn known_source(m: Model, s: Source) -> bool {
    match s {
        Source::Control(k) => k < m.controls@.len(),
        Source::Time => true,
        Source::Sensor(k) => k < m.sensors@.len(),
    }
}

// ---- plans ----

/// The variables of a formula with what they stand for; each variable once, in
/// the order of the formula. Unusable where the formula cannot be evaluated
/// whatever the values are.
#[derive(Debug)]
pub struct SensorPlan {
    pub vars: Vec<String>,
    pub sources: Vec<Source>,
    pub usable: bool,
}

/// Variables and what they stand for.
pub struct Bindings {
    pub vars: Seq<Seq<char>>,
    pub sources: Seq<Source>,
}

/// The variables among the first `n` names; none where one of the names is
/// mapped to nothing.
pub open spec fn bindings(m: Model, s: SensorFormula, names: Seq<Seq<char>>, n: int) -> Option<Bindings>
    decreases n,
{
    if n <= 0 {
        Some(Bindings { vars: Seq::empty(), sources: Seq::empty() })
    } else {
        match bindings(m, s, names, n - 1) {
            None => None,
            Some(b) => match meaning(m, s, names[n - 1]) {
                Meaning::Nothing => None,
                Meaning::Unbound => Some(b),
                Meaning::Stands(x) => if b.vars.contains(names[n - 1]) {
                    Some(b)
                } else {
                    Some(Bindings { vars: b.vars.push(names[n - 1]), sources: b.sources.push(x) })
                },
            },
        }
    }
}

/// The variables of a sensor's formula.
pub open spec fn sensor_bindings(m: Model, s: SensorFormula) -> Option<Bindings> {
    let names = names_from(s.formula@, 0);
    bindings(m, s, names, names.len() as int)
}

fn holds(vars: &Vec<String>, name: &String) -> (r: bool)
    ensures
        r == crate::expression::texts(vars@).contains(name@),
{
    let mut i: usize = 0;
    while i < vars.len()
        invariant
            i <= vars@.len(),
            forall|j: int| 0 <= j < i ==> (#[trigger] vars@[j])@ != name@,
        decreases vars@.len() - i,
    {
        if same_string(&vars[i], name) {
            assert(crate::expression::texts(vars@)[i as int] == name@);
            return true;
        }
        i = i + 1;
    }
    assert forall|j: int| 0 <= j < vars@.len() implies crate::expression::texts(vars@)[j] != name@ by {
        assert(vars@[j]@ != name@);
    }
    false
}

/// `vars` and `sources` are these bindings.
pub open spec fn holds_bindings(vars: Seq<String>, sources: Seq<Source>, b: Bindings) -> bool {
    &&& crate::expression::texts(vars) == b.vars
    &&& sources == b.sources
}

/// The variables of the formula of sensor `i`; none where a variable is mapped
/// to nothing.
pub fn bind_variables(m: &Model, i: usize) -> (r: Option<(Vec<String>, Vec<Source>)>)
    requires
        i < m.sensors@.len(),
    ensures
        r is Some <==> sensor_bindings(*m, m.sensors@[i as int]) is Some,
        r matches Some(p) ==> {
            &&& holds_bindings(p.0@, p.1@, sensor_bindings(*m, m.sensors@[i as int])->0)
            &&& p.0@.len() == p.1@.len()
            &&& forall|k: int| 0 <= k < p.1@.len() ==> known_source(*m, #[trigger] p.1@[k])
        },
{
    let s = &m.sensors[i];
    let names = formula_refs(s.formula.as_str());
    let ghost all = names_from(s.formula@, 0);
    let mut vars: Vec<String> = Vec::new();
    let mut sources: Vec<Source> = Vec::new();
    let mut n: usize = 0;
    assert(crate::expression::texts(vars@) =~= Seq::<Seq<char>>::empty());
    while n < names.len()
        invariant
            n <= names@.len(),
            i < m.sensors@.len(),
            *s == m.sensors@[i as int],
            crate::expression::texts(names@) == all,
            all == names_from(s.formula@, 0),
            bindings(*m, *s, all, n as int) matches Some(b) && holds_bindings(vars@, sources@, b),
            vars@.len() == sources@.len(),
            forall|k: int| 0 <= k < sources@.len() ==> known_source(*m, #[trigger] sources@[k]),
        decreases names@.len() - n,
    {
        let name = &names[n];
        assert(name@ == all[n as int]);
        let mut source: Option<Source> = None;
        if let Some(target) = find_target(&s.inputs, name.as_str()) {
            source = value_of(m, target.as_str());
            if source.is_none() {
                proof {
                    lemma_missing(*m, *s, all, n + 1, all.len() as int);
                }
                return None;
            }
        } else if let Some(k) = find_control(&m.controls, name.as_str()) {
            source = Some(Source::Control(k));
        } else if same_text(name.as_str(), "t") {
            source = Some(Source::Time);
        } else if let Some(k) = resolve_sensor(&m.sensors, name.as_str()) {
            source = Some(Source::Sensor(k));
        }
        let ghost vars0 = vars@;
        match source {
            Some(x) => {
                if !holds(&vars, name) {
                    vars.push(name.clone());
                    sources.push(x);
                    assert(crate::expression::texts(vars@) =~= crate::expression::texts(vars0).push(name@));
                }
            },
            None => {},
        }
        n = n + 1;
    }
    Some((vars, sources))
}

proof fn lemma_missing(m: Model, s: SensorFormula, names: Seq<Seq<char>>, n: int, total: int)
    requires
        n <= total,
        bindings(m, s, names, n) is None,
    ensures
        bindings(m, s, names, total) is None,
    decreases total - n,
{
    if n < total {
        lemma_missing(m, s, names, n + 1, total);
    }
}

/// The plan of a sensor, given what the parser has against its formula and what
/// binding has against its variables.
pub open spec fn planned(
    m: Model,
    s: SensorFormula,
    parsing: Option<Seq<char>>,
    binding: Option<Seq<char>>,
    p: SensorPlan,
) -> bool {
    match sensor_bindings(m, s) {
        None => !p.usable && p.vars@.len() == 0 && p.sources@.len() == 0,
        Some(b) => {
            &&& holds_bindings(p.vars@, p.sources@, b)
            &&& p.usable == (parsing is None && binding is None)
        },
    }
}

/// The plan is consistent with the model.
pub open spec fn sound_plan(m: Model, p: SensorPlan) -> bool {
    &&& p.vars@.len() == p.sources@.len()
    &&& forall|k: int| 0 <= k < p.sources@.len() ==> known_source(m, #[trigger] p.sources@[k])
}

/// What binding has against the variables of a sensor's formula.
pub open spec fn formula_fault(m: Model, s: SensorFormula) -> Option<Seq<char>> {
    match sensor_bindings(m, s) {
        None => None,
        Some(b) => crate::expression::bind_fault(s.formula@, b.vars),
    }
}

/// The plan of sensor `i`, given what the parser has against its formula and
/// what binding has against its variables.
pub fn plan_sensor_given(m: &Model, i: usize, parsing: &Option<String>, binding: &Option<String>) -> (p: SensorPlan)
    requires
        i < m.sensors@.len(),
    ensures
        sound_plan(*m, p),
        planned(
            *m,
            m.sensors@[i as int],
            crate::expression::text_of(*parsing),
            crate::expression::text_of(*binding),
            p,
        ),
{
    match bind_variables(m, i) {
        None => SensorPlan { vars: Vec::new(), sources: Vec::new(), usable: false },
        Some((vars, sources)) => SensorPlan { vars, sources, usable: parsing.is_none() && binding.is_none() },
    }
}

/// The plan of sensor `i`.
pub fn plan_sensor(m: &Model, i: usize) -> (p: SensorPlan)
    requires
        i < m.sensors@.len(),
        !crate::expression::blank(m.sensors@[i as int].formula@),
    ensures
        sound_plan(*m, p),
        planned(
            *m,
            m.sensors@[i as int],
            crate::expression::parse_fault(m.sensors@[i as int].formula@),
            formula_fault(*m, m.sensors@[i as int]),
            p,
        ),
{
    let formula = m.sensors[i].formula.as_str();
    let parsing = crate::expression::check_expression(formula);
    let binding = match bind_variables(m, i) {
        None => None,
        Some((vars, _)) => crate::expression::check_binding(formula, &vars),
    };
    plan_sensor_given(m, i, &parsing, &binding)
}

/// No formula of the model is blank.
pub open spec fn readable_model(m: Model) -> bool {
    forall|i: int| 0 <= i < m.sensors@.len() ==> !crate::expression::blank((#[trigger] m.sensors@[i]).formula@)
}

/// One plan for every sensor.
pub open spec fn plans_model(m: Model, ps: Seq<SensorPlan>) -> bool {
    &&& ps.len() == m.sensors@.len()
    &&& forall|i: int|
        #![trigger ps[i]]
        0 <= i < ps.len() ==> sound_plan(m, ps[i]) && planned(
            m,
            m.sensors@[i],
            crate::expression::parse_fault(m.sensors@[i].formula@),
            formula_fault(m, m.sensors@[i]),
            ps[i],
        )
}

/// Plans every sensor of a model.
pub fn plan_model(m: &Model) -> (ps: Vec<SensorPlan>)
    requires
        readable_model(*m),
    ensures
        plans_model(*m, ps@),
{
    let mut ps: Vec<SensorPlan> = Vec::new();
    let mut i: usize = 0;
    while i < m.sensors.len()
        invariant
            i <= m.sensors@.len(),
            readable_model(*m),
            ps@.len() == i,
            forall|k: int|
                #![trigger ps@[k]]
                0 <= k < i ==> sound_plan(*m, ps@[k]) && planned(
                    *m,
                    m.sensors@[k],
                    crate::expression::parse_fault(m.sensors@[k].formula@),
                    formula_fault(*m, m.sensors@[k]),
                    ps@[k],
                ),
        decreases m.sensors@.len() - i,
    {
        assert(!crate::expression::blank(m.sensors@[i as int].formula@));
        ps.push(plan_sensor(m, i));
        i = i + 1;
    }
    ps
}

// ---- rounds ----

/// How far a sensor has come in a round.
#[derive(Debug, Clone, Copy, PartialEq, Eq, Structural)]
pub enum Progress {
    Pending,
    Known(Real),
    Failed,
}

/// The evaluation of every sensor at one time and for one setting of the
/// controls.
#[derive(Debug)]
pub struct Round {
    pub time: Real,
    pub controls: Vec<Real>,
    pub progress: Vec<Progress>,
}

/// An evaluation to be done: the expression, with each name standing for the
/// value beside it.
#[derive(Debug)]
pub struct Evaluation {
    pub expression: String,
    pub names: Vec<String>,
    pub values: Vec<Real>,
}

/// The value of a source in a round, where it has one.
pub open spec fn source_value(r: Round, s: Source) -> Option<Real> {
    match s {
        Source::Control(k) => Some(r.controls@[k as int]),
        Source::Time => Some(r.time),
        Source::Sensor(k) => match r.progress@[k as int] {
            Progress::Known(v) => Some(v),
            _ => None,
        },
    }
}

/// Every source of a plan has a value.
pub open spec fn supplied(r: Round, p: SensorPlan) -> bool {
    forall|k: int| 0 <= k < p.sources@.len() ==> source_value(r, #[trigger] p.sources@[k]) is Some
}

/// Sensor `i` can be evaluated now.
pub open spec fn ready(r: Round, ps: Seq<SensorPlan>, i: int) -> bool {
    0 <= i < ps.len() && r.progress@[i] == Progress::Pending && supplied(r, ps[i])
}

/// The round fits the model and its plans.
pub open spec fn round_fits(r: Round, m: Model, ps: Seq<SensorPlan>) -> bool {
    &&& ps.len() == m.sensors@.len()
    &&& r.progress@.len() == m.sensors@.len()
    &&& r.controls@.len() == m.controls@.len()
    &&& forall|i: int| 0 <= i < ps.len() ==> sound_plan(m, #[trigger] ps[i])
}

/// Begins a round: sensors that cannot be evaluated have failed already.
pub fn start_round(m: &Model, ps: &Vec<SensorPlan>, controls: Vec<Real>, time: Real) -> (r: Round)
    requires
        ps@.len() == m.sensors@.len(),
        controls@.len() == m.controls@.len(),
        forall|i: int| 0 <= i < ps@.len() ==> sound_plan(*m, #[trigger] ps@[i]),
    ensures
        round_fits(r, *m, ps@),
        r.time == time,
        r.controls@ == controls@,
        forall|i: int|
            0 <= i < ps@.len() ==> #[trigger] r.progress@[i] == (if ps@[i].usable {
                Progress::Pending
            } else {
                Progress::Failed
            }),
{
    let mut progress: Vec<Progress> = Vec::new();
    let mut i: usize = 0;
    while i < ps.len()
        invariant
            i <= ps@.len(),
            progress@.len() == i,
            forall|k: int|
                0 <= k < i ==> #[trigger] progress@[k] == (if ps@[k].usable {
                    Progress::Pending
                } else {
                    Progress::Failed
                }),
        decreases ps@.len() - i,
    {
        progress.push(
            if ps[i].usable {
                Progress::Pending
            } else {
                Progress::Failed
            },
        );
        i = i + 1;
    }
    Round { time, controls, progress }
}

/// The values of a plan's sources.
pub open spec fn supply_of(r: Round, p: SensorPlan) -> Seq<Real> {
    Seq::new(p.sources@.len(), |k: int| source_value(r, p.sources@[k])->0)
}

/// The evaluation is of this expression, with these names and values.
pub open spec fn asks(e: Evaluation, text: Seq<char>, names: Seq<Seq<char>>, values: Seq<Real>) -> bool {
    &&& e.expression@ == text
    &&& crate::expression::texts(e.names@) == names
    &&& e.values@ == values
}

/// The evaluation is that of sensor `i`, which is ready, by its plan.
pub open spec fn evaluates(r: Round, m: Model, ps: Seq<SensorPlan>, i: int, e: Evaluation) -> bool {
    &&& ready(r, ps, i)
    &&& asks(e, m.sensors@[i].formula@, crate::expression::texts(ps[i].vars@), supply_of(r, ps[i]))
}

impl Round {
    fn value(&self, s: Source) -> (r: Option<Real>)
        requires
            match s {
                Source::Control(k) => k < self.controls@.len(),
                Source::Time => true,
                Source::Sensor(k) => k < self.progress@.len(),
            },
        ensures
            r == source_value(*self, s),
    {
        match s {
            Source::Control(k) => Some(self.controls[k]),
            Source::Time => Some(self.time),
            Source::Sensor(k) => match self.progress[k] {
                Progress::Known(v) => Some(v),
                _ => None,
            },
        }
    }

    /// The values of a plan's sources, where all have one.
    fn supply(&self, m: &Model, p: &SensorPlan) -> (r: Option<Vec<Real>>)
        requires
            sound_plan(*m, *p),
            self.progress@.len() == m.sensors@.len(),
            self.controls@.len() == m.controls@.len(),
        ensures
            r is Some <==> supplied(*self, *p),
            r matches Some(vs) ==> vs@.len() == p.sources@.len() && forall|k: int|
                0 <= k < vs@.len() ==> Some(#[trigger] vs@[k]) == source_value(*self, p.sources@[k]),
    {
        let mut vs: Vec<Real> = Vec::new();
        let mut k: usize = 0;
        while k < p.sources.len()
            invariant
                sound_plan(*m, *p),
                self.progress@.len() == m.sensors@.len(),
                self.controls@.len() == m.controls@.len(),
                k <= p.sources@.len(),
                vs@.len() == k,
                forall|j: int| 0 <= j < k ==> Some(#[trigger] vs@[j]) == source_value(*self, p.sources@[j]),
                forall|j: int| 0 <= j < k ==> source_value(*self, #[trigger] p.sources@[j]) is Some,
            decreases p.sources@.len() - k,
        {
            assert(known_source(*m, p.sources@[k as int]));
            match self.value(p.sources[k]) {
                Some(v) => {
                    vs.push(v);
                },
                None => {
                    assert(source_value(*self, p.sources@[k as int]) is None);
                    return None;
                },
            }
            k = k + 1;
        }
        Some(vs)
    }

    /// The next sensor to evaluate, and its evaluation; none where no sensor
    /// can be evaluated any more.
    pub fn next(&self, m: &Model, ps: &Vec<SensorPlan>) -> (r: Option<(usize, Evaluation)>)
        requires
            round_fits(*self, *m, ps@),
        ensures
            r matches Some(n) ==> evaluates(*self, *m, ps@, n.0 as int, n.1),
            r is None ==> forall|i: int| !#[trigger] ready(*self, ps@, i),
    {
        let mut i: usize = 0;
        while i < ps.len()
            invariant
                i <= ps@.len(),
                round_fits(*self, *m, ps@),
                forall|j: int| 0 <= j < i ==> !#[trigger] ready(*self, ps@, j),
            decreases ps@.len() - i,
        {
            if self.progress[i] == Progress::Pending {
                assert(sound_plan(*m, ps@[i as int]));
                match self.supply(m, &ps[i]) {
                    Some(values) => {
                        let names = copy_names(&ps[i].vars);
                        assert(values@ =~= supply_of(*self, ps@[i as int]));
                        return Some((i, Evaluation { expression: m.sensors[i].formula.clone(), names, values }));
                    },
                    None => {},
                }
            }
            i = i + 1;
        }
        None
    }

    /// Takes the result of an evaluation: a finite one is the sensor's value,
    /// any other fails it.
    pub fn accept(&mut self, sensor: usize, value: Real)
        requires
            sensor < old(self).progress@.len(),
        ensures
            *final(self) == (Round { progress: final(self).progress, ..*old(self) }),
            final(self).progress@ == old(self).progress@.update(
                sensor as int,
                if value.finite() {
                    Progress::Known(value)
                } else {
                    Progress::Failed
                },
            ),
    {
        self.progress.set(
            sensor,
            if value.is_finite() {
                Progress::Known(value)
            } else {
                Progress::Failed
            },
        );
    }

    /// The value of a sensor, where it has one.
    pub fn value_at(&self, sensor: usize) -> (r: Option<Real>)
        requires
            sensor < self.progress@.len(),
        ensures
            r == source_value(*self, Source::Sensor(sensor)),
    {
        match self.progress[sensor] {
            Progress::Known(v) => Some(v),
            _ => None,
        }
    }
}

pub(crate) fn copy_names(names: &Vec<String>) -> (r: Vec<String>)
    ensures
        r@ == names@,
{
    let mut r: Vec<String> = Vec::new();
    let mut i: usize = 0;
    while i < names.len()
        invariant
            i <= names@.len(),
            r@ == names@.take(i as int),
        decreases names@.len() - i,
    {
        r.push(names[i].clone());
        assert(names@.take(i + 1) =~= names@.take(i as int).push(names@[i as int]));
        i = i + 1;
    }
    assert(names@.take(i as int) =~= names@);
    r
}

/// The sensors that a sensor refers to stand before it in `order`.
pub open spec fn references_first(ps: Seq<SensorPlan>, order: Seq<int>) -> bool {
    forall|a: int, k: int|
        #![trigger ps[order[a]].sources@[k]]
        0 <= a < order.len() && 0 <= k < ps[order[a]].sources@.len() ==> match ps[order[a]].sources@[k] {
            Source::Sensor(j) => exists|b: int| 0 <= b < a && #[trigger] order[b] == j,
            _ => true,
        }
}

/// Where the references between sensors have an order and no evaluation fails,
/// a round ends with a value for every sensor.
pub proof fn a_round_settles_every_sensor(r: Round, m: Model, ps: Seq<SensorPlan>, order: Seq<int>)
    requires
        round_fits(r, m, ps),
        references_first(ps, order),
        forall|a: int| 0 <= a < order.len() ==> 0 <= #[trigger] order[a] < ps.len(),
        forall|a: int| 0 <= a < order.len() ==> r.progress@[#[trigger] order[a]] != Progress::Failed,
        forall|i: int| !#[trigger] ready(r, ps, i),
    ensures
        forall|a: int| 0 <= a < order.len() ==> r.progress@[#[trigger] order[a]] is Known,
{
    lemma_settles(r, m, ps, order, order.len() as int);
}

proof fn lemma_settles(r: Round, m: Model, ps: Seq<SensorPlan>, order: Seq<int>, n: int)
    requires
        0 <= n <= order.len(),
        round_fits(r, m, ps),
        references_first(ps, order),
        forall|a: int| 0 <= a < order.len() ==> 0 <= #[trigger] order[a] < ps.len(),
        forall|a: int| 0 <= a < order.len() ==> r.progress@[#[trigger] order[a]] != Progress::Failed,
        forall|i: int| !#[trigger] ready(r, ps, i),
    ensures
        forall|a: int| 0 <= a < n ==> r.progress@[#[trigger] order[a]] is Known,
    decreases n,
{
    if n > 0 {
        lemma_settles(r, m, ps, order, n - 1);
        let i = order[n - 1];
        if r.progress@[i] == Progress::Pending {
            assert(supplied(r, ps[i])) by {
                assert forall|k: int| 0 <= k < ps[i].sources@.len() implies source_value(
                    r,
                    #[trigger] ps[i].sources@[k],
                ) is Some by {
                    let s = ps[order[n - 1]].sources@[k];
                    if let Source::Sensor(j) = s {
                        let b = choose|b: int| 0 <= b < n - 1 && #[trigger] order[b] == j;
                        assert(r.progress@[order[b]] is Known);
                    }
                }
            }
            assert(ready(r, ps, i));
        }
    }
}

/// A sensor that is without a value when a round ends has failed, or refers to
/// a sensor without a value.
pub proof fn a_value_is_missing_for_a_reason(r: Round, ps: Seq<SensorPlan>, i: int)
    requires
        0 <= i < ps.len(),
        r.progress@[i] == Progress::Pending,
        forall|j: int| !#[trigger] ready(r, ps, j),
    ensures
        exists|k: int| 0 <= k < ps[i].sources@.len() && source_value(r, #[trigger] ps[i].sources@[k]) is None,
{
    assert(!ready(r, ps, i));
}

// ---- the outcome of a round ----

/// What evaluations come to: `outcomes(text, names, values, v)` where `v` may be
/// the value of the expression for these values of its names.
pub type Outcomes = spec_fn(Seq<char>, Seq<Seq<char>>, Seq<Real>, Real) -> bool;

/// What a function of the caller's makes of evaluations.
pub open spec fn answers_of<F: Fn(Evaluation) -> Real>(f: F) -> Outcomes {
    |text: Seq<char>, names: Seq<Seq<char>>, values: Seq<Real>, v: Real|
        exists|e: Evaluation| #[trigger] f.ensures((e,), v) && asks(e, text, names, values)
}

/// `v` may be the value of sensor `i`.
pub open spec fn may_be(outcomes: Outcomes, m: Model, ps: Seq<SensorPlan>, r: Round, i: int, v: Real) -> bool {
    outcomes(m.sensors@[i].formula@, crate::expression::texts(ps[i].vars@), supply_of(r, ps[i]), v)
}

/// The sensors that sensor `i` refers to got their values before it did.
pub open spec fn supplied_before(r: Round, ps: Seq<SensorPlan>, rank: Seq<nat>, i: int) -> bool {
    forall|k: int|
        0 <= k < ps[i].sources@.len() ==> match #[trigger] ps[i].sources@[k] {
            Source::Sensor(j) => r.progress@[j as int] is Known && rank[j as int] < rank[i],
            _ => true,
        }
}

/// Sensor `i` is where the formulas have brought it; `rank` counts when it got
/// there.
pub open spec fn accounted(
    outcomes: Outcomes,
    m: Model,
    ps: Seq<SensorPlan>,
    r: Round,
    rank: Seq<nat>,
    i: int,
) -> bool {
    match r.progress@[i] {
        Progress::Known(v) => {
            &&& ps[i].usable
            &&& supplied_before(r, ps, rank, i)
            &&& may_be(outcomes, m, ps, r, i, v)
            &&& v.finite()
        },
        Progress::Failed => !ps[i].usable || (supplied_before(r, ps, rank, i) && exists|v: Real| #[trigger]
            may_be(outcomes, m, ps, r, i, v) && !v.finite()),
        Progress::Pending => ps[i].usable,
    }
}

/// Every sensor is where the formulas have brought it.
pub open spec fn explained(
    outcomes: Outcomes,
    m: Model,
    ps: Seq<SensorPlan>,
    r: Round,
    rank: Seq<nat>,
) -> bool {
    &&& rank.len() == ps.len()
    &&& forall|i: int| 0 <= i < ps.len() ==> #[trigger] accounted(outcomes, m, ps, r, rank, i)
}

/// A round that has just begun is explained.
pub proof fn a_new_round_is_explained(outcomes: Outcomes, m: Model, ps: Seq<SensorPlan>, r: Round)
    requires
        round_fits(r, m, ps),
        forall|i: int|
            0 <= i < ps.len() ==> #[trigger] r.progress@[i] == (if ps[i].usable {
                Progress::Pending
            } else {
                Progress::Failed
            }),
    ensures
        explained(outcomes, m, ps, r, Seq::new(ps.len(), |i: int| 0nat)),
{
    let rank = Seq::new(ps.len(), |i: int| 0nat);
    assert forall|i: int| 0 <= i < ps.len() implies #[trigger] accounted(outcomes, m, ps, r, rank, i) by {
        assert(r.progress@[i] == (if ps[i].usable {
            Progress::Pending
        } else {
            Progress::Failed
        }));
    }
}

/// The greatest of the first `n` ranks.
pub open spec fn greatest(rank: Seq<nat>, n: int) -> nat
    decreases n,
{
    if n <= 0 {
        0
    } else if rank[n - 1] > greatest(rank, n - 1) {
        rank[n - 1]
    } else {
        greatest(rank, n - 1)
    }
}

proof fn lemma_greatest(rank: Seq<nat>, n: int, i: int)
    requires
        0 <= i < n <= rank.len(),
    ensures
        rank[i] <= greatest(rank, n),
    decreases n,
{
    if i < n - 1 {
        lemma_greatest(rank, n - 1, i);
    }
}

/// The ranks after sensor `i` got its result last.
pub open spec fn ranked_last(rank: Seq<nat>, i: int) -> Seq<nat> {
    rank.update(i, greatest(rank, rank.len() as int) + 1)
}

/// Taking a result of the evaluation that is due keeps a round explained.
pub proof fn a_step_keeps_a_round_explained(
    outcomes: Outcomes,
    m: Model,
    ps: Seq<SensorPlan>,
    r: Round,
    rank: Seq<nat>,
    s: int,
    v: Real,
    after: Round,
)
    requires
        round_fits(r, m, ps),
        explained(outcomes, m, ps, r, rank),
        ready(r, ps, s),
        ps[s].usable,
        may_be(outcomes, m, ps, r, s, v),
        after == (Round { progress: after.progress, ..r }),
        after.progress@ == r.progress@.update(
            s,
            if v.finite() {
                Progress::Known(v)
            } else {
                Progress::Failed
            },
        ),
    ensures
        explained(outcomes, m, ps, after, ranked_last(rank, s)),
{
    let later = ranked_last(rank, s);
    assert forall|i: int| 0 <= i < ps.len() implies #[trigger] accounted(outcomes, m, ps, after, later, i) by {
        assert(accounted(outcomes, m, ps, r, rank, i));
        if i == s || (!(r.progress@[i] is Pending) && ps[i].usable) {
            assert(sound_plan(m, ps[i]));
            assert forall|k: int| 0 <= k < ps[i].sources@.len() implies (match #[trigger] ps[i].sources@[k] {
                Source::Sensor(j) => r.progress@[j as int] is Known && j != s && rank[j as int] < later[i],
                _ => true,
            }) by {
                if let Source::Sensor(j) = ps[i].sources@[k] {
                    assert(known_source(m, ps[i].sources@[k]));
                    if i == s {
                        assert(source_value(r, ps[s].sources@[k]) is Some);
                        lemma_greatest(rank, rank.len() as int, j as int);
                    } else {
                        assert(supplied_before(r, ps, rank, i));
                    }
                }
            }
            assert(supplied_before(after, ps, later, i));
            assert(supply_of(after, ps[i]) =~= supply_of(r, ps[i])) by {
                assert forall|k: int| 0 <= k < ps[i].sources@.len() implies source_value(after, ps[i].sources@[k])
                    == source_value(r, ps[i].sources@[k]) by {
                    if let Source::Sensor(j) = ps[i].sources@[k] {
                        assert(j != s);
                    }
                }
            }
            if i == s {
                assert(may_be(outcomes, m, ps, after, i, v));
            } else {
                assert(after.progress@[i] == r.progress@[i]);
                if r.progress@[i] == Progress::Failed {
                    let w = choose|w: Real| #[trigger] may_be(outcomes, m, ps, r, i, w) && !w.finite();
                    assert(may_be(outcomes, m, ps, after, i, w));
                }
            }
        }
    }
}

proof fn lemma_same_value(
    outcomes: Outcomes,
    m: Model,
    ps: Seq<SensorPlan>,
    a: Round,
    rank: Seq<nat>,
    b: Round,
    other: Seq<nat>,
    i: int,
)
    requires
        round_fits(a, m, ps),
        round_fits(b, m, ps),
        a.time == b.time,
        a.controls@ == b.controls@,
        single_valued(outcomes),
        explained(outcomes, m, ps, a, rank),
        explained(outcomes, m, ps, b, other),
        forall|j: int| !#[trigger] ready(b, ps, j),
        0 <= i < ps.len(),
        a.progress@[i] is Known,
    ensures
        b.progress@[i] == a.progress@[i],
    decreases rank[i],
{
    assert(sound_plan(m, ps[i]));
    assert(accounted(outcomes, m, ps, a, rank, i));
    assert(accounted(outcomes, m, ps, b, other, i));
    assert(supplied_before(a, ps, rank, i));
    assert forall|k: int| 0 <= k < ps[i].sources@.len() implies source_value(b, #[trigger] ps[i].sources@[k])
        == source_value(a, ps[i].sources@[k]) && source_value(a, ps[i].sources@[k]) is Some by {
        assert(known_source(m, ps[i].sources@[k]));
        if let Source::Sensor(j) = ps[i].sources@[k] {
            lemma_same_value(outcomes, m, ps, a, rank, b, other, j as int);
        }
    }
    assert(supplied(b, ps[i]));
    assert(!ready(b, ps, i));
    assert(supply_of(a, ps[i]) =~= supply_of(b, ps[i]));
}

/// An evaluation has at most one value.
pub open spec fn single_valued(outcomes: Outcomes) -> bool {
    forall|text: Seq<char>, names: Seq<Seq<char>>, values: Seq<Real>, v: Real, w: Real| #[trigger]
        outcomes(text, names, values, v) && #[trigger] outcomes(text, names, values, w) ==> v == w
}

/// The values that a round ends with follow from the formulas, the controls and
/// the time alone: in whatever order sensors were evaluated, two finished rounds
/// agree on every sensor.
pub proof fn finished_rounds_agree(
    outcomes: Outcomes,
    m: Model,
    ps: Seq<SensorPlan>,
    a: Round,
    rank: Seq<nat>,
    b: Round,
    other: Seq<nat>,
)
    requires
        round_fits(a, m, ps),
        round_fits(b, m, ps),
        a.time == b.time,
        a.controls@ == b.controls@,
        single_valued(outcomes),
        explained(outcomes, m, ps, a, rank),
        explained(outcomes, m, ps, b, other),
        forall|i: int| !#[trigger] ready(a, ps, i),
        forall|i: int| !#[trigger] ready(b, ps, i),
    ensures
        forall|j: usize|
            j < ps.len() ==> #[trigger] source_value(a, Source::Sensor(j)) == source_value(b, Source::Sensor(j)),
{
    assert forall|j: usize| j < ps.len() implies #[trigger] source_value(a, Source::Sensor(j)) == source_value(
        b,
        Source::Sensor(j),
    ) by {
        if a.progress@[j as int] is Known {
            lemma_same_value(outcomes, m, ps, a, rank, b, other, j as int);
        } else if b.progress@[j as int] is Known {
            lemma_same_value(outcomes, m, ps, b, other, a, rank, j as int);
        }
    }
}

// ---- whole rounds ----

/// The number of sensors, among the first `n`, that are still to be evaluated.
pub open spec fn pending(progress: Seq<Progress>, n: int) -> nat
    decreases n,
{
    if n <= 0 {
        0
    } else {
        pending(progress, n - 1) + (if progress[n - 1] is Pending {
            1nat
        } else {
            0nat
        })
    }
}

proof fn lemma_pending(progress: Seq<Progress>, after: Seq<Progress>, s: int, n: int)
    requires
        0 <= n <= progress.len(),
        0 <= s < progress.len(),
        progress[s] is Pending,
        after.len() == progress.len(),
        !(after[s] is Pending),
        forall|i: int| 0 <= i < progress.len() && i != s ==> #[trigger] after[i] == progress[i],
    ensures
        pending(after, n) == pending(progress, n) - (if s < n {
            1int
        } else {
            0int
        }),
    decreases n,
{
    if n > 0 {
        lemma_pending(progress, after, s, n - 1);
    }
}

/// The round is finished: no sensor is left that could be evaluated, and every
/// sensor is where the formulas have brought it.
pub open spec fn finished<F: Fn(Evaluation) -> Real>(
    f: F,
    m: Model,
    ps: Seq<SensorPlan>,
    controls: Seq<Real>,
    time: Real,
    r: Round,
) -> bool {
    &&& round_fits(r, m, ps)
    &&& r.time == time
    &&& r.controls@ == controls
    &&& forall|i: int| !#[trigger] ready(r, ps, i)
    &&& exists|rank: Seq<nat>| #[trigger] explained(answers_of(f), m, ps, r, rank)
}

/// Evaluates every sensor that can be evaluated, by `f`.
pub fn evaluate_all<F: Fn(Evaluation) -> Real>(
    m: &Model,
    ps: &Vec<SensorPlan>,
    controls: Vec<Real>,
    time: Real,
    f: &F,
) -> (r: Round)
    requires
        ps@.len() == m.sensors@.len(),
        controls@.len() == m.controls@.len(),
        forall|i: int| 0 <= i < ps@.len() ==> sound_plan(*m, #[trigger] ps@[i]),
        forall|e: Evaluation| f.requires((e,)),
    ensures
        finished(*f, *m, ps@, controls@, time, r),
{
    let ghost given = controls@;
    let mut r = start_round(m, ps, controls, time);
    let ghost outcomes = answers_of(*f);
    let ghost mut rank: Seq<nat> = Seq::new(ps@.len(), |i: int| 0nat);
    proof {
        a_new_round_is_explained(outcomes, *m, ps@, r);
    }
    loop
        invariant
            round_fits(r, *m, ps@),
            r.time == time,
            r.controls@ == given,
            given == controls@,
            outcomes == answers_of(*f),
            explained(outcomes, *m, ps@, r, rank),
            forall|e: Evaluation| f.requires((e,)),
        decreases pending(r.progress@, r.progress@.len() as int),
    {
        match r.next(m, ps) {
            Some((s, e)) => {
                let ghost before = r;
                let ghost asked = e;
                let v = f(e);
                r.accept(s, v);
                proof {
                    let i = s as int;
                    assert(f.ensures((asked,), v));
                    assert(may_be(outcomes, *m, ps@, before, i, v));
                    assert(accounted(outcomes, *m, ps@, before, rank, i));
                    a_step_keeps_a_round_explained(outcomes, *m, ps@, before, rank, i, v, r);
                    rank = ranked_last(rank, i);
                    lemma_pending(before.progress@, r.progress@, i, before.progress@.len() as int);
                }
            },
            None => {
                return r;
            },
        }
    }
}

} // verus!
