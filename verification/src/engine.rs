//! A simulated plant: controls with their present values, and sensors whose
//! values follow from them.

use vstd::prelude::*;

use crate::evaluation::{
    evaluate_all, find_control, find_sensor, plan_model, Evaluation, Model, Round, SensorFormula, SensorPlan,
};
use crate::number::Real;
use crate::text::same_string;

verus! {

/// A control of the plant.
#[derive(Debug)]
pub struct Control {
    pub name: String,
    pub initial: Real,
    pub writable: bool,
}

/// The plant: what is planned for every sensor, and the value of every control.
#[derive(Debug)]
pub struct Engine {
    pub model: Model,
    pub plans: Vec<SensorPlan>,
    pub writable: Vec<bool>,
    pub values: Vec<Real>,
}

/// Why a control was not set.
#[derive(Debug, Clone, Copy, PartialEq, Eq, Structural)]
pub enum ControlFault {
    Unknown,
    ReadOnly,
}

/// The initial value for a name: that of the last control, among the first
/// `n`, of that name.
pub open spec fn initial_value(controls: Seq<Control>, name: Seq<char>, n: int) -> Option<Real>
    decreases n,
{
    if n <= 0 {
        None
    } else if controls[n - 1].name@ == name {
        Some(controls[n - 1].initial)
    } else {
        initial_value(controls, name, n - 1)
    }
}

/// No formula is blank.
pub open spec fn readable_formulas(sensors: Seq<SensorFormula>) -> bool {
    forall|i: int| 0 <= i < sensors.len() ==> !crate::expression::blank((#[trigger] sensors[i]).formula@)
}

fn find_initial(controls: &Vec<Control>, name: &String) -> (r: Option<Real>)
    ensures
        r == initial_value(controls@, name@, controls@.len() as int),
{
    let mut n: usize = controls.len();
    while n > 0
        invariant
            n <= controls@.len(),
            initial_value(controls@, name@, controls@.len() as int) == initial_value(controls@, name@, n as int),
        decreases n,
    {
        if same_string(&controls[n - 1].name, name) {
            return Some(controls[n - 1].initial);
        }
        n = n - 1;
    }
    None
}

proof fn lemma_has_initial(controls: Seq<Control>, i: int, n: int)
    requires
        0 <= i < n <= controls.len(),
    ensures
        initial_value(controls, controls[i].name@, n) is Some,
    decreases n,
{
    if i < n - 1 {
        lemma_has_initial(controls, i, n - 1);
    }
}

fn copy_reals(values: &Vec<Real>) -> (r: Vec<Real>)
    ensures
        r@ == values@,
{
    let mut r: Vec<Real> = Vec::new();
    let mut i: usize = 0;
    while i < values.len()
        invariant
            i <= values@.len(),
            r@ == values@.take(i as int),
        decreases values@.len() - i,
    {
        r.push(values[i]);
        assert(values@.take(i + 1) =~= values@.take(i as int).push(values@[i as int]));
        i = i + 1;
    }
    assert(values@.take(i as int) =~= values@);
    r
}

/// What setting a control comes to: the fault, if any, and the plant after it.
pub open spec fn control_set(before: Engine, name: Seq<char>, value: Real, fault: Option<ControlFault>, after: Engine) -> bool {
    match crate::evaluation::control_index(before.model.controls@, name, 0) {
        None => fault == Some(ControlFault::Unknown) && after == before,
        Some(k) => if !before.writable@[k] {
            fault == Some(ControlFault::ReadOnly) && after == before
        } else {
            &&& fault is None
            &&& after == (Engine { values: after.values, ..before })
            &&& after.values@ == before.values@.update(k, value)
        },
    }
}

impl Engine {
    pub open spec fn wf(self) -> bool {
        &&& crate::evaluation::sound_formulas(self.model.sensors@)
        &&& crate::evaluation::plans_model(self.model, self.plans@)
        &&& self.writable@.len() == self.model.controls@.len()
        &&& self.values@.len() == self.model.controls@.len()
    }

    /// The controls and the sensors are these.
    pub open spec fn built_from(self, controls: Seq<Control>, sensors: Seq<SensorFormula>) -> bool {
        &&& self.model.sensors@ == sensors
        &&& self.model.controls@ == Seq::new(controls.len(), |i: int| controls[i].name)
        &&& self.writable@ == Seq::new(controls.len(), |i: int| controls[i].writable)
    }

    /// The present value of a control; none where no control has that name.
    pub open spec fn control_value(self, name: Seq<char>) -> Option<Real> {
        match crate::evaluation::control_index(self.model.controls@, name, 0) {
            Some(k) => Some(self.values@[k]),
            None => None,
        }
    }

    /// The value of a sensor in a round; none where no sensor has that id, or
    /// where it has no value.
    pub open spec fn sensor_value(self, round: Round, id: Seq<char>) -> Option<Real> {
        match crate::evaluation::sensor_index(self.model.sensors@, id, 0) {
            Some(k) => crate::evaluation::source_value(round, crate::evaluation::Source::Sensor(k as usize)),
            None => None,
        }
    }

    /// A plant with every control at its initial value.
    pub fn new(controls: &Vec<Control>, sensors: Vec<SensorFormula>) -> (r: Engine)
        requires
            readable_formulas(sensors@),
            crate::evaluation::sound_formulas(sensors@),
        ensures
            r.wf(),
            r.built_from(controls@, sensors@),
            forall|i: int|
                0 <= i < controls@.len() ==> Some(#[trigger] r.values@[i]) == initial_value(
                    controls@,
                    controls@[i].name@,
                    controls@.len() as int,
                ),
    {
        let mut names: Vec<String> = Vec::new();
        let mut writable: Vec<bool> = Vec::new();
        let mut values: Vec<Real> = Vec::new();
        let mut i: usize = 0;
        while i < controls.len()
            invariant
                i <= controls@.len(),
                names@.len() == i,
                writable@.len() == i,
                values@.len() == i,
                forall|k: int| 0 <= k < i ==> #[trigger] names@[k] == controls@[k].name,
                forall|k: int| 0 <= k < i ==> #[trigger] writable@[k] == controls@[k].writable,
                forall|k: int|
                    0 <= k < i ==> Some(#[trigger] values@[k]) == initial_value(
                        controls@,
                        controls@[k].name@,
                        controls@.len() as int,
                    ),
            decreases controls@.len() - i,
        {
            names.push(controls[i].name.clone());
            writable.push(controls[i].writable);
            proof {
                lemma_has_initial(controls@, i as int, controls@.len() as int);
            }
            match find_initial(controls, &controls[i].name) {
                Some(v) => {
                    values.push(v);
                },
                None => {
                    values.push(controls[i].initial);
                },
            }
            i = i + 1;
        }
        assert(names@ =~= Seq::new(controls@.len(), |i: int| controls@[i].name));
        assert(writable@ =~= Seq::new(controls@.len(), |i: int| controls@[i].writable));
        let model = Model { controls: names, sensors };
        let plans = plan_model(&model);
        Engine { model, plans, writable, values }
    }

    /// The present value of a control.
    pub fn control(&self, name: &str) -> (r: Option<Real>)
        requires
            self.wf(),
        ensures
            r == self.control_value(name@),
    {
        match find_control(&self.model.controls, name) {
            Some(k) => Some(self.values[k]),
            None => None,
        }
    }

    /// Sets a control that may be written.
    pub fn set_control(&mut self, name: &str, value: Real) -> (r: Result<(), ControlFault>)
        requires
            old(self).wf(),
        ensures
            final(self).wf(),
            control_set(
                *old(self),
                name@,
                value,
                match r {
                    Ok(_) => None,
                    Err(e) => Some(e),
                },
                *final(self),
            ),
    {
        match find_control(&self.model.controls, name) {
            None => Err(ControlFault::Unknown),
            Some(k) => {
                if !self.writable[k] {
                    return Err(ControlFault::ReadOnly);
                }
                self.values.set(k, value);
                Ok(())
            },
        }
    }

    /// The round was evaluated by `f`, for the present values of the controls,
    /// `time` seconds after the start.
    pub open spec fn evaluated<F: Fn(Evaluation) -> Real>(self, f: F, time: Real, round: Round) -> bool {
        crate::evaluation::finished(f, self.model, self.plans@, self.values@, time, round)
    }

    /// Evaluates every sensor by `f`, for the present values of the controls,
    /// `time` seconds after the start.
    pub fn evaluate<F: Fn(Evaluation) -> Real>(&self, time: Real, f: &F) -> (r: Round)
        requires
            self.wf(),
            forall|e: Evaluation| f.requires((e,)),
        ensures
            self.evaluated(*f, time, r),
    {
        evaluate_all(&self.model, &self.plans, copy_reals(&self.values), time, f)
    }

    /// The value of a sensor in a round.
    pub fn value_of(&self, round: &Round, id: &str) -> (r: Option<Real>)
        requires
            round.progress@.len() == self.model.sensors@.len(),
        ensures
            r == self.sensor_value(*round, id@),
    {
        match find_sensor(&self.model.sensors, id) {
            Some(k) => round.value_at(k),
            None => None,
        }
    }
}

pub(crate) proof fn lemma_control_name(controls: Seq<String>, name: Seq<char>, i: int)
    requires
        0 <= i,
    ensures
        crate::evaluation::control_index(controls, name, i) matches Some(k) ==> i <= k < controls.len() && controls[k]@
            == name,
    decreases controls.len() - i,
{
    if i < controls.len() && controls[i]@ != name {
        lemma_control_name(controls, name, i + 1);
    }
}

/// A control that was set has the value that was given, and every other
/// control the value that it had.
pub proof fn a_set_control_is_read_back(before: Engine, name: Seq<char>, value: Real, after: Engine)
    requires
        before.wf(),
        control_set(before, name, value, None, after),
    ensures
        after.control_value(name) == Some(value),
        forall|other: Seq<char>| other != name ==> #[trigger] after.control_value(other) == before.control_value(other),
{
    lemma_control_name(before.model.controls@, name, 0);
    assert forall|other: Seq<char>| other != name implies #[trigger] after.control_value(other)
        == before.control_value(other) by {
        lemma_control_name(before.model.controls@, other, 0);
    }
}

/// A control that was not set leaves the plant as it was.
pub proof fn a_refused_control_changes_nothing(before: Engine, name: Seq<char>, value: Real, fault: ControlFault, after: Engine)
    requires
        control_set(before, name, value, Some(fault), after),
    ensures
        after == before,
{
}

} // verus!
