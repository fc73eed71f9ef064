//! The plant of the simulator: its settings, their validation, and the values
//! of controls and sensors.

use vstd::prelude::*;

use crate::engine::{Control, ControlFault, Engine};
use crate::evaluation::{Evaluation, Round, SensorFormula};
use crate::number::Real;
use crate::sim::layout::{Placement, Span};
use crate::simulation::copy_inputs;
use crate::text::join3;

verus! {

/// How a sensor's value is stored in registers.
#[derive(Debug, Clone, Copy, PartialEq, Eq, Structural)]
pub enum Storage {
    /// Two words, the higher one first: the value in binary32.
    F32,
    /// One word: the encoded value, as an integer.
    U16,
}

/// The address space that a sensor is found in.
#[derive(Debug, Clone, Copy, PartialEq, Eq, Structural)]
pub enum Area {
    Input,
    Holding,
    Coils,
}

/// A control of the plant.
#[derive(Debug, Clone)]
pub struct SimControl {
    /// The name that formulas use.
    pub name: String,
    pub initial: Real,
    pub unit: Option<String>,
    /// Whether it may be written.
    pub writable: bool,
    /// Its holding register; without one it comes behind all that have one.
    pub address: Option<u16>,
}

/// A sensor of the plant.
///
/// A variable of `formula` stands, in this order, for the target that `inputs`
/// maps it to, a control, the time `t` in seconds, or the sensor whose id ends
/// in that name.
#[derive(Debug, Clone)]
pub struct SimSensor {
    pub sensor_id: String,
    pub name: String,
    /// Kind of quantity, such as pressure or flow.
    pub kind: String,
    pub unit: Option<String>,
    pub formula: String,
    /// Variable name and what it stands for: a control or a sensor.
    pub inputs: Vec<(String, String)>,
    /// Its first cell; without one it comes behind all that have one.
    pub address: Option<u16>,
    pub area: Area,
    pub storage: Storage,
    /// The stored integer as an expression of the value `v`.
    pub encode: Option<String>,
}

/// The sensors of one side of the plant.
#[derive(Debug, Clone)]
pub struct Side {
    pub input: Vec<SimSensor>,
    pub output: Vec<SimSensor>,
    pub auxiliary: Vec<SimSensor>,
}

/// The settings of the plant.
#[derive(Debug, Clone)]
pub struct SimConfig {
    pub controls: Vec<SimControl>,
    /// Sensors of neither side.
    pub sensors: Vec<SimSensor>,
    /// The primary side.
    pub pri: Option<Side>,
    /// The secondary side.
    pub sec: Option<Side>,
}

/// The sensors of a side: those at the inlet, those at the outlet, the others.
pub open spec fn side_sensors(side: Option<Side>) -> Seq<SimSensor> {
    match side {
        Some(s) => s.input@ + s.output@ + s.auxiliary@,
        None => Seq::empty(),
    }
}

impl SimConfig {
    /// All sensors: the primary side, the secondary side, the others.
    pub open spec fn all_sensors(self) -> Seq<SimSensor> {
        side_sensors(self.pri) + side_sensors(self.sec) + self.sensors@
    }
}

/// The references are to these sensors.
pub open spec fn refers(r: Seq<&SimSensor>, all: Seq<SimSensor>) -> bool {
    &&& r.len() == all.len()
    &&& forall|i: int| 0 <= i < r.len() ==> *#[trigger] r[i] == all[i]
}

fn append_sensors<'a>(list: &mut Vec<&'a SimSensor>, more: &'a Vec<SimSensor>, Ghost(all): Ghost<Seq<SimSensor>>)
    requires
        refers(old(list)@, all),
    ensures
        refers(final(list)@, all + more@),
{
    let mut i: usize = 0;
    assert(all + more@.take(0) =~= all);
    while i < more.len()
        invariant
            i <= more@.len(),
            refers(list@, all + more@.take(i as int)),
        decreases more@.len() - i,
    {
        list.push(&more[i]);
        assert(all + more@.take(i + 1) =~= (all + more@.take(i as int)).push(more@[i as int]));
        i = i + 1;
    }
    assert(more@.take(i as int) =~= more@);
}

impl SimConfig {
    /// All sensors: the primary side, the secondary side, the others.
    pub fn iter_sensors(&self) -> (r: Vec<&SimSensor>)
        ensures
            refers(r@, self.all_sensors()),
    {
        let mut list: Vec<&SimSensor> = Vec::new();
        let ghost mut all: Seq<SimSensor> = Seq::empty();
        if let Some(side) = &self.pri {
            append_sensors(&mut list, &side.input, Ghost(all));
            append_sensors(&mut list, &side.output, Ghost(all + side.input@));
            append_sensors(&mut list, &side.auxiliary, Ghost(all + side.input@ + side.output@));
            proof {
                all = all + side.input@ + side.output@ + side.auxiliary@;
            }
        }
        assert(all =~= side_sensors(self.pri));
        if let Some(side) = &self.sec {
            append_sensors(&mut list, &side.input, Ghost(all));
            append_sensors(&mut list, &side.output, Ghost(all + side.input@));
            append_sensors(&mut list, &side.auxiliary, Ghost(all + side.input@ + side.output@));
            proof {
                all = all + side.input@ + side.output@ + side.auxiliary@;
            }
        }
        assert(all =~= side_sensors(self.pri) + side_sensors(self.sec));
        append_sensors(&mut list, &self.sensors, Ghost(all));
        list
    }
}

// ---- placement ----

/// The sensors of an area among the first `n`.
pub open spec fn in_area(all: Seq<SimSensor>, area: Area, n: int) -> Seq<int>
    decreases n,
{
    if n <= 0 {
        Seq::empty()
    } else if all[n - 1].area == area {
        in_area(all, area, n - 1).push(n - 1)
    } else {
        in_area(all, area, n - 1)
    }
}

pub open spec fn control_span(c: SimControl) -> Span {
    Span { address: c.address, wide: false }
}

/// A sensor stored in binary32 takes two registers; a coil is one cell.
pub open spec fn sensor_span(s: SimSensor) -> Span {
    Span { address: s.address, wide: s.storage == Storage::F32 && s.area != Area::Coils }
}

impl SimConfig {
    /// The controls in an area: all of them are holding registers.
    pub open spec fn area_controls(self, area: Area) -> Seq<SimControl> {
        if area == Area::Holding {
            self.controls@
        } else {
            Seq::empty()
        }
    }

    /// The sensors in an area, by their place among all sensors.
    pub open spec fn area_sensors(self, area: Area) -> Seq<int> {
        in_area(self.all_sensors(), area, self.all_sensors().len() as int)
    }

    /// What is placed in an area: controls, then sensors.
    pub open spec fn spans(self, area: Area) -> Seq<Span> {
        self.area_controls(area).map_values(|c: SimControl| control_span(c)) + self.area_sensors(area).map_values(
            |k: int| sensor_span(self.all_sensors()[k]),
        )
    }

    /// How an area is filled: holding registers have all addresses first, the other
    /// areas take the sensors in turn.
    pub open spec fn placement(area: Area) -> Placement {
        match area {
            Area::Holding => Placement::AddressesFirst,
            _ => Placement::InTurn,
        }
    }

    /// The first address of an item of an area.
    pub open spec fn address_of(self, area: Area, item: int) -> int {
        crate::sim::layout::start_of(Self::placement(area), self.spans(area), item)
    }

    /// No two items of an area have an address in common.
    pub open spec fn separate(self, area: Area) -> bool {
        crate::sim::layout::disjoint(Self::placement(area), self.spans(area))
    }

    /// The name of an item of an area.
    pub open spec fn label(self, area: Area, item: int) -> Seq<char> {
        let n = self.area_controls(area).len();
        if item < n {
            self.area_controls(area)[item].name@
        } else {
            self.all_sensors()[self.area_sensors(area)[item - n]].sensor_id@
        }
    }
}

proof fn lemma_in_area(all: Seq<SimSensor>, area: Area, n: int)
    requires
        0 <= n <= all.len(),
    ensures
        in_area(all, area, n).len() <= n,
        forall|k: int|
            0 <= k < in_area(all, area, n).len() ==> {
                &&& 0 <= #[trigger] in_area(all, area, n)[k] < n
                &&& all[in_area(all, area, n)[k]].area == area
            },
    decreases n,
{
    if n > 0 {
        lemma_in_area(all, area, n - 1);
    }
}

/// The sensors of an area have their place among all sensors, and are not
/// more.
pub(crate) proof fn lemma_area_sensors(c: SimConfig, area: Area)
    ensures
        c.area_sensors(area).len() <= c.all_sensors().len(),
        forall|k: int|
            0 <= k < c.area_sensors(area).len() ==> {
                &&& 0 <= #[trigger] c.area_sensors(area)[k] < c.all_sensors().len()
                &&& c.all_sensors()[c.area_sensors(area)[k]].area == area
            },
{
    lemma_in_area(c.all_sensors(), area, c.all_sensors().len() as int);
}

/// The places among all sensors of those in an area.
pub(crate) fn list_area(list: &Vec<&SimSensor>, area: Area, Ghost(all): Ghost<Seq<SimSensor>>) -> (r: Vec<usize>)
    requires
        refers(list@, all),
    ensures
        r@.map_values(|k: usize| k as int) == in_area(all, area, all.len() as int),
        forall|k: int| 0 <= k < r@.len() ==> #[trigger] r@[k] < all.len() && all[r@[k] as int].area == area,
{
    let mut r: Vec<usize> = Vec::new();
    let mut n: usize = 0;
    assert(r@.map_values(|k: usize| k as int) =~= Seq::<int>::empty());
    while n < list.len()
        invariant
            n <= list@.len(),
            refers(list@, all),
            r@.map_values(|k: usize| k as int) == in_area(all, area, n as int),
            forall|k: int| 0 <= k < r@.len() ==> #[trigger] r@[k] < all.len() && all[r@[k] as int].area == area,
        decreases list@.len() - n,
    {
        let ghost before = r@;
        assert(*list@[n as int] == all[n as int]);
        if list[n].area == area {
            r.push(n);
            assert(r@.map_values(|k: usize| k as int) =~= before.map_values(|k: usize| k as int).push(n as int));
        }
        n = n + 1;
    }
    r
}

impl SimConfig {
    /// What is placed in an area: controls, then sensors.
    pub(crate) fn list_spans(&self, area: Area, list: &Vec<&SimSensor>, chosen: &Vec<usize>) -> (r: Vec<Span>)
        requires
            refers(list@, self.all_sensors()),
            chosen@.map_values(|k: usize| k as int) == self.area_sensors(area),
            forall|k: int| 0 <= k < chosen@.len() ==> #[trigger] chosen@[k] < list@.len(),
        ensures
            r@ == self.spans(area),
    {
        let mut r: Vec<Span> = Vec::new();
        let ghost head = self.area_controls(area).map_values(|c: SimControl| control_span(c));
        if area == Area::Holding {
            let mut i: usize = 0;
            while i < self.controls.len()
                invariant
                    area == Area::Holding,
                    i <= self.controls@.len(),
                    r@ == self.controls@.take(i as int).map_values(|c: SimControl| control_span(c)),
                decreases self.controls@.len() - i,
            {
                let ghost before = r@;
                r.push(Span { address: self.controls[i].address, wide: false });
                assert(self.controls@.take(i + 1) =~= self.controls@.take(i as int).push(self.controls@[i as int]));
                assert(r@ =~= self.controls@.take(i + 1).map_values(|c: SimControl| control_span(c)));
                i = i + 1;
            }
            assert(self.controls@.take(i as int) =~= self.controls@);
        }
        assert(r@ =~= head);
        let ghost tail = self.area_sensors(area).map_values(|k: int| sensor_span(self.all_sensors()[k]));
        assert(head + tail.take(0) =~= head);
        assert(tail.len() == chosen@.len());
        let mut i: usize = 0;
        while i < chosen.len()
            invariant
                i <= chosen@.len(),
                refers(list@, self.all_sensors()),
                chosen@.map_values(|k: usize| k as int) == self.area_sensors(area),
                forall|k: int| 0 <= k < chosen@.len() ==> #[trigger] chosen@[k] < list@.len(),
                tail == self.area_sensors(area).map_values(|k: int| sensor_span(self.all_sensors()[k])),
                tail.len() == chosen@.len(),
                r@ == head + tail.take(i as int),
            decreases chosen@.len() - i,
        {
            let s = list[chosen[i]];
            let span = Span {
                address: s.address,
                wide: match s.storage {
                    Storage::F32 => s.area != Area::Coils,
                    Storage::U16 => false,
                },
            };
            assert(self.area_sensors(area)[i as int] == chosen@[i as int] as int);
            assert(span == tail[i as int]);
            assert(tail.take(i + 1) =~= tail.take(i as int).push(tail[i as int]));
            r.push(span);
            assert(r@ =~= head + tail.take(i + 1));
            i = i + 1;
        }
        assert(tail.take(i as int) =~= tail);
        r
    }
}

// ---- the running plant ----

/// The controls of the settings.
pub open spec fn controls_of(controls: Seq<SimControl>) -> Seq<Control> {
    Seq::new(
        controls.len(),
        |i: int| Control { name: controls[i].name, initial: controls[i].initial, writable: controls[i].writable },
    )
}

/// The formulas of the sensors, in their order.
pub open spec fn are_formulas_of(fs: Seq<SensorFormula>, all: Seq<SimSensor>) -> bool {
    &&& fs.len() == all.len()
    &&& forall|i: int|
        0 <= i < fs.len() ==> {
            &&& (#[trigger] fs[i]).id == all[i].sensor_id
            &&& fs[i].formula == all[i].formula
            &&& fs[i].inputs@ == all[i].inputs@
        }
}

/// Every sensor has its own id, and its inputs are a mapping.
pub open spec fn sound_sensors(all: Seq<SimSensor>) -> bool {
    &&& forall|i: int, j: int|
        #![trigger all[i], all[j]]
        0 <= i < j < all.len() ==> all[i].sensor_id@ != all[j].sensor_id@
    &&& forall|i: int| 0 <= i < all.len() ==> crate::evaluation::distinct_variables((#[trigger] all[i]).inputs@)
}

proof fn lemma_sound(fs: Seq<SensorFormula>, all: Seq<SimSensor>)
    requires
        are_formulas_of(fs, all),
        sound_sensors(all),
    ensures
        crate::evaluation::sound_formulas(fs),
{
    assert forall|i: int, j: int| #![trigger fs[i], fs[j]] 0 <= i < j < fs.len() implies fs[i].id@ != fs[j].id@ by {
        assert(fs[i].id == all[i].sensor_id && fs[j].id == all[j].sensor_id);
    }
    assert forall|i: int| 0 <= i < fs.len() implies crate::evaluation::distinct_variables((#[trigger] fs[i]).inputs@) by {
        assert(fs[i].inputs@ == all[i].inputs@);
    }
}

fn list_controls(controls: &Vec<SimControl>) -> (r: Vec<Control>)
    ensures
        r@ == controls_of(controls@),
{
    let mut r: Vec<Control> = Vec::new();
    let mut i: usize = 0;
    while i < controls.len()
        invariant
            i <= controls@.len(),
            r@.len() == i,
            forall|k: int| 0 <= k < i ==> #[trigger] r@[k] == controls_of(controls@)[k],
        decreases controls@.len() - i,
    {
        let c = &controls[i];
        r.push(Control { name: c.name.clone(), initial: c.initial, writable: c.writable });
        i = i + 1;
    }
    assert(r@ =~= controls_of(controls@));
    r
}

fn list_formulas(list: &Vec<&SimSensor>, Ghost(all): Ghost<Seq<SimSensor>>) -> (r: Vec<SensorFormula>)
    requires
        refers(list@, all),
    ensures
        are_formulas_of(r@, all),
{
    let mut r: Vec<SensorFormula> = Vec::new();
    let mut i: usize = 0;
    while i < list.len()
        invariant
            i <= list@.len(),
            refers(list@, all),
            are_formulas_of(r@, all.take(i as int)),
        decreases list@.len() - i,
    {
        let s = list[i];
        assert(*s == all[i as int]);
        r.push(
            SensorFormula { id: s.sensor_id.clone(), formula: s.formula.clone(), inputs: copy_inputs(&s.inputs) },
        );
        i = i + 1;
    }
    assert(all.take(i as int) =~= all);
    r
}

/// The ids and values of the sensors that have a value, among the first `n`.
pub open spec fn valued(e: SimEngine, round: Round, n: int) -> Seq<(String, Real)>
    decreases n,
{
    if n <= 0 {
        Seq::empty()
    } else {
        let id = e.sim.all_sensors()[n - 1].sensor_id;
        match e.engine.sensor_value(round, id@) {
            Some(v) => valued(e, round, n - 1).push((id, v)),
            None => valued(e, round, n - 1),
        }
    }
}

/// The message about a control that was not set.
pub open spec fn fault_text(fault: ControlFault, name: Seq<char>) -> Seq<char> {
    match fault {
        ControlFault::Unknown => "unknown control `"@ + name + "`"@,
        ControlFault::ReadOnly => "control `"@ + name + "` is read-only"@,
    }
}

/// The plant at work.
#[derive(Debug)]
pub struct SimEngine {
    pub sim: SimConfig,
    pub engine: Engine,
}

impl SimEngine {
    pub open spec fn wf(self) -> bool {
        &&& self.engine.wf()
        &&& are_formulas_of(self.engine.model.sensors@, self.sim.all_sensors())
        &&& self.engine.built_from(controls_of(self.sim.controls@), self.engine.model.sensors@)
    }

    /// A plant with every control at its initial value.
    pub fn new(sim: SimConfig) -> (r: SimEngine)
        requires
            crate::sim::rules::readable(sim),
            sound_sensors(sim.all_sensors()),
        ensures
            r.wf(),
            r.sim == sim,
            forall|i: int|
                0 <= i < sim.controls@.len() ==> Some(#[trigger] r.engine.values@[i])
                    == crate::engine::initial_value(
                    controls_of(sim.controls@),
                    sim.controls@[i].name@,
                    sim.controls@.len() as int,
                ),
    {
        let controls = list_controls(&sim.controls);
        let list = sim.iter_sensors();
        let formulas = list_formulas(&list, Ghost(sim.all_sensors()));
        assert forall|i: int| 0 <= i < formulas@.len() implies !crate::expression::blank(
            (#[trigger] formulas@[i]).formula@,
        ) by {
            assert(!crate::expression::blank(sim.all_sensors()[i].formula@));
        }
        proof {
            lemma_sound(formulas@, sim.all_sensors());
        }
        let engine = Engine::new(&controls, formulas);
        assert forall|i: int| 0 <= i < sim.controls@.len() implies Some(#[trigger] engine.values@[i])
            == crate::engine::initial_value(
            controls_of(sim.controls@),
            sim.controls@[i].name@,
            sim.controls@.len() as int,
        ) by {
            assert(controls@[i].name == sim.controls@[i].name);
        }
        SimEngine { sim, engine }
    }

    /// The settings.
    pub fn config(&self) -> (r: &SimConfig)
        ensures
            *r == self.sim,
    {
        &self.sim
    }

    /// The present value of a control; none where no control has that name.
    pub fn control(&self, name: &str) -> (r: Option<Real>)
        requires
            self.wf(),
        ensures
            r == self.engine.control_value(name@),
    {
        self.engine.control(name)
    }

    /// Sets a control that may be written.
    pub fn set_control(&mut self, name: &str, value: Real) -> (r: Result<(), String>)
        requires
            old(self).wf(),
        ensures
            final(self).wf(),
            final(self).sim == old(self).sim,
            exists|fault: Option<ControlFault>|
                {
                    &&& #[trigger] crate::engine::control_set(
                        old(self).engine,
                        name@,
                        value,
                        fault,
                        final(self).engine,
                    )
                    &&& match fault {
                        None => r is Ok,
                        Some(f) => r matches Err(m) && m@ == fault_text(f, name@),
                    }
                },
    {
        let ghost before = self.engine;
        match self.engine.set_control(name, value) {
            Ok(()) => {
                assert(crate::engine::control_set(before, name@, value, None, self.engine));
                Ok(())
            },
            Err(f) => {
                assert(crate::engine::control_set(before, name@, value, Some(f), self.engine));
                match f {
                    ControlFault::Unknown => Err(join3("unknown control `", name, "`")),
                    ControlFault::ReadOnly => Err(join3("control `", name, "` is read-only")),
                }
            },
        }
    }

    /// The sensors with their values, evaluated by `f`, `time` seconds after the
    /// start. A sensor without a value is left out.
    pub fn eval_all<F: Fn(Evaluation) -> Real>(&self, time: Real, f: &F) -> (r: Vec<(String, Real)>)
        requires
            self.wf(),
            forall|e: Evaluation| f.requires((e,)),
        ensures
            exists|round: Round| #[trigger]
                self.engine.evaluated(*f, time, round) && r@ == valued(
                    *self,
                    round,
                    self.sim.all_sensors().len() as int,
                ),
    {
        let round = self.engine.evaluate(time, f);
        let list = self.sim.iter_sensors();
        let mut r: Vec<(String, Real)> = Vec::new();
        let mut n: usize = 0;
        while n < list.len()
            invariant
                n <= list@.len(),
                self.wf(),
                self.engine.evaluated(*f, time, round),
                refers(list@, self.sim.all_sensors()),
                r@ == valued(*self, round, n as int),
            decreases list@.len() - n,
        {
            assert(*list@[n as int] == self.sim.all_sensors()[n as int]);
            match self.engine.value_of(&round, list[n].sensor_id.as_str()) {
                Some(v) => {
                    r.push((list[n].sensor_id.clone(), v));
                },
                None => {},
            }
            n = n + 1;
        }
        r
    }
}

} // verus!
