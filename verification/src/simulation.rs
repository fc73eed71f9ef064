//! The simulated device: samples computed from a steady-state model in place
//! of readings.

use vstd::prelude::*;

use crate::acquisition::AcquisitionError;
use crate::config::{RegisterConfig, SimConfig, SimControl, SimSensor};
use crate::domain::{copy_text, RawSample, SensorId};
use crate::engine::{Control, ControlFault, Engine};
use crate::evaluation::{find_sensor, Evaluation, Round, SensorFormula};
use crate::number::Real;
use crate::text::join3;

verus! {

/// A source of samples that follows the simulation settings.
#[derive(Debug)]
pub struct SimSource {
    pub sim: SimConfig,
    pub engine: Engine,
}

/// The controls of the settings.
pub open spec fn controls_of(controls: Seq<SimControl>) -> Seq<Control> {
    Seq::new(
        controls.len(),
        |i: int| Control { name: controls[i].name, initial: controls[i].initial, writable: controls[i].writable },
    )
}

/// The formula of a sensor.
pub open spec fn is_formula_of(f: SensorFormula, s: SimSensor) -> bool {
    &&& f.id == s.sensor_id
    &&& f.formula == s.formula
    &&& f.inputs@ == s.inputs@
}

/// The formulas of the sensors, in their order.
pub open spec fn are_formulas_of(fs: Seq<SensorFormula>, sensors: Seq<SimSensor>) -> bool {
    &&& fs.len() == sensors.len()
    &&& forall|i: int| 0 <= i < fs.len() ==> is_formula_of(#[trigger] fs[i], sensors[i])
}

/// No formula is blank.
pub open spec fn readable_sensors(sensors: Seq<SimSensor>) -> bool {
    forall|i: int| 0 <= i < sensors.len() ==> !crate::expression::blank((#[trigger] sensors[i]).formula@)
}

/// Every sensor has its own id, and its inputs are a mapping.
pub open spec fn sound_sensors(sensors: Seq<SimSensor>) -> bool {
    &&& forall|i: int, j: int|
        #![trigger sensors[i], sensors[j]]
        0 <= i < j < sensors.len() ==> sensors[i].sensor_id@ != sensors[j].sensor_id@
    &&& forall|i: int|
        0 <= i < sensors.len() ==> crate::evaluation::distinct_variables((#[trigger] sensors[i]).inputs@)
}

proof fn lemma_sound(fs: Seq<SensorFormula>, sensors: Seq<SimSensor>)
    requires
        are_formulas_of(fs, sensors),
        sound_sensors(sensors),
    ensures
        crate::evaluation::sound_formulas(fs),
{
    assert forall|i: int, j: int| #![trigger fs[i], fs[j]] 0 <= i < j < fs.len() implies fs[i].id@ != fs[j].id@ by {
        assert(is_formula_of(fs[i], sensors[i]) && is_formula_of(fs[j], sensors[j]));
    }
    assert forall|i: int| 0 <= i < fs.len() implies crate::evaluation::distinct_variables((#[trigger] fs[i]).inputs@) by {
        assert(is_formula_of(fs[i], sensors[i]));
    }
}

/// A copy of the mapping of variables.
pub(crate) fn copy_inputs(inputs: &Vec<(String, String)>) -> (r: Vec<(String, String)>)
    ensures
        r@ == inputs@,
{
    let mut r: Vec<(String, String)> = Vec::new();
    let mut i: usize = 0;
    while i < inputs.len()
        invariant
            i <= inputs@.len(),
            r@ == inputs@.take(i as int),
        decreases inputs@.len() - i,
    {
        r.push((inputs[i].0.clone(), inputs[i].1.clone()));
        assert(inputs@.take(i + 1) =~= inputs@.take(i as int).push(inputs@[i as int]));
        i = i + 1;
    }
    assert(inputs@.take(i as int) =~= inputs@);
    r
}

fn list_controls(controls: &Vec<SimControl>) -> (r: Vec<Control>)
    ensures
        r@ == controls_of(controls@),
{
    let mut r: Vec<Control> = Vec::new();
    let mut i: usize = 0;
    while i < controls.len()
        invariant
            i <= controls@.len(),
            r@.len() == i,
            forall|k: int| 0 <= k < i ==> #[trigger] r@[k] == controls_of(controls@)[k],
        decreases controls@.len() - i,
    {
        let c = &controls[i];
        r.push(Control { name: c.name.clone(), initial: c.initial, writable: c.writable });
        i = i + 1;
    }
    assert(r@ =~= controls_of(controls@));
    r
}

fn list_formulas(sensors: &Vec<SimSensor>) -> (r: Vec<SensorFormula>)
    ensures
        are_formulas_of(r@, sensors@),
{
    let mut r: Vec<SensorFormula> = Vec::new();
    let mut i: usize = 0;
    while i < sensors.len()
        invariant
            i <= sensors@.len(),
            r@.len() == i,
            forall|k: int| 0 <= k < i ==> is_formula_of(#[trigger] r@[k], sensors@[k]),
        decreases sensors@.len() - i,
    {
        let s = &sensors[i];
        r.push(
            SensorFormula { id: s.sensor_id.clone(), formula: s.formula.clone(), inputs: copy_inputs(&s.inputs) },
        );
        i = i + 1;
    }
    r
}

/// The sensor of an id: the first one, from `i` on.
pub open spec fn sensor_at(sensors: Seq<SimSensor>, id: Seq<char>, i: int) -> Option<int>
    decreases sensors.len() - i,
{
    if i >= sensors.len() {
        None
    } else if sensors[i].sensor_id@ == id {
        Some(i)
    } else {
        sensor_at(sensors, id, i + 1)
    }
}

proof fn lemma_sensor_at(fs: Seq<SensorFormula>, sensors: Seq<SimSensor>, id: Seq<char>, i: int)
    requires
        are_formulas_of(fs, sensors),
        0 <= i,
    ensures
        crate::evaluation::sensor_index(fs, id, i) == sensor_at(sensors, id, i),
        sensor_at(sensors, id, i) matches Some(k) ==> i <= k < sensors.len(),
    decreases sensors.len() - i,
{
    if i < sensors.len() {
        assert(is_formula_of(fs[i], sensors[i]));
        lemma_sensor_at(fs, sensors, id, i + 1);
    }
}

/// The sensors that the first `n` registers ask for.
pub open spec fn asked(sensors: Seq<SimSensor>, registers: Seq<RegisterConfig>, n: int) -> Seq<int>
    decreases n,
{
    if n <= 0 {
        Seq::empty()
    } else {
        match sensor_at(sensors, registers[n - 1].sensor_id@, 0) {
            Some(k) => asked(sensors, registers, n - 1).push(k),
            None => asked(sensors, registers, n - 1),
        }
    }
}

/// The sensors to sample: those that the registers ask for, or all of them
/// where no register is given.
pub open spec fn wanted(sensors: Seq<SimSensor>, registers: Seq<RegisterConfig>) -> Seq<int> {
    if registers.len() == 0 {
        Seq::new(sensors.len(), |i: int| i)
    } else {
        asked(sensors, registers, registers.len() as int)
    }
}

/// The samples of the first `n` sensors of a list; a sensor without a value
/// has none.
pub open spec fn sampled(s: SimSource, round: Round, list: Seq<int>, n: int, now: i64) -> Seq<RawSample>
    decreases n,
{
    if n <= 0 {
        Seq::empty()
    } else {
        let before = sampled(s, round, list, n - 1, now);
        let sensor = s.sim.sensors@[list[n - 1]];
        match s.engine.sensor_value(round, sensor.sensor_id@) {
            Some(v) => before.push(
                RawSample {
                    sensor_id: SensorId(sensor.sensor_id),
                    name: sensor.name,
                    raw_value: v,
                    unit: sensor.unit,
                    timestamp: now,
                },
            ),
            None => before,
        }
    }
}

/// The error of a write that the simulated device refuses.
pub open spec fn refused(e: AcquisitionError, message: Seq<char>) -> bool {
    e matches AcquisitionError::Config { device, message: m } && device@ == "sim"@ && m@ == message
}

fn refusal(before: &str, id: &str, after: &str) -> (e: AcquisitionError)
    ensures
        refused(e, before@ + id@ + after@),
{
    AcquisitionError::Config { device: "sim".to_owned(), message: join3(before, id, after) }
}

/// What a register write comes to: the control of that name takes the number, or
/// the write is refused and nothing changes.
pub open spec fn register_written(
    before: SimSource,
    id: Seq<char>,
    value: u16,
    after: SimSource,
    r: Result<(), AcquisitionError>,
) -> bool {
    match r {
        Ok(_) => exists|v: Real| #[trigger] v.is_integer(value as int) && crate::engine::control_set(
            before.engine,
            id,
            v,
            None,
            after.engine,
        ),
        Err(e) => {
            &&& after == before
            &&& match crate::evaluation::control_index(before.engine.model.controls@, id, 0) {
                None => refused(e, "unknown writable control `"@ + id + "`"@),
                Some(k) => !before.engine.writable@[k] && refused(e, "control `"@ + id + "` is read-only"@),
            }
        },
    }
}

/// What a coil write comes to: it is refused, and nothing changes.
pub open spec fn coil_refused(before: SimSource, id: Seq<char>, after: SimSource, r: Result<(), AcquisitionError>) -> bool {
    after == before && (r matches Err(e) && refused(e, "sim has no writable coil `"@ + id + "`"@))
}

impl SimSource {
    pub open spec fn wf(self) -> bool {
        &&& self.engine.wf()
        &&& are_formulas_of(self.engine.model.sensors@, self.sim.sensors@)
        &&& self.engine.built_from(controls_of(self.sim.controls@), self.engine.model.sensors@)
    }

    /// A source with every control at its initial value.
    pub fn new(sim: SimConfig) -> (r: SimSource)
        requires
            readable_sensors(sim.sensors@),
            sound_sensors(sim.sensors@),
        ensures
            r.wf(),
            r.sim == sim,
            forall|i: int|
                0 <= i < sim.controls@.len() ==> Some(#[trigger] r.engine.values@[i])
                    == crate::engine::initial_value(
                    controls_of(sim.controls@),
                    sim.controls@[i].name@,
                    sim.controls@.len() as int,
                ),
    {
        let controls = list_controls(&sim.controls);
        let formulas = list_formulas(&sim.sensors);
        assert forall|i: int| 0 <= i < formulas@.len() implies !crate::expression::blank(
            (#[trigger] formulas@[i]).formula@,
        ) by {
            assert(is_formula_of(formulas@[i], sim.sensors@[i]));
        }
        proof {
            lemma_sound(formulas@, sim.sensors@);
        }
        let engine = Engine::new(&controls, formulas);
        assert forall|i: int| 0 <= i < sim.controls@.len() implies Some(#[trigger] engine.values@[i])
            == crate::engine::initial_value(
            controls_of(sim.controls@),
            sim.controls@[i].name@,
            sim.controls@.len() as int,
        ) by {
            assert(controls@[i].name == sim.controls@[i].name);
        }
        SimSource { sim, engine }
    }

    /// The samples of the sensors that the registers ask for, or of all sensors
    /// where no register is given. Formulas are evaluated by `f`, `time` seconds
    /// after the start; the samples are of time `now`.
    pub fn read_samples<F: Fn(Evaluation) -> Real>(
        &self,
        registers: &Vec<RegisterConfig>,
        time: Real,
        now: i64,
        f: &F,
    ) -> (r: Result<Vec<RawSample>, AcquisitionError>)
        requires
            self.wf(),
            forall|e: Evaluation| f.requires((e,)),
        ensures
            r matches Ok(samples) && exists|round: Round| #[trigger]
                self.engine.evaluated(*f, time, round) && samples@ == sampled(
                    *self,
                    round,
                    wanted(self.sim.sensors@, registers@),
                    wanted(self.sim.sensors@, registers@).len() as int,
                    now,
                ),
    {
        let round = self.engine.evaluate(time, f);
        let samples = self.collect_samples(&round, registers, now);
        assert(self.engine.evaluated(*f, time, round));
        Ok(samples)
    }

    fn collect_samples(&self, round: &Round, registers: &Vec<RegisterConfig>, now: i64) -> (r: Vec<RawSample>)
        requires
            self.wf(),
            crate::evaluation::round_fits(*round, self.engine.model, self.engine.plans@),
        ensures
            r@ == sampled(
                *self,
                *round,
                wanted(self.sim.sensors@, registers@),
                wanted(self.sim.sensors@, registers@).len() as int,
                now,
            ),
    {
        let mut list: Vec<usize> = Vec::new();
        if registers.len() == 0 {
            let mut i: usize = 0;
            while i < self.sim.sensors.len()
                invariant
                    i <= self.sim.sensors@.len(),
                    list@.len() == i,
                    forall|k: int| 0 <= k < i ==> #[trigger] list@[k] == k,
                decreases self.sim.sensors@.len() - i,
            {
                list.push(i);
                i = i + 1;
            }
        } else {
            let mut i: usize = 0;
            while i < registers.len()
                invariant
                    i <= registers@.len(),
                    self.wf(),
                    list@.len() == asked(self.sim.sensors@, registers@, i as int).len(),
                    forall|k: int|
                        0 <= k < list@.len() ==> #[trigger] list@[k] == asked(
                            self.sim.sensors@,
                            registers@,
                            i as int,
                        )[k] && list@[k] < self.sim.sensors@.len(),
                decreases registers@.len() - i,
            {
                proof {
                    lemma_sensor_at(
                        self.engine.model.sensors@,
                        self.sim.sensors@,
                        registers@[i as int].sensor_id@,
                        0,
                    );
                }
                match find_sensor(&self.engine.model.sensors, registers[i].sensor_id.as_str()) {
                    Some(k) => {
                        list.push(k);
                    },
                    None => {},
                }
                i = i + 1;
            }
        }
        let ghost chosen = wanted(self.sim.sensors@, registers@);
        assert(list@.len() == chosen.len());
        let mut samples: Vec<RawSample> = Vec::new();
        let mut n: usize = 0;
        while n < list.len()
            invariant
                n <= list@.len(),
                self.wf(),
                crate::evaluation::round_fits(*round, self.engine.model, self.engine.plans@),
                list@.len() == chosen.len(),
                forall|k: int|
                    0 <= k < list@.len() ==> #[trigger] list@[k] == chosen[k] && list@[k] < self.sim.sensors@.len(),
                samples@ == sampled(*self, *round, chosen, n as int, now),
            decreases list@.len() - n,
        {
            let sensor = &self.sim.sensors[list[n]];
            match self.engine.value_of(round, sensor.sensor_id.as_str()) {
                Some(v) => {
                    samples.push(
                        RawSample {
                            sensor_id: SensorId(sensor.sensor_id.clone()),
                            name: sensor.name.clone(),
                            raw_value: v,
                            unit: copy_text(&sensor.unit),
                            timestamp: now,
                        },
                    );
                },
                None => {},
            }
            n = n + 1;
        }
        samples
    }

    /// Writes a register: the control of that name takes the value.
    pub fn write_holding_register(&mut self, sensor_id: &str, value: u16) -> (r: Result<(), AcquisitionError>)
        requires
            old(self).wf(),
        ensures
            final(self).wf(),
            final(self).sim == old(self).sim,
            register_written(*old(self), sensor_id@, value, *final(self), r),
            exists|v: Real, fault: Option<ControlFault>|
                {
                    &&& v.is_integer(value as int)
                    &&& #[trigger] crate::engine::control_set(
                        old(self).engine,
                        sensor_id@,
                        v,
                        fault,
                        final(self).engine,
                    )
                    &&& match fault {
                        None => r is Ok,
                        Some(ControlFault::Unknown) => r matches Err(e) && refused(
                            e,
                            "unknown writable control `"@ + sensor_id@ + "`"@,
                        ),
                        Some(ControlFault::ReadOnly) => r matches Err(e) && refused(
                            e,
                            "control `"@ + sensor_id@ + "` is read-only"@,
                        ),
                    }
                },
    {
        let v = Real::from_integer(value as i64);
        let ghost before = self.engine;
        let set = self.engine.set_control(sensor_id, v);
        match set {
            Ok(()) => {
                assert(crate::engine::control_set(before, sensor_id@, v, None, self.engine));
                Ok(())
            },
            Err(ControlFault::ReadOnly) => {
                assert(crate::engine::control_set(
                    before,
                    sensor_id@,
                    v,
                    Some(ControlFault::ReadOnly),
                    self.engine,
                ));
                Err(refusal("control `", sensor_id, "` is read-only"))
            },
            Err(ControlFault::Unknown) => {
                assert(crate::engine::control_set(
                    before,
                    sensor_id@,
                    v,
                    Some(ControlFault::Unknown),
                    self.engine,
                ));
                Err(refusal("unknown writable control `", sensor_id, "`"))
            },
        }
    }

    /// Writes a coil: the simulated device has none.
    pub fn write_single_coil(&mut self, sensor_id: &str, value: bool) -> (r: Result<(), AcquisitionError>)
        ensures
            *final(self) == *old(self),
            r matches Err(e) && refused(e, "sim has no writable coil `"@ + sensor_id@ + "`"@),
            coil_refused(*old(self), sensor_id@, *final(self), r),
    {
        Err(refusal("sim has no writable coil `", sensor_id, "`"))
    }
}

/// After a register write to a writable control, the sensors are evaluated with
/// the value that was written, and with the values that the other controls had.
pub proof fn a_written_control_drives_the_sensors<F: Fn(Evaluation) -> Real>(
    before: SimSource,
    after: SimSource,
    name: Seq<char>,
    value: Real,
    f: F,
    time: Real,
    round: Round,
)
    requires
        before.wf(),
        crate::engine::control_set(before.engine, name, value, None, after.engine),
        after.engine.evaluated(f, time, round),
    ensures
        forall|k: int|
            0 <= k < before.engine.model.controls@.len() ==> #[trigger] round.controls@[k] == (if Some(k)
                == crate::evaluation::control_index(before.engine.model.controls@, name, 0) {
                value
            } else {
                before.engine.values@[k]
            }),
{
    crate::engine::lemma_control_name(before.engine.model.controls@, name, 0);
}

} // verus!
