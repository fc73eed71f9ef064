//! The web interface of the simulator: the state that it shows, and the setting
//! of controls.

use vstd::prelude::*;

use crate::domain::copy_text;
use crate::engine::ControlFault;
use crate::evaluation::Evaluation;
use crate::number::Real;
use crate::sim::model::{Side, SimControl, SimSensor, Storage};
use crate::sim::registers::{HoldingSlot, InputSlot, Readings};
use crate::sim::server::SimSlaveState;

verus! {

/// How often the state is sent to open connections, in milliseconds.
pub const WS_INTERVAL_MS: u64 = 500;

/// A control as it is shown.
#[derive(Debug)]
pub struct ControlView {
    pub name: String,
    pub value: Real,
    pub unit: Option<String>,
    pub writable: bool,
}

/// A sensor as it is shown.
#[derive(Debug)]
pub struct SensorView {
    pub sensor_id: String,
    pub name: String,
    pub kind: String,
    pub unit: Option<String>,
    pub formula: String,
    pub value: Option<Real>,
}

/// The sensors of one side as they are shown.
#[derive(Debug)]
pub struct SideView {
    pub input: Vec<SensorView>,
    pub output: Vec<SensorView>,
    pub auxiliary: Vec<SensorView>,
}

/// What stands behind a holding register.
#[derive(Debug)]
pub enum SlotView {
    Control { control: String, writable: bool },
    Sensor { sensor: String, storage: Storage },
}

/// A holding register as it is shown.
#[derive(Debug)]
pub struct HoldingView {
    pub addr: usize,
    pub slot: Option<SlotView>,
    pub raw: u16,
}

/// A sensor among the input registers as it is shown.
#[derive(Debug)]
pub struct InputView {
    pub addr: usize,
    pub sensor: String,
    pub storage: Storage,
    pub raw_hi: u16,
    /// The second word of a value in binary32.
    pub raw_lo: Option<u16>,
    /// The binary32 encoding of both words.
    pub value_f32: Option<u32>,
}

/// The whole state as it is shown.
#[derive(Debug)]
pub struct StateView {
    pub controls: Vec<ControlView>,
    pub pri: Option<SideView>,
    pub sec: Option<SideView>,
    /// All sensors: the primary side, the secondary side, the others.
    pub sensors: Vec<SensorView>,
    pub holding: Vec<HoldingView>,
    pub inputs: Vec<InputView>,
}

// ---- controls and sensors ----

/// A control and its present value.
pub open spec fn control_shown(s: SimSlaveState, c: SimControl) -> ControlView {
    ControlView {
        name: c.name,
        value: match s.engine.engine.control_value(c.name@) {
            Some(v) => v,
            None => c.initial,
        },
        unit: c.unit,
        writable: c.writable,
    }
}

/// A sensor and its value.
pub open spec fn sensor_shown(x: SimSensor, value: Option<Real>) -> SensorView {
    SensorView {
        sensor_id: x.sensor_id,
        name: x.name,
        kind: x.kind,
        unit: x.unit,
        formula: x.formula,
        value,
    }
}

/// Sensors shown with their values: those of the readings from `from` on.
pub open spec fn sensors_shown(views: Seq<SensorView>, list: Seq<SimSensor>, readings: Readings, from: int) -> bool {
    &&& views.len() == list.len()
    &&& forall|i: int|
        0 <= i < views.len() ==> #[trigger] views[i] == sensor_shown(list[i], readings.values@[from + i])
}

/// A side whose sensors have the readings from `from` on.
pub open spec fn side_shown(view: Option<SideView>, side: Option<Side>, readings: Readings, from: int) -> bool {
    match side {
        None => view is None,
        Some(s) => view matches Some(v) && {
            &&& sensors_shown(v.input@, s.input@, readings, from)
            &&& sensors_shown(v.output@, s.output@, readings, (from + s.input@.len()) as int)
            &&& sensors_shown(v.auxiliary@, s.auxiliary@, readings, (from + s.input@.len() + s.output@.len()) as int)
        },
    }
}

// ---- registers ----

/// What stands behind a holding register.
pub open spec fn slot_shown(slot: Option<HoldingSlot>) -> Option<SlotView> {
    match slot {
        Some(HoldingSlot::Control { control, writable }) => Some(SlotView::Control { control, writable }),
        Some(HoldingSlot::Sensor(s)) => Some(SlotView::Sensor { sensor: s.sensor_id, storage: s.storage }),
        None => None,
    }
}

/// The holding registers, each with its word.
pub open spec fn holding_shown(views: Seq<HoldingView>, s: SimSlaveState, readings: Readings) -> bool {
    &&& views.len() == s.map.holding@.len()
    &&& forall|a: int|
        0 <= a < views.len() ==> #[trigger] views[a] == (HoldingView {
            addr: a as usize,
            slot: slot_shown(s.map.holding@[a]),
            raw: s.map.holding_word(s.engine, readings, a),
        })
}

/// The sensor at an input register and what is read there.
pub open spec fn input_shown(s: SimSlaveState, readings: Readings, slot: InputSlot, a: int) -> InputView {
    let hi = s.map.input_word(readings, a);
    let lo = s.map.input_word(readings, a + 1);
    match slot.storage {
        Storage::F32 => InputView {
            addr: a as usize,
            sensor: slot.sensor_id,
            storage: Storage::F32,
            raw_hi: hi,
            raw_lo: Some(lo),
            value_f32: Some((hi * 0x1_0000 + lo) as u32),
        },
        Storage::U16 => InputView {
            addr: a as usize,
            sensor: slot.sensor_id,
            storage: Storage::U16,
            raw_hi: hi,
            raw_lo: None,
            value_f32: None,
        },
    }
}

/// The sensors among the input registers from an address on: empty registers
/// are passed over, and a value in binary32 takes two.
pub open spec fn inputs_shown(s: SimSlaveState, readings: Readings, a: int) -> Seq<InputView>
    decreases s.map.inputs@.len() - a + 1,
{
    if a >= s.map.inputs@.len() {
        Seq::empty()
    } else {
        match s.map.inputs@[a] {
            None => inputs_shown(s, readings, a + 1),
            Some(slot) => seq![input_shown(s, readings, slot, a)] + inputs_shown(
                s,
                readings,
                match slot.storage {
                    Storage::F32 => a + 2,
                    Storage::U16 => a + 1,
                },
            ),
        }
    }
}

/// The state shown is that of the plant and its registers.
pub open spec fn state_shown(view: StateView, s: SimSlaveState, readings: Readings) -> bool {
    let c = s.engine.sim;
    &&& view.controls@.len() == c.controls@.len()
    &&& forall|i: int|
        0 <= i < view.controls@.len() ==> #[trigger] view.controls@[i] == control_shown(s, c.controls@[i])
    &&& side_shown(view.pri, c.pri, readings, 0)
    &&& side_shown(view.sec, c.sec, readings, crate::sim::model::side_sensors(c.pri).len() as int)
    &&& sensors_shown(view.sensors@, c.all_sensors(), readings, 0)
    &&& holding_shown(view.holding@, s, readings)
    &&& view.inputs@ == inputs_shown(s, readings, 0)
}

fn show_sensor(x: &SimSensor, value: Option<Real>) -> (r: SensorView)
    ensures
        r == sensor_shown(*x, value),
{
    SensorView {
        sensor_id: x.sensor_id.clone(),
        name: x.name.clone(),
        kind: x.kind.clone(),
        unit: copy_text(&x.unit),
        formula: x.formula.clone(),
        value,
    }
}

fn show_sensors(list: &Vec<SimSensor>, readings: &Readings, from: usize) -> (r: Vec<SensorView>)
    requires
        from + list@.len() <= readings.values@.len(),
    ensures
        sensors_shown(r@, list@, *readings, from as int),
{
    let known: usize = readings.values.len();
    let mut r: Vec<SensorView> = Vec::new();
    let mut i: usize = 0;
    while i < list.len()
        invariant
            i <= list@.len(),
            known == readings.values@.len(),
            from + list@.len() <= known,
            r@.len() == i,
            forall|k: int|
                0 <= k < i ==> #[trigger] r@[k] == sensor_shown(list@[k], readings.values@[from + k]),
        decreases list@.len() - i,
    {
        r.push(show_sensor(&list[i], readings.values[from + i]));
        i = i + 1;
    }
    r
}

fn show_side(side: &Option<Side>, readings: &Readings, from: usize) -> (r: Option<SideView>)
    requires
        from + crate::sim::model::side_sensors(*side).len() <= readings.values@.len(),
    ensures
        side_shown(r, *side, *readings, from as int),
{
    let known: usize = readings.values.len();
    assert(known == readings.values@.len());
    match side {
        None => None,
        Some(s) => {
            let outlet: usize = from + s.input.len();
            let others: usize = outlet + s.output.len();
            Some(
                SideView {
                    input: show_sensors(&s.input, readings, from),
                    output: show_sensors(&s.output, readings, outlet),
                    auxiliary: show_sensors(&s.auxiliary, readings, others),
                },
            )
        },
    }
}

fn side_len(side: &Option<Side>, Ghost(limit): Ghost<usize>) -> (r: usize)
    requires
        crate::sim::model::side_sensors(*side).len() <= limit,
    ensures
        r == crate::sim::model::side_sensors(*side).len(),
{
    match side {
        None => 0,
        Some(s) => s.input.len() + s.output.len() + s.auxiliary.len(),
    }
}

impl SimSlaveState {
    fn show_controls(&self) -> (r: Vec<ControlView>)
        requires
            self.wf(),
        ensures
            r@.len() == self.engine.sim.controls@.len(),
            forall|i: int|
                0 <= i < r@.len() ==> #[trigger] r@[i] == control_shown(*self, self.engine.sim.controls@[i]),
    {
        let controls = &self.engine.sim.controls;
        let mut r: Vec<ControlView> = Vec::new();
        let mut i: usize = 0;
        while i < controls.len()
            invariant
                self.wf(),
                *controls == self.engine.sim.controls,
                i <= controls@.len(),
                r@.len() == i,
                forall|k: int| 0 <= k < i ==> #[trigger] r@[k] == control_shown(*self, controls@[k]),
            decreases controls@.len() - i,
        {
            let c = &controls[i];
            let value = match self.engine.control(c.name.as_str()) {
                Some(v) => v,
                None => c.initial,
            };
            r.push(ControlView { name: c.name.clone(), value, unit: copy_text(&c.unit), writable: c.writable });
            i = i + 1;
        }
        r
    }

    fn show_all(&self, readings: &Readings) -> (r: Vec<SensorView>)
        requires
            readings.complete(self.engine.sim),
        ensures
            sensors_shown(r@, self.engine.sim.all_sensors(), *readings, 0),
    {
        let list = self.engine.sim.iter_sensors();
        let mut r: Vec<SensorView> = Vec::new();
        let mut i: usize = 0;
        while i < list.len()
            invariant
                i <= list@.len(),
                readings.complete(self.engine.sim),
                crate::sim::model::refers(list@, self.engine.sim.all_sensors()),
                r@.len() == i,
                forall|k: int|
                    0 <= k < i ==> #[trigger] r@[k] == sensor_shown(
                        self.engine.sim.all_sensors()[k],
                        readings.values@[0 + k],
                    ),
            decreases list@.len() - i,
        {
            assert(*list@[i as int] == self.engine.sim.all_sensors()[i as int]);
            r.push(show_sensor(list[i], readings.values[i]));
            i = i + 1;
        }
        r
    }

    fn show_holding(&self, readings: &Readings) -> (r: Vec<HoldingView>)
        requires
            self.wf(),
            readings.complete(self.engine.sim),
        ensures
            holding_shown(r@, *self, *readings),
    {
        let mut r: Vec<HoldingView> = Vec::new();
        let mut a: usize = 0;
        while a < self.map.holding.len()
            invariant
                a <= self.map.holding@.len(),
                self.wf(),
                readings.complete(self.engine.sim),
                r@.len() == a,
                forall|k: int|
                    0 <= k < a ==> #[trigger] r@[k] == (HoldingView {
                        addr: k as usize,
                        slot: slot_shown(self.map.holding@[k]),
                        raw: self.map.holding_word(self.engine, *readings, k),
                    }),
            decreases self.map.holding@.len() - a,
        {
            let slot = match &self.map.holding[a] {
                Some(HoldingSlot::Control { control, writable }) => Some(
                    SlotView::Control { control: control.clone(), writable: *writable },
                ),
                Some(HoldingSlot::Sensor(s)) => Some(
                    SlotView::Sensor { sensor: s.sensor_id.clone(), storage: s.storage },
                ),
                None => None,
            };
            r.push(HoldingView { addr: a, slot, raw: self.map.read_holding(&self.engine, readings, a) });
            a = a + 1;
        }
        r
    }

    fn show_inputs(&self, readings: &Readings) -> (r: Vec<InputView>)
        requires
            self.wf(),
            readings.complete(self.engine.sim),
        ensures
            r@ == inputs_shown(*self, *readings, 0),
    {
        let size: usize = self.map.inputs.len();
        let mut r: Vec<InputView> = Vec::new();
        let mut a: usize = 0;
        assert(Seq::<InputView>::empty() + inputs_shown(*self, *readings, 0) =~= inputs_shown(*self, *readings, 0));
        while a < size
            invariant
                size == self.map.inputs@.len(),
                self.wf(),
                readings.complete(self.engine.sim),
                r@ + inputs_shown(*self, *readings, a as int) == inputs_shown(*self, *readings, 0),
            decreases size - a,
        {
            let ghost before = r@;
            match &self.map.inputs[a] {
                None => {
                    a = a + 1;
                },
                Some(slot) => {
                    let hi: u16 = self.map.read_input(&self.engine, readings, a);
                    let ghost view = input_shown(*self, *readings, *slot, a as int);
                    match slot.storage {
                        Storage::F32 => {
                            let lo: u16 = if a < size - 1 {
                                self.map.read_input(&self.engine, readings, a + 1)
                            } else {
                                0
                            };
                            r.push(
                                InputView {
                                    addr: a,
                                    sensor: slot.sensor_id.clone(),
                                    storage: Storage::F32,
                                    raw_hi: hi,
                                    raw_lo: Some(lo),
                                    value_f32: Some(hi as u32 * 0x1_0000 + lo as u32),
                                },
                            );
                            assert(before + (seq![view] + inputs_shown(*self, *readings, a + 2)) =~= r@ + inputs_shown(
                                *self,
                                *readings,
                                a + 2,
                            ));
                            if a < size - 1 {
                                a = a + 2;
                            } else {
                                a = a + 1;
                            }
                        },
                        Storage::U16 => {
                            r.push(
                                InputView {
                                    addr: a,
                                    sensor: slot.sensor_id.clone(),
                                    storage: Storage::U16,
                                    raw_hi: hi,
                                    raw_lo: None,
                                    value_f32: None,
                                },
                            );
                            assert(before + (seq![view] + inputs_shown(*self, *readings, a + 1)) =~= r@ + inputs_shown(
                                *self,
                                *readings,
                                a + 1,
                            ));
                            a = a + 1;
                        },
                    }
                },
            }
        }
        assert(r@ + Seq::<InputView>::empty() =~= r@);
        r
    }

    /// The whole state: controls, sensors and registers.
    pub fn build_state(&self, readings: &Readings) -> (r: StateView)
        requires
            self.wf(),
            readings.complete(self.engine.sim),
        ensures
            state_shown(r, *self, *readings),
    {
        let c = &self.engine.sim;
        let known: usize = readings.values.len();
        assert(known == readings.values@.len());
        let secondary: usize = side_len(&c.pri, Ghost(known));
        StateView {
            controls: self.show_controls(),
            pri: show_side(&c.pri, readings, 0),
            sec: show_side(&c.sec, readings, secondary),
            sensors: self.show_all(readings),
            holding: self.show_holding(readings),
            inputs: self.show_inputs(readings),
        }
    }

    /// The whole state, `time` seconds after the start. Formulas and encodings
    /// are evaluated by `f`.
    pub fn show<F: Fn(Evaluation) -> Real>(&self, time: Real, f: &F) -> (r: StateView)
        requires
            self.wf(),
            crate::sim::registers::encodable(self.engine.sim),
            forall|e: Evaluation| f.requires((e,)),
        ensures
            exists|readings: Readings| #[trigger]
                state_shown(r, *self, readings) && crate::sim::registers::taken(*f, self.engine, time, readings),
    {
        let readings = self.engine.readings(time, f);
        self.build_state(&readings)
    }

    /// Sets a control, as the web interface asks for: the error's text, for an
    /// answer of status 400, where it may not be set.
    pub fn set_control(&mut self, name: &str, value: Real) -> (r: Result<(), String>)
        requires
            old(self).wf(),
        ensures
            final(self).wf(),
            final(self).map == old(self).map,
            final(self).engine.sim == old(self).engine.sim,
            exists|fault: Option<ControlFault>|
                {
                    &&& #[trigger] crate::engine::control_set(
                        old(self).engine.engine,
                        name@,
                        value,
                        fault,
                        final(self).engine.engine,
                    )
                    &&& match fault {
                        None => r is Ok,
                        Some(f) => r matches Err(m) && m@ == crate::sim::model::fault_text(f, name@),
                    }
                },
    {
        self.engine.set_control(name, value)
    }
}

} // verus!
