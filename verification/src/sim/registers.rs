//! The registers of the simulator: which control or sensor is found at which
//! address, and what is read there.

use vstd::prelude::*;

use crate::domain::copy_text;
use crate::evaluation::{Evaluation, Round};
use crate::expression::check_binding;
use crate::number::Real;
use crate::sim::layout::{lay_out, Cell, Placement};
use crate::sim::model::{list_area, Area, SimConfig, SimEngine, SimSensor, Storage};

verus! {

/// A register word of a sensor.
#[derive(Debug)]
pub struct InputSlot {
    pub sensor_id: String,
    pub storage: Storage,
    /// The stored integer as an expression of the value `v`.
    pub encode: Option<String>,
    /// The sensor's place among all sensors.
    pub position: usize,
    /// Which of the sensor's words; the higher one comes first.
    pub word: usize,
}

/// A holding register.
#[derive(Debug)]
pub enum HoldingSlot {
    Control { control: String, writable: bool },
    /// A sensor, which can only be read.
    Sensor(InputSlot),
}

/// The registers by address. An address without a slot reads as zero.
#[derive(Debug)]
pub struct RegisterMap {
    pub holding: Vec<Option<HoldingSlot>>,
    pub inputs: Vec<Option<InputSlot>>,
    pub coils: Vec<Option<InputSlot>>,
}

// ---- what is found where ----

/// Word `part` of the sensor at a place among all sensors.
pub open spec fn sensor_slot(c: SimConfig, position: int, part: int) -> InputSlot {
    let s = c.all_sensors()[position];
    InputSlot {
        sensor_id: s.sensor_id,
        storage: s.storage,
        encode: s.encode,
        position: position as usize,
        word: part as usize,
    }
}

/// What the placement of an area has at an address.
pub open spec fn cell_of(c: SimConfig, area: Area, address: int) -> Option<Cell> {
    crate::sim::layout::cell_at(SimConfig::placement(area), c.spans(area), c.spans(area).len() as int, address)
}

/// How many addresses of an area are in use.
pub open spec fn size_of(c: SimConfig, area: Area) -> int {
    crate::sim::layout::extent(SimConfig::placement(area), c.spans(area), c.spans(area).len() as int)
}

/// The slot of an area that holds sensors alone.
pub open spec fn sensor_at(c: SimConfig, area: Area, address: int) -> Option<InputSlot> {
    match cell_of(c, area, address) {
        Some(cell) => Some(sensor_slot(c, c.area_sensors(area)[cell.item as int], cell.part as int)),
        None => None,
    }
}

/// The holding register at an address.
pub open spec fn holding_at(c: SimConfig, address: int) -> Option<HoldingSlot> {
    match cell_of(c, Area::Holding, address) {
        Some(cell) => if cell.item < c.controls@.len() {
            let control = c.controls@[cell.item as int];
            Some(HoldingSlot::Control { control: control.name, writable: control.writable })
        } else {
            let k = c.area_sensors(Area::Holding)[cell.item - c.controls@.len()];
            Some(HoldingSlot::Sensor(sensor_slot(c, k, cell.part as int)))
        },
        None => None,
    }
}

/// Word `part` of an item among the holding registers.
pub open spec fn holding_item(c: SimConfig, item: int, part: int) -> HoldingSlot {
    if item < c.controls@.len() {
        HoldingSlot::Control { control: c.controls@[item].name, writable: c.controls@[item].writable }
    } else {
        HoldingSlot::Sensor(sensor_slot(c, c.area_sensors(Area::Holding)[item - c.controls@.len()], part))
    }
}

/// The settings are small enough for every address to be counted.
pub open spec fn addressable(c: SimConfig) -> bool {
    2 * (c.controls@.len() + c.all_sensors().len()) + 0x1_0001 <= usize::MAX
}

fn slot_of(s: &SimSensor, position: usize, word: usize) -> (r: InputSlot)
    ensures
        r == (InputSlot { sensor_id: s.sensor_id, storage: s.storage, encode: s.encode, position, word }),
{
    InputSlot {
        sensor_id: s.sensor_id.clone(),
        storage: s.storage,
        encode: copy_text(&s.encode),
        position,
        word,
    }
}

proof fn lemma_cell(c: SimConfig, area: Area, n: int, address: int)
    requires
        0 <= n <= c.spans(area).len(),
    ensures
        crate::sim::layout::cell_at(SimConfig::placement(area), c.spans(area), n, address) matches Some(cell) ==> {
            &&& crate::sim::layout::owner(SimConfig::placement(area), c.spans(area), n, address) matches Some(i) && 0 <= i < n
            &&& cell.item <= crate::sim::layout::owner(SimConfig::placement(area), c.spans(area), n, address)->0
        },
    decreases n,
{
    if n > 0 {
        lemma_cell(c, area, n - 1, address);
    }
}

fn build_sensors(c: &SimConfig, area: Area, list: &Vec<&SimSensor>) -> (r: Vec<Option<InputSlot>>)
    requires
        addressable(*c),
        crate::sim::model::refers(list@, c.all_sensors()),
        area != Area::Holding,
    ensures
        r@.len() == size_of(*c, area),
        forall|a: int| 0 <= a < r@.len() ==> #[trigger] r@[a] == sensor_at(*c, area, a),
{
    let chosen = list_area(list, area, Ghost(c.all_sensors()));
    let spans = c.list_spans(area, list, &chosen);
    proof {
        crate::sim::model::lemma_area_sensors(*c, area);
        assert(chosen@.map_values(|k: usize| k as int).len() == chosen@.len());
        assert(spans@.len() == chosen@.len());
    }
    let cells = lay_out(Placement::InTurn, &spans);
    let mut r: Vec<Option<InputSlot>> = Vec::new();
    let mut a: usize = 0;
    while a < cells.len()
        invariant
            a <= cells@.len(),
            crate::sim::model::refers(list@, c.all_sensors()),
            chosen@.map_values(|k: usize| k as int) == c.area_sensors(area),
            forall|k: int| 0 <= k < chosen@.len() ==> #[trigger] chosen@[k] < c.all_sensors().len(),
            spans@ == c.spans(area),
            spans@.len() == chosen@.len(),
            forall|k: int| 0 <= k < cells@.len() ==> #[trigger] cells@[k] == cell_of(*c, area, k),
            r@.len() == a,
            forall|k: int| 0 <= k < a ==> #[trigger] r@[k] == sensor_at(*c, area, k),
        decreases cells@.len() - a,
    {
        assert(cells@[a as int] == cell_of(*c, area, a as int));
        proof {
            lemma_cell(*c, area, spans@.len() as int, a as int);
        }
        match cells[a] {
            Some(cell) => {
                let k: usize = chosen[cell.item];
                assert(c.area_sensors(area)[cell.item as int] == chosen@[cell.item as int] as int);
                assert(*list@[k as int] == c.all_sensors()[k as int]);
                r.push(Some(slot_of(list[k], k, cell.part)));
            },
            None => {
                r.push(None);
            },
        }
        a = a + 1;
    }
    r
}

fn build_holding(c: &SimConfig, list: &Vec<&SimSensor>) -> (r: Vec<Option<HoldingSlot>>)
    requires
        addressable(*c),
        crate::sim::model::refers(list@, c.all_sensors()),
    ensures
        r@.len() == size_of(*c, Area::Holding),
        forall|a: int| 0 <= a < r@.len() ==> #[trigger] r@[a] == holding_at(*c, a),
{
    let chosen = list_area(list, Area::Holding, Ghost(c.all_sensors()));
    let spans = c.list_spans(Area::Holding, list, &chosen);
    proof {
        crate::sim::model::lemma_area_sensors(*c, Area::Holding);
        assert(chosen@.map_values(|k: usize| k as int).len() == chosen@.len());
        assert(spans@.len() == c.controls@.len() + chosen@.len());
    }
    let n: usize = c.controls.len();
    let cells = lay_out(Placement::AddressesFirst, &spans);
    let mut r: Vec<Option<HoldingSlot>> = Vec::new();
    let mut a: usize = 0;
    while a < cells.len()
        invariant
            a <= cells@.len(),
            n == c.controls@.len(),
            crate::sim::model::refers(list@, c.all_sensors()),
            chosen@.map_values(|k: usize| k as int) == c.area_sensors(Area::Holding),
            forall|k: int| 0 <= k < chosen@.len() ==> #[trigger] chosen@[k] < c.all_sensors().len(),
            spans@ == c.spans(Area::Holding),
            spans@.len() == n + chosen@.len(),
            forall|k: int| 0 <= k < cells@.len() ==> #[trigger] cells@[k] == cell_of(*c, Area::Holding, k),
            r@.len() == a,
            forall|k: int| 0 <= k < a ==> #[trigger] r@[k] == holding_at(*c, k),
        decreases cells@.len() - a,
    {
        assert(cells@[a as int] == cell_of(*c, Area::Holding, a as int));
        proof {
            lemma_cell(*c, Area::Holding, spans@.len() as int, a as int);
        }
        match cells[a] {
            Some(cell) => {
                if cell.item < n {
                    let control = &c.controls[cell.item];
                    r.push(
                        Some(HoldingSlot::Control { control: control.name.clone(), writable: control.writable }),
                    );
                } else {
                    let k: usize = chosen[cell.item - n];
                    assert(c.area_sensors(Area::Holding)[cell.item - n] == chosen@[cell.item - n] as int);
                    assert(*list@[k as int] == c.all_sensors()[k as int]);
                    r.push(Some(HoldingSlot::Sensor(slot_of(list[k], k, cell.part))));
                }
            },
            None => {
                r.push(None);
            },
        }
        a = a + 1;
    }
    r
}

proof fn lemma_keeps(map: RegisterMap, c: SimConfig)
    requires
        addressable(c),
        map.built_from(c),
    ensures
        map.keeps_every_item(c),
{
    let spans = c.spans(Area::Holding);
    crate::sim::model::lemma_area_sensors(c, Area::Holding);
    if crate::sim::layout::explicit_disjoint(spans) {
        crate::sim::layout::explicit_items_decide(spans);
        assert forall|item: int, part: int| #[trigger] crate::sim::layout::is_part(spans, item, part) implies {
            let at = c.address_of(Area::Holding, item) + part;
            0 <= at < map.holding@.len() && map.holding@[at] == Some(holding_item(c, item, part))
        } by {
            crate::sim::layout::items_keep_their_cells(SimConfig::placement(Area::Holding), spans, item, part);
            let at = c.address_of(Area::Holding, item) + part;
            assert(map.holding@[at] == holding_at(c, at));
        }
    }
    let spans = c.spans(Area::Input);
    crate::sim::model::lemma_area_sensors(c, Area::Input);
    if c.separate(Area::Input) {
        assert forall|item: int, part: int| #[trigger] crate::sim::layout::is_part(spans, item, part) implies {
            let at = c.address_of(Area::Input, item) + part;
            0 <= at < map.inputs@.len() && map.inputs@[at] == Some(
                sensor_slot(c, c.area_sensors(Area::Input)[item], part),
            )
        } by {
            crate::sim::layout::items_keep_their_cells(SimConfig::placement(Area::Input), spans, item, part);
            let at = c.address_of(Area::Input, item) + part;
            assert(map.inputs@[at] == sensor_at(c, Area::Input, at));
        }
    }
    let spans = c.spans(Area::Coils);
    crate::sim::model::lemma_area_sensors(c, Area::Coils);
    if c.separate(Area::Coils) {
        assert forall|item: int, part: int| #[trigger] crate::sim::layout::is_part(spans, item, part) implies {
            let at = c.address_of(Area::Coils, item) + part;
            0 <= at < map.coils@.len() && map.coils@[at] == Some(
                sensor_slot(c, c.area_sensors(Area::Coils)[item], part),
            )
        } by {
            crate::sim::layout::items_keep_their_cells(SimConfig::placement(Area::Coils), spans, item, part);
            let at = c.address_of(Area::Coils, item) + part;
            assert(map.coils@[at] == sensor_at(c, Area::Coils, at));
        }
    }
}

impl RegisterMap {
    /// The registers are those of the settings.
    pub open spec fn built_from(self, c: SimConfig) -> bool {
        &&& self.holding@.len() == size_of(c, Area::Holding)
        &&& forall|a: int| 0 <= a < self.holding@.len() ==> #[trigger] self.holding@[a] == holding_at(c, a)
        &&& self.inputs@.len() == size_of(c, Area::Input)
        &&& forall|a: int| 0 <= a < self.inputs@.len() ==> #[trigger] self.inputs@[a] == sensor_at(c, Area::Input, a)
        &&& self.coils@.len() == size_of(c, Area::Coils)
        &&& forall|a: int| 0 <= a < self.coils@.len() ==> #[trigger] self.coils@[a] == sensor_at(c, Area::Coils, a)
    }

    /// Where no two addresses among the holding registers clash, every control and
    /// every word of every sensor there has a slot. The same holds of the input
    /// registers and of the coils where no two of them have an address in common.
    pub open spec fn keeps_every_item(self, c: SimConfig) -> bool {
        &&& crate::sim::layout::explicit_disjoint(c.spans(Area::Holding)) ==> forall|item: int, part: int| #[trigger]
            crate::sim::layout::is_part(c.spans(Area::Holding), item, part) ==> {
                let at = c.address_of(Area::Holding, item) + part;
                0 <= at < self.holding@.len() && self.holding@[at] == Some(holding_item(c, item, part))
            }
        &&& c.separate(Area::Input) ==> forall|item: int, part: int| #[trigger]
            crate::sim::layout::is_part(c.spans(Area::Input), item, part) ==> {
                let at = c.address_of(Area::Input, item) + part;
                0 <= at < self.inputs@.len() && self.inputs@[at] == Some(
                    sensor_slot(c, c.area_sensors(Area::Input)[item], part),
                )
            }
        &&& c.separate(Area::Coils) ==> forall|item: int, part: int| #[trigger]
            crate::sim::layout::is_part(c.spans(Area::Coils), item, part) ==> {
                let at = c.address_of(Area::Coils, item) + part;
                0 <= at < self.coils@.len() && self.coils@[at] == Some(
                    sensor_slot(c, c.area_sensors(Area::Coils)[item], part),
                )
            }
    }

    /// Places the controls and the sensors. Among the holding registers those with
    /// an address come first, the others behind them. An input register or a coil
    /// without an address comes behind the one before it, and a later one takes
    /// the addresses that it shares with an earlier one.
    pub fn build(sim: &SimConfig) -> (r: RegisterMap)
        requires
            addressable(*sim),
        ensures
            r.built_from(*sim),
            r.keeps_every_item(*sim),
    {
        let list = sim.iter_sensors();
        let r = RegisterMap {
            holding: build_holding(sim, &list),
            inputs: build_sensors(sim, Area::Input, &list),
            coils: build_sensors(sim, Area::Coils, &list),
        };
        proof {
            lemma_keeps(r, *sim);
        }
        r
    }
}

// ---- stored values ----

/// The value, or a NaN where there is none.
pub open spec fn value_or_nan(v: Option<Real>) -> Real {
    match v {
        Some(x) => x,
        None => Real { bits: 0x7ff8_0000_0000_0000 },
    }
}

fn or_nan(v: Option<Real>) -> (r: Real)
    ensures
        r == value_or_nan(v),
{
    match v {
        Some(x) => x,
        None => Real { bits: 0x7ff8_0000_0000_0000 },
    }
}

/// What binding `v` has against an encoding.
pub open spec fn encode_fault(encode: Option<String>) -> Option<Seq<char>> {
    match encode {
        Some(e) => crate::expression::bind_fault(e@, seq!["v"@]),
        None => None,
    }
}

/// The number to store for a value, given what binding has against the
/// encoding: the encoded value, or the value itself without a usable encoding.
pub open spec fn encodes<F: Fn(Evaluation) -> Real>(
    f: F,
    encode: Option<String>,
    fault: Option<Seq<char>>,
    v: Real,
    r: Real,
) -> bool {
    if encode is Some && fault is None {
        exists|e: Evaluation| #[trigger]
            f.ensures((e,), r) && crate::evaluation::asks(e, encode->0@, seq!["v"@], seq![v])
    } else {
        r == v
    }
}

/// The number to store for a value, given what binding has against the
/// encoding. The encoding is evaluated by `f`.
pub fn encode_raw_given<F: Fn(Evaluation) -> Real>(
    encode: &Option<String>,
    fault: &Option<String>,
    v: Real,
    f: &F,
) -> (r: Real)
    requires
        forall|e: Evaluation| f.requires((e,)),
    ensures
        encodes(*f, *encode, crate::expression::text_of(*fault), v, r),
{
    match encode {
        Some(text) => {
            if fault.is_some() {
                return v;
            }
            let mut names: Vec<String> = Vec::new();
            names.push("v".to_owned());
            assert(crate::expression::texts(names@) =~= seq!["v"@]);
            let mut values: Vec<Real> = Vec::new();
            values.push(v);
            assert(values@ =~= seq![v]);
            let e = Evaluation { expression: text.clone(), names, values };
            let ghost asked = e;
            let r = f(e);
            assert(f.ensures((asked,), r));
            r
        },
        None => v,
    }
}

/// The number to store for a value. The encoding is evaluated by `f`.
pub fn encode_raw<F: Fn(Evaluation) -> Real>(encode: &Option<String>, v: Real, f: &F) -> (r: Real)
    requires
        encode matches Some(e) ==> !crate::expression::blank(e@),
        forall|e: Evaluation| f.requires((e,)),
    ensures
        encodes(*f, *encode, encode_fault(*encode), v, r),
{
    let fault = match encode {
        Some(e) => {
            let mut names: Vec<String> = Vec::new();
            names.push("v".to_owned());
            assert(crate::expression::texts(names@) =~= seq!["v"@]);
            check_binding(e.as_str(), &names)
        },
        None => None,
    };
    encode_raw_given(encode, &fault, v, f)
}

/// The sensor is stored as an integer in registers.
pub open spec fn stores_integer(s: SimSensor) -> bool {
    s.storage == Storage::U16 && s.area != Area::Coils
}

/// No encoding that is in use is blank.
pub open spec fn encodable(c: SimConfig) -> bool {
    forall|k: int|
        0 <= k < c.all_sensors().len() && stores_integer(#[trigger] c.all_sensors()[k]) ==> (c.all_sensors()[k].encode matches Some(
            e,
        ) ==> !crate::expression::blank(e@))
}

/// The value of every sensor, and the number that is stored for it.
#[derive(Debug)]
pub struct Readings {
    pub values: Vec<Option<Real>>,
    pub raws: Vec<Real>,
}

/// What the round gives for the sensor at a place among all sensors.
pub open spec fn value_at(e: SimEngine, round: Round, k: int) -> Option<Real> {
    e.engine.sensor_value(round, e.sim.all_sensors()[k].sensor_id@)
}

/// What is stored for the sensor at a place among all sensors.
pub open spec fn raw_at<F: Fn(Evaluation) -> Real>(f: F, e: SimEngine, round: Round, k: int, r: Real) -> bool {
    let s = e.sim.all_sensors()[k];
    if stores_integer(s) {
        encodes(f, s.encode, encode_fault(s.encode), value_or_nan(value_at(e, round, k)), r)
    } else {
        r == value_or_nan(value_at(e, round, k))
    }
}

/// The readings are those of a round.
pub open spec fn reads_round<F: Fn(Evaluation) -> Real>(f: F, e: SimEngine, round: Round, r: Readings) -> bool {
    &&& r.complete(e.sim)
    &&& forall|k: int| 0 <= k < r.values@.len() ==> #[trigger] r.values@[k] == value_at(e, round, k)
    &&& forall|k: int| 0 <= k < r.raws@.len() ==> raw_at(f, e, round, k, #[trigger] r.raws@[k])
}

/// The readings were taken of the plant, `time` seconds after the start.
pub open spec fn taken<F: Fn(Evaluation) -> Real>(f: F, e: SimEngine, time: Real, r: Readings) -> bool {
    exists|round: Round| #[trigger] e.engine.evaluated(f, time, round) && reads_round(f, e, round, r)
}

impl Readings {
    /// There is a reading of every sensor of the settings.
    pub open spec fn complete(self, c: SimConfig) -> bool {
        &&& self.values@.len() == c.all_sensors().len()
        &&& self.raws@.len() == c.all_sensors().len()
    }
}

impl SimEngine {
    /// Reads every sensor, `time` seconds after the start. Formulas and
    /// encodings are evaluated by `f`.
    pub fn readings<F: Fn(Evaluation) -> Real>(&self, time: Real, f: &F) -> (r: Readings)
        requires
            self.wf(),
            encodable(self.sim),
            forall|e: Evaluation| f.requires((e,)),
        ensures
            r.complete(self.sim),
            taken(*f, *self, time, r),
    {
        let round = self.engine.evaluate(time, f);
        let list = self.sim.iter_sensors();
        let mut values: Vec<Option<Real>> = Vec::new();
        let mut raws: Vec<Real> = Vec::new();
        let mut k: usize = 0;
        while k < list.len()
            invariant
                k <= list@.len(),
                self.wf(),
                self.engine.evaluated(*f, time, round),
                encodable(self.sim),
                forall|e: Evaluation| f.requires((e,)),
                crate::sim::model::refers(list@, self.sim.all_sensors()),
                values@.len() == k,
                forall|j: int| 0 <= j < k ==> #[trigger] values@[j] == value_at(*self, round, j),
                raws@.len() == k,
                forall|j: int| 0 <= j < k ==> raw_at(*f, *self, round, j, #[trigger] raws@[j]),
            decreases list@.len() - k,
        {
            let s = list[k];
            assert(*s == self.sim.all_sensors()[k as int]);
            let value = self.engine.value_of(&round, s.sensor_id.as_str());
            values.push(value);
            if s.storage == Storage::U16 && s.area != Area::Coils {
                assert(stores_integer(self.sim.all_sensors()[k as int]));
                raws.push(encode_raw(&s.encode, or_nan(value), f));
            } else {
                raws.push(or_nan(value));
            }
            k = k + 1;
        }
        let r = Readings { values, raws };
        assert(reads_round(*f, *self, round, r));
        r
    }
}

// ---- reading ----

proof fn lemma_position(c: SimConfig, area: Area, address: int)
    requires
        c.all_sensors().len() <= usize::MAX,
    ensures
        area != Area::Holding ==> (sensor_at(c, area, address) matches Some(slot) ==> slot.position
            < c.all_sensors().len()),
        area == Area::Holding ==> (holding_at(c, address) matches Some(HoldingSlot::Sensor(slot)) ==> slot.position
            < c.all_sensors().len()),
{
    lemma_cell(c, area, c.spans(area).len() as int, address);
    crate::sim::model::lemma_area_sensors(c, area);
}

/// The word of a slot: half of the value in binary32, or the stored number as
/// an integer of 16 bits.
pub open spec fn slot_word(slot: InputSlot, readings: Readings) -> u16 {
    match slot.storage {
        Storage::F32 => {
            let bits = value_or_nan(readings.values@[slot.position as int]).narrowed();
            if slot.word == 0 {
                (bits / 0x1_0000) as u16
            } else {
                (bits % 0x1_0000) as u16
            }
        },
        Storage::U16 => readings.raws@[slot.position as int].saturated(0, 0xffff) as u16,
    }
}

fn read_sensor(readings: &Readings, slot: &InputSlot) -> (r: u16)
    requires
        slot.position < readings.values@.len(),
        slot.position < readings.raws@.len(),
    ensures
        r == slot_word(*slot, *readings),
{
    match slot.storage {
        Storage::F32 => {
            let bits: u32 = or_nan(readings.values[slot.position]).to_single();
            if slot.word == 0 {
                (bits / 0x1_0000) as u16
            } else {
                (bits % 0x1_0000) as u16
            }
        },
        Storage::U16 => {
            let n: i64 = readings.raws[slot.position].saturate(0, 0xffff);
            n as u16
        },
    }
}

impl RegisterMap {
    /// What a holding register reads as: a control rounded to an integer of 16
    /// bits, or the word of a sensor.
    pub open spec fn holding_word(self, engine: SimEngine, readings: Readings, addr: int) -> u16 {
        if addr >= self.holding@.len() {
            0
        } else {
            match self.holding@[addr] {
                Some(HoldingSlot::Control { control, .. }) => match engine.engine.control_value(control@) {
                    Some(v) => v.saturated(0, 0xffff) as u16,
                    None => 0,
                },
                Some(HoldingSlot::Sensor(slot)) => slot_word(slot, readings),
                None => 0,
            }
        }
    }

    /// What an input register reads as.
    pub open spec fn input_word(self, readings: Readings, addr: int) -> u16 {
        if addr >= self.inputs@.len() {
            0
        } else {
            match self.inputs@[addr] {
                Some(slot) => slot_word(slot, readings),
                None => 0,
            }
        }
    }

    /// What a coil reads as: on where its sensor has a value other than zero.
    pub open spec fn coil_bit(self, readings: Readings, addr: int) -> bool {
        if addr >= self.coils@.len() {
            false
        } else {
            match self.coils@[addr] {
                Some(slot) => match readings.values@[slot.position as int] {
                    Some(v) => !v.zero(),
                    None => false,
                },
                None => false,
            }
        }
    }

    /// Reads a holding register.
    pub fn read_holding(&self, engine: &SimEngine, readings: &Readings, addr: usize) -> (r: u16)
        requires
            engine.wf(),
            self.built_from(engine.sim),
            readings.complete(engine.sim),
        ensures
            r == self.holding_word(*engine, *readings, addr as int),
    {
        if addr >= self.holding.len() {
            return 0;
        }
        match &self.holding[addr] {
            Some(HoldingSlot::Control { control, .. }) => match engine.control(control.as_str()) {
                Some(v) => {
                    let n: i64 = v.saturate(0, 0xffff);
                    n as u16
                },
                None => 0,
            },
            Some(HoldingSlot::Sensor(slot)) => {
                let known: usize = readings.values.len();
                proof {
                    assert(known == engine.sim.all_sensors().len());
                    lemma_position(engine.sim, Area::Holding, addr as int);
                }
                read_sensor(readings, slot)
            },
            None => 0,
        }
    }

    /// Reads an input register.
    pub fn read_input(&self, engine: &SimEngine, readings: &Readings, addr: usize) -> (r: u16)
        requires
            self.built_from(engine.sim),
            readings.complete(engine.sim),
        ensures
            r == self.input_word(*readings, addr as int),
    {
        if addr >= self.inputs.len() {
            return 0;
        }
        match &self.inputs[addr] {
            Some(slot) => {
                let known: usize = readings.values.len();
                proof {
                    assert(known == engine.sim.all_sensors().len());
                    lemma_position(engine.sim, Area::Input, addr as int);
                }
                read_sensor(readings, slot)
            },
            None => 0,
        }
    }

    /// Reads a coil.
    pub fn read_coil(&self, engine: &SimEngine, readings: &Readings, addr: usize) -> (r: bool)
        requires
            self.built_from(engine.sim),
            readings.complete(engine.sim),
        ensures
            r == self.coil_bit(*readings, addr as int),
    {
        if addr >= self.coils.len() {
            return false;
        }
        match &self.coils[addr] {
            Some(slot) => {
                let known: usize = readings.values.len();
                proof {
                    assert(known == engine.sim.all_sensors().len());
                    lemma_position(engine.sim, Area::Coils, addr as int);
                }
                match readings.values[slot.position] {
                    Some(v) => !v.is_zero(),
                    None => false,
                }
            },
            None => false,
        }
    }
}

// ---- where controls and sensors are read ----

/// Where no two addresses overlap, a control reads, at its own address, as its
/// value rounded to an integer of 16 bits.
pub proof fn a_control_is_read_at_its_address(map: RegisterMap, engine: SimEngine, readings: Readings, i: int)
    requires
        map.built_from(engine.sim),
        addressable(engine.sim),
        crate::sim::layout::explicit_disjoint(engine.sim.spans(Area::Holding)),
        0 <= i < engine.sim.controls@.len(),
        engine.engine.control_value(engine.sim.controls@[i].name@) is Some,
    ensures
        map.holding_word(
            engine,
            readings,
            engine.sim.address_of(Area::Holding, i),
        ) == engine.engine.control_value(engine.sim.controls@[i].name@)->0.saturated(0, 0xffff) as u16,
{
    let c = engine.sim;
    let spans = c.spans(Area::Holding);
    crate::sim::model::lemma_area_sensors(c, Area::Holding);
    crate::sim::layout::explicit_items_decide(spans);
    crate::sim::layout::items_keep_their_cells(SimConfig::placement(Area::Holding), spans, i, 0);
    let at = c.address_of(Area::Holding, i);
    assert(map.holding@[at] == holding_at(c, at));
}

/// Where no two addresses overlap, each word of a sensor among the holding
/// registers is read behind the sensor's address.
pub proof fn a_sensor_is_read_from_holding(map: RegisterMap, engine: SimEngine, readings: Readings, j: int, part: int)
    requires
        map.built_from(engine.sim),
        addressable(engine.sim),
        crate::sim::layout::explicit_disjoint(engine.sim.spans(Area::Holding)),
        0 <= j < engine.sim.area_sensors(Area::Holding).len(),
        0 <= part < engine.sim.spans(Area::Holding)[engine.sim.controls@.len() + j].width(),
    ensures
        map.holding_word(
            engine,
            readings,
            engine.sim.address_of(Area::Holding, engine.sim.controls@.len() + j) + part,
        ) == slot_word(sensor_slot(engine.sim, engine.sim.area_sensors(Area::Holding)[j], part), readings),
{
    let c = engine.sim;
    let spans = c.spans(Area::Holding);
    let item = c.controls@.len() + j;
    crate::sim::model::lemma_area_sensors(c, Area::Holding);
    crate::sim::layout::explicit_items_decide(spans);
    crate::sim::layout::items_keep_their_cells(SimConfig::placement(Area::Holding), spans, item, part);
    let at = c.address_of(Area::Holding, item) + part;
    assert(map.holding@[at] == holding_at(c, at));
}

/// Where no two input registers have an address in common, each word of a sensor
/// among them is read behind the sensor's address.
pub proof fn a_sensor_is_read_from_inputs(map: RegisterMap, c: SimConfig, readings: Readings, j: int, part: int)
    requires
        map.built_from(c),
        addressable(c),
        c.separate(Area::Input),
        0 <= j < c.area_sensors(Area::Input).len(),
        0 <= part < c.spans(Area::Input)[j].width(),
    ensures
        map.input_word(readings, c.address_of(Area::Input, j) + part) == slot_word(
            sensor_slot(c, c.area_sensors(Area::Input)[j], part),
            readings,
        ),
{
    let spans = c.spans(Area::Input);
    crate::sim::model::lemma_area_sensors(c, Area::Input);
    crate::sim::layout::items_keep_their_cells(SimConfig::placement(Area::Input), spans, j, part);
    let at = c.address_of(Area::Input, j) + part;
    assert(map.inputs@[at] == sensor_at(c, Area::Input, at));
}

/// Where no two coils have an address in common, a coil is on exactly where its
/// sensor has a value other than zero.
pub proof fn a_coil_is_read_at_its_address(map: RegisterMap, c: SimConfig, readings: Readings, j: int)
    requires
        map.built_from(c),
        addressable(c),
        c.separate(Area::Coils),
        0 <= j < c.area_sensors(Area::Coils).len(),
    ensures
        map.coil_bit(readings, c.address_of(Area::Coils, j)) <==> (
        readings.values@[c.area_sensors(Area::Coils)[j]] matches Some(v) && !v.zero()),
{
    let spans = c.spans(Area::Coils);
    crate::sim::model::lemma_area_sensors(c, Area::Coils);
    crate::sim::layout::items_keep_their_cells(SimConfig::placement(Area::Coils), spans, j, 0);
    let at = c.address_of(Area::Coils, j);
    assert(map.coils@[at] == sensor_at(c, Area::Coils, at));
}

/// The two words of a sensor stored in binary32 are the halves of its value,
/// the higher one first.
pub proof fn two_words_hold_the_value(high: InputSlot, low: InputSlot, readings: Readings)
    requires
        high.storage == Storage::F32,
        low.storage == Storage::F32,
        high.position == low.position,
        high.word == 0,
        low.word == 1,
    ensures
        slot_word(high, readings) * 0x1_0000 + slot_word(low, readings) == value_or_nan(
            readings.values@[high.position as int],
        ).narrowed(),
{
}

} // verus!
