//! What the simulated plant reads as, and what writes to it do.

use vstd::prelude::*;

use crate::engine::{ControlFault, Engine};
use crate::evaluation::{Evaluation, Round};
use crate::number::Real;
use crate::protocol::modbus_server::{ModbusException, ModbusRequest, ModbusResponse};
use crate::sim::model::{Area, SimConfig, SimEngine, SimSensor, Storage};
use crate::sim::registers::{HoldingSlot, InputSlot, Readings, RegisterMap};
use crate::sim::server::SimSlaveState;
use crate::sim::web::StateView;

verus! {

// ---- where sensors and controls are found ----

proof fn lemma_in_area(all: Seq<SimSensor>, area: Area, k: int, n: int) -> (j: int)
    requires
        0 <= k < n <= all.len(),
        all[k].area == area,
    ensures
        0 <= j < crate::sim::model::in_area(all, area, n).len(),
        crate::sim::model::in_area(all, area, n)[j] == k,
    decreases n,
{
    if k == n - 1 {
        crate::sim::model::in_area(all, area, n - 1).len() as int
    } else {
        lemma_in_area(all, area, k, n - 1)
    }
}

/// The item of an area that sensor `k` is.
proof fn lemma_item(c: SimConfig, k: int) -> (item: int)
    requires
        0 <= k < c.all_sensors().len(),
    ensures
        ({
            let s = c.all_sensors()[k];
            let n = c.area_controls(s.area).len();
            &&& n <= item < c.spans(s.area).len()
            &&& c.area_sensors(s.area)[item - n] == k
            &&& 0 <= item - n < c.area_sensors(s.area).len()
            &&& c.spans(s.area)[item].address == s.address
            &&& c.spans(s.area)[item].wide == (s.storage == Storage::F32 && s.area != Area::Coils)
        }),
{
    let s = c.all_sensors()[k];
    let n = c.area_controls(s.area).len() as int;
    let j = lemma_in_area(c.all_sensors(), s.area, k, c.all_sensors().len() as int);
    assert(c.spans(s.area)[n + j] == crate::sim::model::sensor_span(c.all_sensors()[c.area_sensors(s.area)[j]]));
    n + j
}

/// A sensor with an address of its own is found there.
pub proof fn an_address_is_kept(c: SimConfig, k: int, a: u16) -> (item: int)
    requires
        0 <= k < c.all_sensors().len(),
        c.all_sensors()[k].address == Some(a),
    ensures
        ({
            let s = c.all_sensors()[k];
            let n = c.area_controls(s.area).len();
            &&& n <= item < c.spans(s.area).len()
            &&& c.area_sensors(s.area)[item - n] == k
            &&& c.address_of(s.area, item) == a
        }),
{
    lemma_item(c, k)
}

/// Nothing of an area stands where another item stands, and the settings are small
/// enough for every address to be counted.
pub open spec fn orderly(c: SimConfig) -> bool {
    &&& crate::sim::registers::addressable(c)
    &&& c.separate(Area::Input)
    &&& c.separate(Area::Coils)
    &&& crate::sim::layout::explicit_disjoint(c.spans(Area::Holding))
}

/// How many addresses a sensor takes: two for a value in single precision, one for
/// an integer or a coil.
pub open spec fn words_of(s: SimSensor) -> int {
    if s.storage == Storage::F32 && s.area != Area::Coils {
        2
    } else {
        1
    }
}

/// Word `part` of sensor `k` is at this address of the sensor's area.
pub open spec fn word_at(map: RegisterMap, c: SimConfig, k: int, part: int, at: int) -> bool {
    let s = c.all_sensors()[k];
    match s.area {
        Area::Input => 0 <= at < map.inputs@.len() && (map.inputs@[at] matches Some(slot) && slot.position == k
            && slot.word == part && slot.storage == s.storage),
        Area::Coils => 0 <= at < map.coils@.len() && (map.coils@[at] matches Some(slot) && slot.position == k),
        Area::Holding => 0 <= at < map.holding@.len() && (map.holding@[at] matches Some(HoldingSlot::Sensor(slot))
            && slot.position == k && slot.word == part && slot.storage == s.storage),
    }
}

/// A sensor is found from this address on, all of its words in their order.
pub open spec fn found_at(map: RegisterMap, c: SimConfig, k: int, a: int) -> bool {
    &&& word_at(map, c, k, 0, a)
    &&& words_of(c.all_sensors()[k]) == 2 ==> word_at(map, c, k, 1, a + 1)
}

proof fn lemma_found(map: RegisterMap, c: SimConfig, k: int, item: int)
    requires
        map.built_from(c),
        orderly(c),
        0 <= k < c.all_sensors().len(),
        ({
            let s = c.all_sensors()[k];
            let n = c.area_controls(s.area).len();
            &&& n <= item < c.spans(s.area).len()
            &&& c.area_sensors(s.area)[item - n] == k
            &&& c.spans(s.area)[item].wide == (s.storage == Storage::F32 && s.area != Area::Coils)
        }),
    ensures
        found_at(map, c, k, c.address_of(c.all_sensors()[k].area, item)),
{
    let s = c.all_sensors()[k];
    let area = s.area;
    let spans = c.spans(area);
    let how = SimConfig::placement(area);
    let a = c.address_of(area, item);
    crate::sim::layout::explicit_items_decide(c.spans(Area::Holding));
    assert(crate::sim::layout::disjoint(how, spans));
    crate::sim::model::lemma_area_sensors(c, area);
    assert forall|part: int| 0 <= part < words_of(s) implies #[trigger] word_at(map, c, k, part, a + part) by {
        assert(crate::sim::layout::is_part(spans, item, part));
        crate::sim::layout::items_keep_their_cells(how, spans, item, part);
        match area {
            Area::Input => {
                assert(map.inputs@[a + part] == crate::sim::registers::sensor_at(c, Area::Input, a + part));
            },
            Area::Coils => {
                assert(map.coils@[a + part] == crate::sim::registers::sensor_at(c, Area::Coils, a + part));
            },
            Area::Holding => {
                assert(map.holding@[a + part] == crate::sim::registers::holding_at(c, a + part));
            },
        }
    }
    assert(word_at(map, c, k, 0, a + 0));
    assert(words_of(s) == 2 ==> word_at(map, c, k, 1, a + 1));
}

/// Every sensor is found in its own area, from its own address on where it has
/// one: two words for a value in single precision, else one.
pub proof fn every_sensor_is_found(map: RegisterMap, c: SimConfig, k: int) -> (a: int)
    requires
        map.built_from(c),
        orderly(c),
        0 <= k < c.all_sensors().len(),
    ensures
        found_at(map, c, k, a),
        c.all_sensors()[k].address matches Some(x) ==> a == x,
{
    let item = lemma_item(c, k);
    lemma_found(map, c, k, item);
    c.address_of(c.all_sensors()[k].area, item)
}

// ---- what registers read as ----

/// A sensor stored in one word whose stored number is the integer `n` reads as
/// `n`, over the whole range of a word, from the input registers.
pub proof fn a_stored_integer_is_read(
    before: SimSlaveState,
    readings: Readings,
    addr: u16,
    cnt: u16,
    r: Result<ModbusResponse, ModbusException>,
    after: SimSlaveState,
    k: int,
    a: int,
    n: int,
)
    requires
        crate::sim::server::handled(before, readings, ModbusRequest::ReadInputRegisters(addr, cnt), r, after),
        0 <= k < before.engine.sim.all_sensors().len(),
        before.engine.sim.all_sensors()[k].area == Area::Input,
        before.engine.sim.all_sensors()[k].storage == Storage::U16,
        found_at(before.map, before.engine.sim, k, a),
        addr <= a < addr + cnt,
        readings.raws@[k].is_integer(n),
        0 <= n <= 65535,
    ensures
        r matches Ok(ModbusResponse::ReadInputRegisters(words)) && words@.len() == cnt && words@[a - addr] == n,
{
    crate::number::integer_is_rounded_to_itself(readings.raws@[k], n);
}

/// A sensor stored in one word whose stored number is the integer `n` reads as
/// `n`, over the whole range of a word, from the holding registers.
pub proof fn a_stored_integer_is_read_from_holding(
    before: SimSlaveState,
    readings: Readings,
    addr: u16,
    cnt: u16,
    r: Result<ModbusResponse, ModbusException>,
    after: SimSlaveState,
    k: int,
    a: int,
    n: int,
)
    requires
        crate::sim::server::handled(before, readings, ModbusRequest::ReadHoldingRegisters(addr, cnt), r, after),
        0 <= k < before.engine.sim.all_sensors().len(),
        before.engine.sim.all_sensors()[k].area == Area::Holding,
        before.engine.sim.all_sensors()[k].storage == Storage::U16,
        found_at(before.map, before.engine.sim, k, a),
        addr <= a < addr + cnt,
        readings.raws@[k].is_integer(n),
        0 <= n <= 65535,
    ensures
        r matches Ok(ModbusResponse::ReadHoldingRegisters(words)) && words@.len() == cnt && words@[a - addr] == n,
{
    crate::number::integer_is_rounded_to_itself(readings.raws@[k], n);
}

/// A stored number beyond the range of a word reads as the bound that it lies
/// beyond; one between two integers as the nearest.
pub proof fn a_stored_number_is_rounded_and_held(slot: InputSlot, readings: Readings)
    requires
        slot.storage == Storage::U16,
    ensures
        ({
            let raw = readings.raws@[slot.position as int];
            let w = crate::sim::registers::slot_word(slot, readings);
            &&& raw.finite() && 0 <= raw.rounded() <= 65535 ==> w == raw.rounded()
            &&& raw.finite() && raw.rounded() > 65535 ==> w == 65535
            &&& raw.finite() && raw.rounded() < 0 ==> w == 0
            &&& raw.nan() ==> w == 0
        }),
{
}

/// A sensor in single precision reads, from the input registers, as the two halves
/// of its value, the higher one first.
pub proof fn a_single_is_read(
    before: SimSlaveState,
    readings: Readings,
    addr: u16,
    cnt: u16,
    r: Result<ModbusResponse, ModbusException>,
    after: SimSlaveState,
    k: int,
    a: int,
    b: u32,
)
    requires
        crate::sim::server::handled(before, readings, ModbusRequest::ReadInputRegisters(addr, cnt), r, after),
        0 <= k < before.engine.sim.all_sensors().len(),
        before.engine.sim.all_sensors()[k].area == Area::Input,
        before.engine.sim.all_sensors()[k].storage == Storage::F32,
        found_at(before.map, before.engine.sim, k, a),
        addr <= a,
        a + 2 <= addr + cnt,
        readings.values@[k] is Some,
        crate::number::widens(b, readings.values@[k]->0),
        crate::number::magnitude32(b) <= 0x7f80_0000,
    ensures
        r matches Ok(ModbusResponse::ReadInputRegisters(words)) && words@.len() == cnt && words@[a - addr] * 0x1_0000
            + words@[a - addr + 1] == b,
{
    crate::number::single_is_narrowed_to_itself(b, readings.values@[k]->0);
}

/// A coil reads as on exactly where its sensor has a value other than zero.
pub proof fn a_coil_is_read(
    before: SimSlaveState,
    readings: Readings,
    addr: u16,
    cnt: u16,
    r: Result<ModbusResponse, ModbusException>,
    after: SimSlaveState,
    k: int,
    a: int,
)
    requires
        crate::sim::server::handled(before, readings, ModbusRequest::ReadCoils(addr, cnt), r, after),
        0 <= k < before.engine.sim.all_sensors().len(),
        before.engine.sim.all_sensors()[k].area == Area::Coils,
        found_at(before.map, before.engine.sim, k, a),
        addr <= a < addr + cnt,
    ensures
        r matches Ok(ModbusResponse::ReadCoils(bits)) && bits@.len() == cnt && bits@[a - addr] == (
        readings.values@[k] matches Some(v) && v.bits != 0 && v.bits != 0x8000_0000_0000_0000),
        after == before,
{
}

/// What no sensor or control holds reads as zero, and as off.
pub proof fn what_is_not_there_reads_as_zero(
    before: SimSlaveState,
    readings: Readings,
    req: ModbusRequest,
    r: Result<ModbusResponse, ModbusException>,
    after: SimSlaveState,
    k: int,
)
    requires
        crate::sim::server::handled(before, readings, req, r, after),
        0 <= k,
    ensures
        (req matches ModbusRequest::ReadInputRegisters(addr, cnt) && k < cnt && (addr + k >= before.map.inputs@.len()
            || before.map.inputs@[addr + k] is None)) ==> (r matches Ok(ModbusResponse::ReadInputRegisters(words))
            && words@[k] == 0),
        (req matches ModbusRequest::ReadHoldingRegisters(addr, cnt) && k < cnt && (addr + k
            >= before.map.holding@.len() || before.map.holding@[addr + k] is None)) ==> (r matches Ok(
            ModbusResponse::ReadHoldingRegisters(words),
        ) && words@[k] == 0),
        (req matches ModbusRequest::ReadCoils(addr, cnt) && k < cnt && (addr + k >= before.map.coils@.len()
            || before.map.coils@[addr + k] is None)) ==> (r matches Ok(ModbusResponse::ReadCoils(bits)) && !bits@[k]),
        req is ReadDiscreteInputs || req is WriteSingleCoil || req is Other ==> r == Err::<
            ModbusResponse,
            ModbusException,
        >(ModbusException::IllegalFunction) && after == before,
{
}

/// A control that is a whole number reads as that number at its register.
pub proof fn a_control_is_read(
    before: SimSlaveState,
    readings: Readings,
    addr: u16,
    cnt: u16,
    r: Result<ModbusResponse, ModbusException>,
    after: SimSlaveState,
    i: int,
    a: u16,
    n: int,
)
    requires
        crate::sim::server::handled(before, readings, ModbusRequest::ReadHoldingRegisters(addr, cnt), r, after),
        before.map.built_from(before.engine.sim),
        orderly(before.engine.sim),
        0 <= i < before.engine.sim.controls@.len(),
        before.engine.sim.controls@[i].address == Some(a),
        addr <= a < addr + cnt,
        before.engine.engine.control_value(before.engine.sim.controls@[i].name@) is Some,
        before.engine.engine.control_value(before.engine.sim.controls@[i].name@)->0.is_integer(n),
        0 <= n <= 65535,
    ensures
        r matches Ok(ModbusResponse::ReadHoldingRegisters(words)) && words@.len() == cnt && words@[a - addr] == n,
        after == before,
{
    let c = before.engine.sim;
    crate::sim::registers::a_control_is_read_at_its_address(before.map, before.engine, readings, i);
    assert(c.spans(Area::Holding)[i] == crate::sim::model::control_span(c.controls@[i]));
    assert(c.address_of(Area::Holding, i) == a);
    crate::number::integer_is_rounded_to_itself(before.engine.engine.control_value(c.controls@[i].name@)->0, n);
}

// ---- what is stored ----

/// Readings of the plant hold, for every sensor, its value of one evaluation. What
/// is stored for a sensor of one word is that value, put through the sensor's
/// encoding where it has one that can be used; a sensor without a value is stored
/// as no number.
pub proof fn a_stored_number_comes_from_the_value<F: Fn(Evaluation) -> Real>(
    f: F,
    e: SimEngine,
    time: Real,
    readings: Readings,
    k: int,
)
    requires
        crate::sim::registers::taken(f, e, time, readings),
        0 <= k < e.sim.all_sensors().len(),
    ensures
        ({
            let s = e.sim.all_sensors()[k];
            let raw = readings.raws@[k];
            let integer = s.storage == Storage::U16 && s.area != Area::Coils;
            &&& s.encode is None || !integer ==> (match readings.values@[k] {
                Some(v) => raw == v,
                None => raw.nan(),
            })
            &&& integer && s.encode is Some && crate::expression::bind_fault(s.encode->0@, seq!["v"@]) is None
                && readings.values@[k] is Some ==> exists|q: Evaluation| #[trigger]
                f.ensures((q,), raw) && q.expression@ == s.encode->0@ && q.names@.len() == 1 && q.names@[0]@ == "v"@
                    && q.values@ == seq![readings.values@[k]->0]
            &&& integer && s.encode is Some && crate::expression::bind_fault(s.encode->0@, seq!["v"@]) is Some
                && readings.values@[k] is Some ==> raw == readings.values@[k]->0
        }),
{
    let round = choose|round: Round| #[trigger]
        e.engine.evaluated(f, time, round) && crate::sim::registers::reads_round(f, e, round, readings);
    let s = e.sim.all_sensors()[k];
    let raw = readings.raws@[k];
    assert(crate::sim::registers::raw_at(f, e, round, k, raw));
    assert(readings.values@[k] == crate::sim::registers::value_at(e, round, k));
    if crate::sim::registers::stores_integer(s) && s.encode is Some && crate::sim::registers::encode_fault(
        s.encode,
    ) is None && readings.values@[k] is Some {
        let v = readings.values@[k]->0;
        let q = choose|q: Evaluation| #[trigger]
            f.ensures((q,), raw) && crate::evaluation::asks(q, s.encode->0@, seq!["v"@], seq![v]);
        assert(crate::expression::texts(q.names@).len() == q.names@.len());
        assert(crate::expression::texts(q.names@)[0] == q.names@[0]@);
    }
}

// ---- writes ----

/// A word written to a control reads back as it was written up to 100, and as 100
/// beyond that. The answer repeats the request.
pub proof fn a_written_duty_reads_back(
    before: SimSlaveState,
    given: Readings,
    addr: u16,
    word: u16,
    r: Result<ModbusResponse, ModbusException>,
    after: SimSlaveState,
    readings: Readings,
    out: Result<ModbusResponse, ModbusException>,
    later: SimSlaveState,
)
    requires
        before.wf(),
        crate::sim::server::handled(before, given, ModbusRequest::WriteSingleRegister(addr, word), r, after),
        r is Ok,
        crate::sim::server::handled(after, readings, ModbusRequest::ReadHoldingRegisters(addr, 1), out, later),
    ensures
        r == Ok::<ModbusResponse, ModbusException>(ModbusResponse::WriteSingleRegister(addr, word)),
        out matches Ok(ModbusResponse::ReadHoldingRegisters(words)) && words@ == seq![
            if word <= 100 {
                word
            } else {
                100u16
            },
        ],
        later == after,
{
    crate::sim::server::a_written_word_is_read_back(before, given, addr, word, r, after, readings);
    let words = out->Ok_0->ReadHoldingRegisters_0;
    assert(words@[0] == after.map.holding_word(after.engine, readings, addr + 0));
    assert(words@ =~= seq![
        if word <= 100 {
            word
        } else {
            100u16
        },
    ]);
}

/// A write to a control that may be written succeeds and sets that control alone.
/// A write to one that may not, or to a sensor, is an illegal function, a write to
/// an empty address an illegal address, and neither changes the plant.
pub proof fn a_write_sets_one_control(
    before: SimSlaveState,
    given: Readings,
    addr: u16,
    word: u16,
    r: Result<ModbusResponse, ModbusException>,
    after: SimSlaveState,
)
    requires
        before.wf(),
        crate::sim::server::handled(before, given, ModbusRequest::WriteSingleRegister(addr, word), r, after),
    ensures
        addr >= before.map.holding@.len() || before.map.holding@[addr as int] is None ==> r == Err::<
            ModbusResponse,
            ModbusException,
        >(ModbusException::IllegalDataAddress) && after == before,
        addr < before.map.holding@.len() && (before.map.holding@[addr as int] matches Some(HoldingSlot::Sensor(_)))
            ==> r == Err::<ModbusResponse, ModbusException>(ModbusException::IllegalFunction) && after == before,
        addr < before.map.holding@.len() && (before.map.holding@[addr as int] matches Some(
            HoldingSlot::Control { writable, .. },
        ) && !writable) ==> r == Err::<ModbusResponse, ModbusException>(ModbusException::IllegalFunction) && after
            == before,
        r is Err ==> after == before,
        r is Ok ==> after.map == before.map && after.engine.sim == before.engine.sim && exists|name: Seq<char>|
            #![trigger after.engine.engine.control_value(name)]
            (before.map.holding@[addr as int] matches Some(HoldingSlot::Control { control, .. }) && control@ == name)
                && after.engine.engine.control_value(name) is Some
                && after.engine.engine.control_value(name)->0.is_integer(
                if word <= 100 {
                    word as int
                } else {
                    100
                },
            ) && forall|other: Seq<char>| other != name ==> #[trigger] after.engine.engine.control_value(other)
                == before.engine.engine.control_value(other),
{
    reveal_with_fuel(SimSlaveState::last_written, 2);
    if r is Ok {
        let k = before.target(addr as int)->0;
        let control = before.map.holding@[addr as int]->0->control;
        crate::engine::lemma_control_name(before.engine.engine.model.controls@, control@, 0);
        assert(before.last_written(addr, seq![word], 1, k) == Some(word));
        let v = after.engine.engine.values@[k];
        assert(v.is_integer(crate::sim::server::limited(word)));
        assert(after.engine.engine.control_value(control@) == Some(v));
        assert forall|other: Seq<char>| other != control@ implies #[trigger] after.engine.engine.control_value(other)
            == before.engine.engine.control_value(other) by {
            crate::engine::lemma_control_name(before.engine.engine.model.controls@, other, 0);
            if let Some(j) = crate::evaluation::control_index(before.engine.engine.model.controls@, other, 0) {
                assert(before.last_written(addr, seq![word], 1, j) is None);
                assert(after.engine.engine.values@[j] == before.engine.engine.values@[j]);
            }
        }
    }
}

/// A write of several words that succeeds answers with their number, and each
/// control has the last word that was written to it, held to 100; controls that
/// none was written to stay.
pub proof fn a_write_of_many_words_sets_their_controls(
    before: SimSlaveState,
    given: Readings,
    addr: u16,
    words: Vec<u16>,
    r: Result<ModbusResponse, ModbusException>,
    after: SimSlaveState,
    i: int,
)
    requires
        before.wf(),
        crate::sim::server::handled(before, given, ModbusRequest::WriteMultipleRegisters(addr, words), r, after),
        r is Ok,
        addr + words@.len() <= 0x1_0000,
        0 <= i < words@.len(),
        forall|a: int|
            addr + i < a < addr + words@.len() ==> #[trigger] before.target(a) != before.target(addr + i),
    ensures
        words@.len() <= 0xffff ==> r == Ok::<ModbusResponse, ModbusException>(
            ModbusResponse::WriteMultipleRegisters(addr, words@.len() as u16),
        ),
        before.target(addr + i) matches Some(k) && after.engine.engine.values@[k].is_integer(
            if words@[i] <= 100 {
                words@[i] as int
            } else {
                100
            },
        ),
{
    lemma_none_refused(before, addr, words@.len() as int, 0, i);
    let k = before.target(addr + i)->0;
    let control = before.map.holding@[addr + i]->0->control;
    crate::engine::lemma_control_name(before.engine.engine.model.controls@, control@, 0);
    lemma_last_written(before, addr, words@, words@.len() as int, i, k);
}

proof fn lemma_none_refused(s: SimSlaveState, addr: u16, len: int, from: int, i: int)
    requires
        0 <= from <= i < len,
        addr + len <= 0x1_0000,
        s.first_refused(addr, len, from) is None,
    ensures
        s.write_fault(addr + i) is None,
    decreases i - from,
{
    if from < i {
        lemma_none_refused(s, addr, len, from + 1, i);
    } else {
        assert(crate::sim::server::word_address(addr, i) == addr + i);
    }
}

proof fn lemma_last_written(s: SimSlaveState, addr: u16, words: Seq<u16>, n: int, i: int, k: int)
    requires
        0 <= i < n <= words.len(),
        addr + words.len() <= 0x1_0000,
        s.target(addr + i) == Some(k),
        forall|a: int| addr + i < a < addr + words.len() ==> #[trigger] s.target(a) != Some(k),
    ensures
        s.last_written(addr, words, n, k) == Some(words[i]),
    decreases n,
{
    assert(crate::sim::server::word_address(addr, n - 1) == addr + (n - 1));
    if n - 1 > i {
        assert(s.target(addr + (n - 1)) != Some(k));
        lemma_last_written(s, addr, words, n - 1, i, k);
    }
}

/// A control is set exactly where there is one of that name that may be written.
/// What stands in the way is said: the control is unknown, or it is read-only.
pub proof fn a_control_is_set_where_it_may_be(
    before: Engine,
    name: Seq<char>,
    value: Real,
    fault: Option<ControlFault>,
    after: Engine,
    k: int,
)
    requires
        before.wf(),
        crate::engine::control_set(before, name, value, fault, after),
        0 <= k < before.model.controls@.len(),
        before.model.controls@[k]@ == name,
        forall|j: int| 0 <= j < k ==> (#[trigger] before.model.controls@[j])@ != name,
    ensures
        before.writable@[k] ==> fault is None && after.control_value(name) == Some(value),
        !before.writable@[k] ==> fault == Some(ControlFault::ReadOnly) && after == before,
        crate::sim::model::fault_text(ControlFault::ReadOnly, name) == "control `"@ + name + "` is read-only"@,
        crate::sim::model::fault_text(ControlFault::Unknown, name) == "unknown control `"@ + name + "`"@,
{
    lemma_index(before.model.controls@, name, 0, k);
    if fault is None {
        crate::engine::a_set_control_is_read_back(before, name, value, after);
    }
}

proof fn lemma_index(controls: Seq<String>, name: Seq<char>, i: int, k: int)
    requires
        0 <= i <= k < controls.len(),
        controls[k]@ == name,
        forall|j: int| i <= j < k ==> (#[trigger] controls[j])@ != name,
    ensures
        crate::evaluation::control_index(controls, name, i) == Some(k),
    decreases k - i,
{
    if i < k {
        lemma_index(controls, name, i + 1, k);
    }
}

/// A control of an unknown name cannot be set, and has no value.
pub proof fn an_unknown_control_cannot_be_set(
    before: Engine,
    name: Seq<char>,
    value: Real,
    fault: Option<ControlFault>,
    after: Engine,
)
    requires
        crate::engine::control_set(before, name, value, fault, after),
        forall|j: int| 0 <= j < before.model.controls@.len() ==> (#[trigger] before.model.controls@[j])@ != name,
    ensures
        fault == Some(ControlFault::Unknown),
        after == before,
        before.control_value(name) is None,
{
    crate::engine::lemma_control_name(before.model.controls@, name, 0);
}

} // verus!
