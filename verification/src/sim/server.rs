//! The Modbus side of the simulator: registers and coils are read, and writes set
//! controls.

use vstd::prelude::*;

use crate::evaluation::Evaluation;
use crate::number::Real;
use crate::protocol::modbus_server::{ModbusException, ModbusRequest, ModbusResponse};
use crate::sim::model::SimEngine;
use crate::sim::registers::{HoldingSlot, Readings, RegisterMap};

verus! {

/// The plant and its registers.
#[derive(Debug)]
pub struct SimSlaveState {
    pub engine: SimEngine,
    pub map: RegisterMap,
}

/// The highest value that a register write gives a control.
pub const CONTROL_LIMIT: u16 = 100;

/// The value that a written word stands for.
pub open spec fn limited(word: u16) -> int {
    if word > CONTROL_LIMIT {
        CONTROL_LIMIT as int
    } else {
        word as int
    }
}

/// The address of word `i` of a write; addresses wrap around.
pub open spec fn word_address(addr: u16, i: int) -> int {
    (addr + i) % 0x1_0000
}

impl SimSlaveState {
    pub open spec fn wf(self) -> bool {
        &&& self.engine.wf()
        &&& self.map.built_from(self.engine.sim)
    }

    /// The control that a write to a holding register sets.
    pub open spec fn target(self, address: int) -> Option<int> {
        match self.map.holding@[address] {
            Some(HoldingSlot::Control { control, .. }) => crate::evaluation::control_index(
                self.engine.engine.model.controls@,
                control@,
                0,
            ),
            _ => None,
        }
    }

    /// Why a write to a holding register is refused.
    pub open spec fn write_fault(self, address: int) -> Option<ModbusException> {
        if address >= self.map.holding@.len() {
            Some(ModbusException::IllegalDataAddress)
        } else {
            match self.map.holding@[address] {
                None => Some(ModbusException::IllegalDataAddress),
                Some(HoldingSlot::Sensor(_)) => Some(ModbusException::IllegalFunction),
                Some(HoldingSlot::Control { writable, .. }) => if !writable {
                    Some(ModbusException::IllegalFunction)
                } else {
                    match self.target(address) {
                        Some(k) if self.engine.engine.writable@[k] => None,
                        _ => Some(ModbusException::IllegalDataValue),
                    }
                },
            }
        }
    }

    /// The first of the words, from `i` on, whose write is refused.
    pub open spec fn first_refused(self, addr: u16, len: int, i: int) -> Option<int>
        decreases len - i,
    {
        if i >= len {
            None
        } else if self.write_fault(word_address(addr, i)) is Some {
            Some(i)
        } else {
            self.first_refused(addr, len, i + 1)
        }
    }

    /// The last of the first `n` words that is written to a control.
    pub open spec fn last_written(self, addr: u16, words: Seq<u16>, n: int, control: int) -> Option<u16>
        decreases n,
    {
        if n <= 0 {
            None
        } else if self.target(word_address(addr, n - 1)) == Some(control) {
            Some(words[n - 1])
        } else {
            self.last_written(addr, words, n - 1, control)
        }
    }
}

/// The first `n` words were written one after the other: each control has the
/// value of the last word written to it, or the value that it had.
pub open spec fn wrote(before: SimSlaveState, addr: u16, words: Seq<u16>, n: int, after: SimSlaveState) -> bool {
    let a = before.engine.engine;
    let b = after.engine.engine;
    &&& after.map == before.map
    &&& after.engine.sim == before.engine.sim
    &&& b == (crate::engine::Engine { values: b.values, ..a })
    &&& b.values@.len() == a.values@.len()
    &&& forall|k: int|
        0 <= k < a.values@.len() ==> match before.last_written(addr, words, n, k) {
            Some(w) => (#[trigger] b.values@[k]).is_integer(limited(w)),
            None => b.values@[k] == a.values@[k],
        }
}

/// The request reads sensors.
pub open spec fn reads_sensors(req: ModbusRequest) -> bool {
    req is ReadHoldingRegisters || req is ReadInputRegisters || req is ReadCoils
}

/// What a request is answered, and the state after it.
pub open spec fn handled(
    before: SimSlaveState,
    readings: Readings,
    req: ModbusRequest,
    r: Result<ModbusResponse, ModbusException>,
    after: SimSlaveState,
) -> bool {
    match req {
        ModbusRequest::ReadHoldingRegisters(addr, cnt) => {
            &&& after == before
            &&& r matches Ok(ModbusResponse::ReadHoldingRegisters(w)) && w@ == Seq::new(
                cnt as nat,
                |i: int| before.map.holding_word(before.engine, readings, addr + i),
            )
        },
        ModbusRequest::ReadInputRegisters(addr, cnt) => {
            &&& after == before
            &&& r matches Ok(ModbusResponse::ReadInputRegisters(w)) && w@ == Seq::new(
                cnt as nat,
                |i: int| before.map.input_word(readings, addr + i),
            )
        },
        ModbusRequest::ReadCoils(addr, cnt) => {
            &&& after == before
            &&& r matches Ok(ModbusResponse::ReadCoils(b)) && b@ == Seq::new(
                cnt as nat,
                |i: int| before.map.coil_bit(readings, addr + i),
            )
        },
        ModbusRequest::WriteSingleRegister(addr, word) => match before.write_fault(addr as int) {
            Some(e) => after == before && r == Err::<ModbusResponse, ModbusException>(e),
            None => {
                &&& wrote(before, addr, seq![word], 1, after)
                &&& r == Ok::<ModbusResponse, ModbusException>(ModbusResponse::WriteSingleRegister(addr, word))
            },
        },
        ModbusRequest::WriteMultipleRegisters(addr, words) => match before.first_refused(
            addr,
            words@.len() as int,
            0,
        ) {
            Some(i) => {
                &&& wrote(before, addr, words@, i, after)
                &&& before.write_fault(word_address(addr, i)) matches Some(e) && r == Err::<
                    ModbusResponse,
                    ModbusException,
                >(e)
            },
            None => {
                &&& wrote(before, addr, words@, words@.len() as int, after)
                &&& r == Ok::<ModbusResponse, ModbusException>(
                    ModbusResponse::WriteMultipleRegisters(addr, (words@.len() % 0x1_0000) as u16),
                )
            },
        },
        _ => after == before && r == Err::<ModbusResponse, ModbusException>(ModbusException::IllegalFunction),
    }
}

impl SimSlaveState {
    /// The state of a simulator for a plant.
    pub fn new(engine: SimEngine) -> (r: SimSlaveState)
        requires
            engine.wf(),
            crate::sim::registers::addressable(engine.sim),
        ensures
            r.wf(),
            r.engine == engine,
    {
        let map = RegisterMap::build(engine.config());
        SimSlaveState { engine, map }
    }

    /// Writes a word to the control behind a holding register.
    fn write_control(&mut self, addr: u16, word: u16) -> (r: Result<(), ModbusException>)
        requires
            old(self).wf(),
        ensures
            final(self).wf(),
            match old(self).write_fault(addr as int) {
                Some(e) => *final(self) == *old(self) && r == Err::<(), ModbusException>(e),
                None => {
                    &&& r is Ok
                    &&& final(self).map == old(self).map
                    &&& final(self).engine.sim == old(self).engine.sim
                    &&& old(self).target(addr as int) matches Some(t) && 0 <= t
                        < old(self).engine.engine.values@.len() && final(self).engine.engine
                        == (crate::engine::Engine {
                        values: final(self).engine.engine.values,
                        ..old(self).engine.engine
                    }) && exists|v: Real|
                        v.is_integer(limited(word)) && #[trigger] old(self).engine.engine.values@.update(t, v)
                            == final(self).engine.engine.values@
                },
            },
    {
        let address: usize = addr as usize;
        if address >= self.map.holding.len() {
            return Err(ModbusException::IllegalDataAddress);
        }
        let value = Real::from_integer(
            if word > CONTROL_LIMIT {
                CONTROL_LIMIT as i64
            } else {
                word as i64
            },
        );
        match &self.map.holding[address] {
            None => Err(ModbusException::IllegalDataAddress),
            Some(HoldingSlot::Sensor(_)) => Err(ModbusException::IllegalFunction),
            Some(HoldingSlot::Control { control, writable }) => {
                if !*writable {
                    return Err(ModbusException::IllegalFunction);
                }
                proof {
                    crate::engine::lemma_control_name(self.engine.engine.model.controls@, control@, 0);
                }
                let ghost before = self.engine.engine;
                match self.engine.set_control(control.as_str(), value) {
                    Ok(()) => {
                        assert(before.values@.update(self.target(addr as int)->0, value)
                            == self.engine.engine.values@);
                        Ok(())
                    },
                    Err(_) => Err(ModbusException::IllegalDataValue),
                }
            },
        }
    }

    fn write_controls(&mut self, addr: u16, words: &Vec<u16>) -> (r: Result<(), ModbusException>)
        requires
            old(self).wf(),
        ensures
            final(self).wf(),
            match old(self).first_refused(addr, words@.len() as int, 0) {
                Some(i) => {
                    &&& wrote(*old(self), addr, words@, i, *final(self))
                    &&& old(self).write_fault(word_address(addr, i)) matches Some(e) && r == Err::<
                        (),
                        ModbusException,
                    >(e)
                },
                None => r is Ok && wrote(*old(self), addr, words@, words@.len() as int, *final(self)),
            },
    {
        let ghost before = *self;
        let mut i: usize = 0;
        while i < words.len()
            invariant
                i <= words@.len(),
                before == *old(self),
                self.wf(),
                wrote(before, addr, words@, i as int, *self),
                before.first_refused(addr, words@.len() as int, 0) == before.first_refused(
                    addr,
                    words@.len() as int,
                    i as int,
                ),
            decreases words@.len() - i,
        {
            let at: u16 = ((addr as usize + i % 0x1_0000) % 0x1_0000) as u16;
            assert(at == word_address(addr, i as int));
            assert(self.write_fault(at as int) == before.write_fault(at as int));
            assert(self.target(at as int) == before.target(at as int));
            match self.write_control(at, words[i]) {
                Ok(()) => {},
                Err(e) => {
                    return Err(e);
                },
            }
            i = i + 1;
        }
        Ok(())
    }

    fn read_holding_words(&self, readings: &Readings, addr: u16, cnt: u16) -> (r: Vec<u16>)
        requires
            self.wf(),
            readings.complete(self.engine.sim),
        ensures
            r@ == Seq::new(cnt as nat, |i: int| self.map.holding_word(self.engine, *readings, addr + i)),
    {
        let mut r: Vec<u16> = Vec::new();
        let mut i: u16 = 0;
        while i < cnt
            invariant
                i <= cnt,
                self.wf(),
                readings.complete(self.engine.sim),
                r@.len() == i,
                forall|k: int| 0 <= k < i ==> #[trigger] r@[k] == self.map.holding_word(
                    self.engine,
                    *readings,
                    addr + k,
                ),
            decreases cnt - i,
        {
            r.push(self.map.read_holding(&self.engine, readings, addr as usize + i as usize));
            i = i + 1;
        }
        assert(r@ =~= Seq::new(cnt as nat, |i: int| self.map.holding_word(self.engine, *readings, addr + i)));
        r
    }

    fn read_input_words(&self, readings: &Readings, addr: u16, cnt: u16) -> (r: Vec<u16>)
        requires
            self.wf(),
            readings.complete(self.engine.sim),
        ensures
            r@ == Seq::new(cnt as nat, |i: int| self.map.input_word(*readings, addr + i)),
    {
        let mut r: Vec<u16> = Vec::new();
        let mut i: u16 = 0;
        while i < cnt
            invariant
                i <= cnt,
                self.wf(),
                readings.complete(self.engine.sim),
                r@.len() == i,
                forall|k: int| 0 <= k < i ==> #[trigger] r@[k] == self.map.input_word(*readings, addr + k),
            decreases cnt - i,
        {
            r.push(self.map.read_input(&self.engine, readings, addr as usize + i as usize));
            i = i + 1;
        }
        assert(r@ =~= Seq::new(cnt as nat, |i: int| self.map.input_word(*readings, addr + i)));
        r
    }

    fn read_coil_bits(&self, readings: &Readings, addr: u16, cnt: u16) -> (r: Vec<bool>)
        requires
            self.wf(),
            readings.complete(self.engine.sim),
        ensures
            r@ == Seq::new(cnt as nat, |i: int| self.map.coil_bit(*readings, addr + i)),
    {
        let mut r: Vec<bool> = Vec::new();
        let mut i: u16 = 0;
        while i < cnt
            invariant
                i <= cnt,
                self.wf(),
                readings.complete(self.engine.sim),
                r@.len() == i,
                forall|k: int| 0 <= k < i ==> #[trigger] r@[k] == self.map.coil_bit(*readings, addr + k),
            decreases cnt - i,
        {
            r.push(self.map.read_coil(&self.engine, readings, addr as usize + i as usize));
            i = i + 1;
        }
        assert(r@ =~= Seq::new(cnt as nat, |i: int| self.map.coil_bit(*readings, addr + i)));
        r
    }

    /// Answers a request. Reads need complete readings; writes need none.
    pub fn handle(&mut self, readings: &Readings, req: &ModbusRequest) -> (r: Result<ModbusResponse, ModbusException>)
        requires
            old(self).wf(),
            reads_sensors(*req) ==> readings.complete(old(self).engine.sim),
        ensures
            final(self).wf(),
            handled(*old(self), *readings, *req, r, *final(self)),
    {
        match req {
            ModbusRequest::ReadHoldingRegisters(addr, cnt) => Ok(
                ModbusResponse::ReadHoldingRegisters(self.read_holding_words(readings, *addr, *cnt)),
            ),
            ModbusRequest::ReadInputRegisters(addr, cnt) => Ok(
                ModbusResponse::ReadInputRegisters(self.read_input_words(readings, *addr, *cnt)),
            ),
            ModbusRequest::ReadCoils(addr, cnt) => Ok(
                ModbusResponse::ReadCoils(self.read_coil_bits(readings, *addr, *cnt)),
            ),
            ModbusRequest::WriteSingleRegister(addr, word) => {
                let ghost before = *self;
                match self.write_control(*addr, *word) {
                    Ok(()) => {
                        assert(before.last_written(*addr, seq![*word], 0, 0) is None);
                        assert(wrote(before, *addr, seq![*word], 1, *self)) by {
                            reveal_with_fuel(SimSlaveState::last_written, 2);
                        }
                        Ok(ModbusResponse::WriteSingleRegister(*addr, *word))
                    },
                    Err(e) => Err(e),
                }
            },
            ModbusRequest::WriteMultipleRegisters(addr, words) => match self.write_controls(*addr, words) {
                Ok(()) => Ok(ModbusResponse::WriteMultipleRegisters(*addr, (words.len() % 0x1_0000) as u16)),
                Err(e) => Err(e),
            },
            _ => Err(ModbusException::IllegalFunction),
        }
    }

    /// Answers a request, `time` seconds after the start. For a read, the
    /// sensors are read first; formulas and encodings are evaluated by `f`.
    pub fn answer<F: Fn(Evaluation) -> Real>(&mut self, time: Real, req: &ModbusRequest, f: &F) -> (r: Result<
        ModbusResponse,
        ModbusException,
    >)
        requires
            old(self).wf(),
            crate::sim::registers::encodable(old(self).engine.sim),
            forall|e: Evaluation| f.requires((e,)),
        ensures
            final(self).wf(),
            exists|readings: Readings|
                {
                    &&& #[trigger] handled(*old(self), readings, *req, r, *final(self))
                    &&& reads_sensors(*req) ==> crate::sim::registers::taken(*f, old(self).engine, time, readings)
                },
    {
        let reads = match req {
            ModbusRequest::ReadHoldingRegisters(_, _) => true,
            ModbusRequest::ReadInputRegisters(_, _) => true,
            ModbusRequest::ReadCoils(_, _) => true,
            _ => false,
        };
        let readings = if reads {
            self.engine.readings(time, f)
        } else {
            Readings { values: Vec::new(), raws: Vec::new() }
        };
        self.handle(&readings, req)
    }
}

/// A word that was written to a register reads back there, held to the range of
/// a control, whatever the sensors read.
pub proof fn a_written_word_is_read_back(
    before: SimSlaveState,
    given: Readings,
    addr: u16,
    word: u16,
    r: Result<ModbusResponse, ModbusException>,
    after: SimSlaveState,
    readings: Readings,
)
    requires
        before.wf(),
        handled(before, given, ModbusRequest::WriteSingleRegister(addr, word), r, after),
        r is Ok,
    ensures
        after.map.holding_word(after.engine, readings, addr as int) == limited(word),
{
    let k = before.target(addr as int)->0;
    reveal_with_fuel(SimSlaveState::last_written, 2);
    let control = before.map.holding@[addr as int]->0->control;
    crate::engine::lemma_control_name(before.engine.engine.model.controls@, control@, 0);
    assert(before.last_written(addr, seq![word], 1, k) == Some(word));
    let v = after.engine.engine.values@[k];
    assert(v.is_integer(limited(word)));
    crate::number::integer_is_rounded_to_itself(v, limited(word));
}

} // verus!
