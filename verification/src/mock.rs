//! A simulated board: a Modbus slave held in memory.

use vstd::prelude::*;

use crate::protocol::modbus_server::{ModbusException, ModbusRequest, ModbusResponse};

verus! {

/// A Modbus slave in memory. A fixed one answers from its maps; a dynamic one
/// makes up words that change with every read.
#[derive(Debug)]
pub struct MockPcba {
    pub holding: Vec<u16>,
    pub input: Vec<u16>,
    pub coils: Vec<bool>,
    pub dynamic: bool,
    /// The number of reads of words so far.
    pub request_count: u64,
}

/// The address `k` places after `addr`, counted around the address space.
pub open spec fn address_after(addr: u16, k: int) -> int {
    (addr + k) % 0x1_0000
}

/// A word of a map; 0 past its end.
pub open spec fn word_of(map: Seq<u16>, address: int) -> u16 {
    if address < map.len() {
        map[address]
    } else {
        0
    }
}

/// A bit of a map; off past its end.
pub open spec fn bit_of(map: Seq<bool>, address: int) -> bool {
    address < map.len() && map[address]
}

/// The word that a dynamic board gives on read number `snapshot`.
pub open spec fn made_up(holding: bool, address: int, snapshot: u64) -> u16 {
    if holding && address == 0 {
        (250 + snapshot % 50) as u16
    } else if holding && address == 1 {
        (3200 + snapshot % 200) as u16
    } else if holding && address == 2 {
        (snapshot / 0x1_0000 % 0x1_0000) as u16
    } else if holding && address == 3 {
        (snapshot % 0x1_0000) as u16
    } else if holding && address == 4 {
        0x4148
    } else if !holding && address == 0 {
        (12500 + snapshot % 10) as u16
    } else if !holding && address == 1 {
        (900 + snapshot % 20) as u16
    } else {
        0
    }
}

/// The word that a dynamic board gives on read number `snapshot`: raw
/// temperature, fan speed, uptime in two words, the single-precision number
/// 12.5 in two words; raw input voltage and current.
pub fn dynamic_value(holding: bool, addr: u16, snapshot: u64) -> (r: u16)
    ensures
        r == made_up(holding, addr as int, snapshot),
{
    if holding {
        if addr == 0 {
            (250 + snapshot % 50) as u16
        } else if addr == 1 {
            (3200 + snapshot % 200) as u16
        } else if addr == 2 {
            (snapshot / 0x1_0000 % 0x1_0000) as u16
        } else if addr == 3 {
            (snapshot % 0x1_0000) as u16
        } else if addr == 4 {
            0x4148
        } else {
            0
        }
    } else if addr == 0 {
        (12500 + snapshot % 10) as u16
    } else if addr == 1 {
        (900 + snapshot % 20) as u16
    } else {
        0
    }
}

/// The words of a read: the `k`-th one lies `k` addresses further.
pub open spec fn words_read(s: MockPcba, holding: bool, addr: u16, cnt: u16) -> Seq<u16> {
    Seq::new(
        cnt as nat,
        |k: int|
            if s.dynamic {
                made_up(holding, address_after(addr, k), (s.request_count + 1) as u64)
            } else if holding {
                word_of(s.holding@, address_after(addr, k))
            } else {
                word_of(s.input@, address_after(addr, k))
            },
    )
}

/// The bits of a read. Of the discrete inputs the first is on.
pub open spec fn bits_read(s: MockPcba, coils: bool, addr: u16, cnt: u16) -> Seq<bool> {
    Seq::new(
        cnt as nat,
        |k: int|
            if coils {
                bit_of(s.coils@, address_after(addr, k))
            } else {
                address_after(addr, k) == 0
            },
    )
}

/// A map with one address written; a write past its end changes nothing.
pub open spec fn written<T>(map: Seq<T>, address: int, v: T) -> Seq<T> {
    if address < map.len() {
        map.update(address, v)
    } else {
        map
    }
}

/// A map with the first `n` of several words written, from `addr` on.
pub open spec fn all_written(map: Seq<u16>, addr: u16, words: Seq<u16>, n: int) -> Seq<u16>
    decreases n,
{
    if n <= 0 {
        map
    } else {
        written(all_written(map, addr, words, n - 1), address_after(addr, n - 1), words[n - 1])
    }
}

/// `b` is `a` but for these maps.
pub open spec fn other_parts_same(a: MockPcba, b: MockPcba) -> bool {
    &&& b.input@ == a.input@
    &&& b.dynamic == a.dynamic
    &&& b.request_count == a.request_count
}

fn zeros(n: usize) -> (r: Vec<u16>)
    ensures
        r@ == Seq::new(n as nat, |i: int| 0u16),
{
    let mut r: Vec<u16> = Vec::new();
    let mut i: usize = 0;
    while i < n
        invariant
            i <= n,
            r@ == Seq::new(i as nat, |i: int| 0u16),
        decreases n - i,
    {
        r.push(0);
        assert(r@ =~= Seq::new((i + 1) as nat, |i: int| 0u16));
        i = i + 1;
    }
    r
}

fn wrap(addr: u16, k: u16) -> (r: u16)
    ensures
        r == address_after(addr, k as int),
{
    ((addr as u32 + k as u32) % 0x1_0000) as u16
}

impl MockPcba {
    /// A fixed board with known words: 0x1234, -1, 0xDEADBEEF and 12.5 in the
    /// holding registers, 200 and -1 in the input registers.
    pub fn fixed() -> (r: Self)
        ensures
            r.holding@ == seq![0x1234u16, 0xffff, 0xdead, 0xbeef, 0x4148, 0, 0, 0],
            r.input@ == seq![200u16, 0xffff, 0, 0],
            r.coils@ == Seq::new(8, |i: int| false),
            !r.dynamic,
            r.request_count == 0,
    {
        let mut holding = zeros(8);
        holding.set(0, 0x1234);
        holding.set(1, 0xffff);
        holding.set(2, 0xdead);
        holding.set(3, 0xbeef);
        holding.set(4, 0x4148);
        let mut input = zeros(4);
        input.set(0, 200);
        input.set(1, 0xffff);
        let r = MockPcba::from_maps(holding, input);
        assert(r.holding@ =~= seq![0x1234u16, 0xffff, 0xdead, 0xbeef, 0x4148, 0, 0, 0]);
        assert(r.input@ =~= seq![200u16, 0xffff, 0, 0]);
        r
    }

    /// A dynamic board.
    pub fn dynamic() -> (r: Self)
        ensures
            r.holding@ == Seq::new(8, |i: int| 0u16),
            r.input@ == Seq::new(4, |i: int| 0u16),
            r.coils@ == Seq::new(8, |i: int| false),
            r.dynamic,
            r.request_count == 0,
    {
        MockPcba::from_maps(zeros(8), zeros(4)).with_dynamic()
    }

    /// A fixed board with these words, and eight coils that are off.
    pub fn from_maps(holding: Vec<u16>, input: Vec<u16>) -> (r: Self)
        ensures
            r.holding@ == holding@,
            r.input@ == input@,
            r.coils@ == Seq::new(8, |i: int| false),
            !r.dynamic,
            r.request_count == 0,
    {
        let mut coils: Vec<bool> = Vec::new();
        let mut i: usize = 0;
        while i < 8
            invariant
                i <= 8,
                coils@ == Seq::new(i as nat, |i: int| false),
            decreases 8 - i,
        {
            coils.push(false);
            assert(coils@ =~= Seq::new((i + 1) as nat, |i: int| false));
            i = i + 1;
        }
        MockPcba { holding, input, coils, dynamic: false, request_count: 0 }
    }

    /// The board, made dynamic.
    pub fn with_dynamic(self) -> (r: Self)
        ensures
            r == (MockPcba { dynamic: true, ..self }),
    {
        MockPcba {
            holding: self.holding,
            input: self.input,
            coils: self.coils,
            dynamic: true,
            request_count: self.request_count,
        }
    }

    /// Reads words; the whole read is of one moment.
    pub fn words(&mut self, holding: bool, addr: u16, cnt: u16) -> (r: Vec<u16>)
        requires
            old(self).request_count < u64::MAX,
        ensures
            r@ == words_read(*old(self), holding, addr, cnt),
            *final(self) == (MockPcba { request_count: (old(self).request_count + 1) as u64, ..*old(self) }),
    {
        let snapshot: u64 = self.request_count + 1;
        self.request_count = snapshot;
        let mut r: Vec<u16> = Vec::new();
        let mut i: u16 = 0;
        let ghost want = words_read(*old(self), holding, addr, cnt);
        while i < cnt
            invariant
                i <= cnt,
                *self == (MockPcba { request_count: snapshot, ..*old(self) }),
                snapshot == old(self).request_count + 1,
                want == words_read(*old(self), holding, addr, cnt),
                r@ == want.take(i as int),
            decreases cnt - i,
        {
            let a: u16 = wrap(addr, i);
            let at: usize = a as usize;
            let w: u16 = if self.dynamic {
                dynamic_value(holding, a, snapshot)
            } else if holding {
                if at < self.holding.len() {
                    self.holding[at]
                } else {
                    0
                }
            } else if at < self.input.len() {
                self.input[at]
            } else {
                0
            };
            r.push(w);
            assert(want.take(i + 1) =~= want.take(i as int).push(want[i as int]));
            i = i + 1;
        }
        assert(want.take(cnt as int) =~= want);
        r
    }

    /// Reads bits.
    pub fn bits(&self, coils: bool, addr: u16, cnt: u16) -> (r: Vec<bool>)
        ensures
            r@ == bits_read(*self, coils, addr, cnt),
    {
        let mut r: Vec<bool> = Vec::new();
        let mut i: u16 = 0;
        let ghost want = bits_read(*self, coils, addr, cnt);
        while i < cnt
            invariant
                i <= cnt,
                want == bits_read(*self, coils, addr, cnt),
                r@ == want.take(i as int),
            decreases cnt - i,
        {
            let a: u16 = wrap(addr, i);
            let at: usize = a as usize;
            let b: bool = if coils {
                at < self.coils.len() && self.coils[at]
            } else {
                a == 0
            };
            r.push(b);
            assert(want.take(i + 1) =~= want.take(i as int).push(want[i as int]));
            i = i + 1;
        }
        assert(want.take(cnt as int) =~= want);
        r
    }

    /// Writes a holding register.
    pub fn write_holding(&mut self, addr: u16, word: u16)
        ensures
            other_parts_same(*old(self), *final(self)),
            final(self).holding@ == written(old(self).holding@, addr as int, word),
            final(self).coils@ == old(self).coils@,
    {
        let i: usize = addr as usize;
        if i < self.holding.len() {
            self.holding.set(i, word);
        }
    }

    /// Writes a coil.
    pub fn write_coil(&mut self, addr: u16, value: bool)
        ensures
            other_parts_same(*old(self), *final(self)),
            final(self).coils@ == written(old(self).coils@, addr as int, value),
            final(self).holding@ == old(self).holding@,
    {
        let i: usize = addr as usize;
        if i < self.coils.len() {
            self.coils.set(i, value);
        }
    }

    fn write_all(&mut self, addr: u16, words: &Vec<u16>)
        ensures
            other_parts_same(*old(self), *final(self)),
            final(self).holding@ == all_written(old(self).holding@, addr, words@, words@.len() as int),
            final(self).coils@ == old(self).coils@,
    {
        let mut i: usize = 0;
        while i < words.len()
            invariant
                i <= words@.len(),
                other_parts_same(*old(self), *self),
                self.holding@ == all_written(old(self).holding@, addr, words@, i as int),
                self.coils@ == old(self).coils@,
            decreases words@.len() - i,
        {
            let k: u16 = (i % 0x1_0000) as u16;
            assert(address_after(addr, k as int) == address_after(addr, i as int));
            self.write_holding(wrap(addr, k), words[i]);
            i = i + 1;
        }
    }

    /// Answers a request.
    pub fn call(&mut self, req: &ModbusRequest) -> (r: Result<ModbusResponse, ModbusException>)
        requires
            old(self).request_count < u64::MAX,
        ensures
            answers_request(*old(self), *req, *final(self), r),
    {
        match req {
            ModbusRequest::ReadHoldingRegisters(addr, cnt) => Ok(
                ModbusResponse::ReadHoldingRegisters(self.words(true, *addr, *cnt)),
            ),
            ModbusRequest::ReadInputRegisters(addr, cnt) => Ok(
                ModbusResponse::ReadInputRegisters(self.words(false, *addr, *cnt)),
            ),
            ModbusRequest::ReadCoils(addr, cnt) => Ok(ModbusResponse::ReadCoils(self.bits(true, *addr, *cnt))),
            ModbusRequest::ReadDiscreteInputs(addr, cnt) => Ok(
                ModbusResponse::ReadDiscreteInputs(self.bits(false, *addr, *cnt)),
            ),
            ModbusRequest::WriteSingleRegister(addr, word) => {
                self.write_holding(*addr, *word);
                Ok(ModbusResponse::WriteSingleRegister(*addr, *word))
            },
            ModbusRequest::WriteMultipleRegisters(addr, words) => {
                self.write_all(*addr, words);
                Ok(ModbusResponse::WriteMultipleRegisters(*addr, (words.len() % 0x1_0000) as u16))
            },
            ModbusRequest::WriteSingleCoil(addr, coil) => {
                self.write_coil(*addr, *coil);
                Ok(ModbusResponse::WriteSingleCoil(*addr, *coil))
            },
            ModbusRequest::Other => Err(ModbusException::IllegalFunction),
        }
    }
}

/// What a board answers to a request, and what it is after it.
pub open spec fn answers_request(
    a: MockPcba,
    req: ModbusRequest,
    b: MockPcba,
    r: Result<ModbusResponse, ModbusException>,
) -> bool {
    match req {
        ModbusRequest::ReadHoldingRegisters(addr, cnt) => {
            &&& r matches Ok(ModbusResponse::ReadHoldingRegisters(w)) && w@ == words_read(a, true, addr, cnt)
            &&& b == (MockPcba { request_count: (a.request_count + 1) as u64, ..a })
        },
        ModbusRequest::ReadInputRegisters(addr, cnt) => {
            &&& r matches Ok(ModbusResponse::ReadInputRegisters(w)) && w@ == words_read(a, false, addr, cnt)
            &&& b == (MockPcba { request_count: (a.request_count + 1) as u64, ..a })
        },
        ModbusRequest::ReadCoils(addr, cnt) => {
            &&& r matches Ok(ModbusResponse::ReadCoils(w)) && w@ == bits_read(a, true, addr, cnt)
            &&& b == a
        },
        ModbusRequest::ReadDiscreteInputs(addr, cnt) => {
            &&& r matches Ok(ModbusResponse::ReadDiscreteInputs(w)) && w@ == bits_read(a, false, addr, cnt)
            &&& b == a
        },
        ModbusRequest::WriteSingleRegister(addr, word) => {
            &&& r == Ok::<ModbusResponse, ModbusException>(ModbusResponse::WriteSingleRegister(addr, word))
            &&& other_parts_same(a, b)
            &&& b.holding@ == written(a.holding@, addr as int, word)
            &&& b.coils@ == a.coils@
        },
        ModbusRequest::WriteMultipleRegisters(addr, words) => {
            &&& r == Ok::<ModbusResponse, ModbusException>(
                ModbusResponse::WriteMultipleRegisters(addr, (words@.len() % 0x1_0000) as u16),
            )
            &&& other_parts_same(a, b)
            &&& b.holding@ == all_written(a.holding@, addr, words@, words@.len() as int)
            &&& b.coils@ == a.coils@
        },
        ModbusRequest::WriteSingleCoil(addr, coil) => {
            &&& r == Ok::<ModbusResponse, ModbusException>(ModbusResponse::WriteSingleCoil(addr, coil))
            &&& other_parts_same(a, b)
            &&& b.coils@ == written(a.coils@, addr as int, coil)
            &&& b.holding@ == a.holding@
        },
        ModbusRequest::Other => {
            &&& r == Err::<ModbusResponse, ModbusException>(ModbusException::IllegalFunction)
            &&& b == a
        },
    }
}

/// A read of a fixed board gives back what was written to the address before.
pub proof fn written_word_is_read_back(a: MockPcba, b: MockPcba, addr: u16, word: u16)
    requires
        !a.dynamic,
        addr < a.holding@.len(),
        other_parts_same(a, b),
        b.holding@ == written(a.holding@, addr as int, word),
    ensures
        words_read(b, true, addr, 1) == seq![word],
{
    assert(words_read(b, true, addr, 1) =~= seq![word]);
}

/// A read of the coils gives back what was written to the address before.
pub proof fn written_coil_is_read_back(a: MockPcba, b: MockPcba, addr: u16, value: bool)
    requires
        addr < a.coils@.len(),
        b.coils@ == written(a.coils@, addr as int, value),
    ensures
        bits_read(b, true, addr, 1) == seq![value],
{
    assert(bits_read(b, true, addr, 1) =~= seq![value]);
}

} // verus!
