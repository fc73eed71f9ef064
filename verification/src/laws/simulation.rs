//! What the simulated device samples and takes, and what a simulated board
//! answers.

use vstd::prelude::*;

use crate::acquisition::AcquisitionError;
use crate::config::{RegisterConfig, SimControl, SimSensor};
use crate::domain::RawSample;
use crate::evaluation::Round;
use crate::mock::{dynamic_value, MockPcba};
use crate::number::Real;
use crate::protocol::modbus_server::{ModbusException, ModbusRequest, ModbusResponse};
use crate::simulation::SimSource;

verus! {

// ---- samples ----

/// A sample of the simulated sensor, with this value and time.
pub open spec fn samples_sensor(s: RawSample, sensor: SimSensor, v: Real, now: i64) -> bool {
    &&& s.sensor_id.0@ == sensor.sensor_id@
    &&& s.name@ == sensor.name@
    &&& s.unit == sensor.unit
    &&& s.raw_value == v
    &&& s.timestamp == now
}

proof fn lemma_sampled(s: SimSource, round: Round, list: Seq<int>, n: int, now: i64, k: int)
    requires
        0 <= k < n <= list.len(),
        s.engine.sensor_value(round, s.sim.sensors@[list[k]].sensor_id@) is Some,
    ensures
        exists|i: int|
            0 <= i < crate::simulation::sampled(s, round, list, n, now).len() && samples_sensor(
                #[trigger] crate::simulation::sampled(s, round, list, n, now)[i],
                s.sim.sensors@[list[k]],
                s.engine.sensor_value(round, s.sim.sensors@[list[k]].sensor_id@)->0,
                now,
            ),
    decreases n,
{
    let all = crate::simulation::sampled(s, round, list, n, now);
    let before = crate::simulation::sampled(s, round, list, n - 1, now);
    if k == n - 1 {
        assert(all[all.len() - 1] == all.last());
        assert(samples_sensor(
            all[all.len() - 1],
            s.sim.sensors@[list[k]],
            s.engine.sensor_value(round, s.sim.sensors@[list[k]].sensor_id@)->0,
            now,
        ));
    } else {
        lemma_sampled(s, round, list, n - 1, now, k);
        let i = choose|i: int|
            0 <= i < before.len() && samples_sensor(
                #[trigger] before[i],
                s.sim.sensors@[list[k]],
                s.engine.sensor_value(round, s.sim.sensors@[list[k]].sensor_id@)->0,
                now,
            );
        assert(all[i] == before[i]);
    }
}

proof fn lemma_samples(s: SimSource, round: Round, list: Seq<int>, n: int, now: i64, i: int)
    requires
        0 <= n <= list.len(),
        0 <= i < crate::simulation::sampled(s, round, list, n, now).len(),
    ensures
        exists|k: int|
            0 <= k < n && samples_sensor(
                crate::simulation::sampled(s, round, list, n, now)[i],
                s.sim.sensors@[#[trigger] list[k]],
                s.engine.sensor_value(round, s.sim.sensors@[list[k]].sensor_id@)->0,
                now,
            ) && s.engine.sensor_value(round, s.sim.sensors@[list[k]].sensor_id@) is Some,
    decreases n,
{
    if n > 0 {
        let before = crate::simulation::sampled(s, round, list, n - 1, now);
        if i < before.len() {
            lemma_samples(s, round, list, n - 1, now, i);
        } else {
            assert(list[n - 1] == list[n - 1]);
        }
    }
}

/// The samples of a round.
pub open spec fn samples_of(s: SimSource, round: Round, registers: Seq<RegisterConfig>, now: i64) -> Seq<RawSample> {
    crate::simulation::sampled(
        s,
        round,
        crate::simulation::wanted(s.sim.sensors@, registers),
        crate::simulation::wanted(s.sim.sensors@, registers).len() as int,
        now,
    )
}

/// Where no register is given, every simulated sensor that has a value is
/// sampled: with its own id, name, unit and value, at the time of the round.
pub proof fn every_simulated_sensor_is_sampled(s: SimSource, round: Round, now: i64, i: int)
    requires
        0 <= i < s.sim.sensors@.len(),
        s.engine.sensor_value(round, s.sim.sensors@[i].sensor_id@) is Some,
    ensures
        exists|k: int|
            0 <= k < samples_of(s, round, Seq::empty(), now).len() && samples_sensor(
                #[trigger] samples_of(s, round, Seq::empty(), now)[k],
                s.sim.sensors@[i],
                s.engine.sensor_value(round, s.sim.sensors@[i].sensor_id@)->0,
                now,
            ),
{
    let list = crate::simulation::wanted(s.sim.sensors@, Seq::empty());
    assert(list[i] == i);
    lemma_sampled(s, round, list, list.len() as int, now, i);
    let all = samples_of(s, round, Seq::empty(), now);
    let k = choose|k: int|
        0 <= k < crate::simulation::sampled(s, round, list, list.len() as int, now).len() && samples_sensor(
            #[trigger] crate::simulation::sampled(s, round, list, list.len() as int, now)[k],
            s.sim.sensors@[list[i]],
            s.engine.sensor_value(round, s.sim.sensors@[list[i]].sensor_id@)->0,
            now,
        );
    assert(samples_sensor(
        all[k],
        s.sim.sensors@[i],
        s.engine.sensor_value(round, s.sim.sensors@[i].sensor_id@)->0,
        now,
    ));
}

proof fn lemma_asked(sensors: Seq<SimSensor>, registers: Seq<RegisterConfig>, n: int, j: int, i: int)
    requires
        0 <= j < n <= registers.len(),
        0 <= i < sensors.len(),
        sensors[i].sensor_id@ == registers[j].sensor_id@,
        forall|m: int| 0 <= m < i ==> (#[trigger] sensors[m]).sensor_id@ != registers[j].sensor_id@,
    ensures
        crate::simulation::asked(sensors, registers, n).contains(i),
    decreases n,
{
    let all = crate::simulation::asked(sensors, registers, n);
    let before = crate::simulation::asked(sensors, registers, n - 1);
    if j == n - 1 {
        lemma_sensor_found(sensors, registers[j].sensor_id@, i, 0);
        assert(all[all.len() - 1] == i);
    } else {
        lemma_asked(sensors, registers, n - 1, j, i);
        let k = choose|k: int| 0 <= k < before.len() && before[k] == i;
        assert(all[k] == i);
    }
}

proof fn lemma_sensor_found(sensors: Seq<SimSensor>, id: Seq<char>, i: int, from: int)
    requires
        0 <= from <= i < sensors.len(),
        sensors[i].sensor_id@ == id,
        forall|m: int| from <= m < i ==> (#[trigger] sensors[m]).sensor_id@ != id,
    ensures
        crate::simulation::sensor_at(sensors, id, from) == Some(i),
    decreases i - from,
{
    if from < i {
        lemma_sensor_found(sensors, id, i, from + 1);
    }
}

proof fn lemma_asked_for(sensors: Seq<SimSensor>, registers: Seq<RegisterConfig>, n: int, k: int)
    requires
        0 <= n <= registers.len(),
        0 <= k < crate::simulation::asked(sensors, registers, n).len(),
    ensures
        0 <= crate::simulation::asked(sensors, registers, n)[k] < sensors.len(),
        exists|j: int|
            0 <= j < n && (#[trigger] registers[j]).sensor_id@ == sensors[crate::simulation::asked(
                sensors,
                registers,
                n,
            )[k]].sensor_id@,
    decreases n,
{
    if n > 0 {
        let before = crate::simulation::asked(sensors, registers, n - 1);
        if k < before.len() {
            lemma_asked_for(sensors, registers, n - 1, k);
        } else {
            lemma_sensor_is(sensors, registers[n - 1].sensor_id@, 0);
            assert(registers[n - 1] == registers[n - 1]);
        }
    }
}

proof fn lemma_sensor_is(sensors: Seq<SimSensor>, id: Seq<char>, from: int)
    requires
        0 <= from,
    ensures
        crate::simulation::sensor_at(sensors, id, from) matches Some(k) ==> from <= k < sensors.len()
            && sensors[k].sensor_id@ == id,
    decreases sensors.len() - from,
{
    if from < sensors.len() {
        lemma_sensor_is(sensors, id, from + 1);
    }
}

/// Where registers are given, the simulated sensor that a register asks for is
/// sampled, if it has a value.
pub proof fn an_asked_sensor_is_sampled(
    s: SimSource,
    round: Round,
    registers: Seq<RegisterConfig>,
    now: i64,
    j: int,
    i: int,
)
    requires
        0 <= j < registers.len(),
        0 <= i < s.sim.sensors@.len(),
        s.sim.sensors@[i].sensor_id@ == registers[j].sensor_id@,
        forall|m: int| 0 <= m < i ==> (#[trigger] s.sim.sensors@[m]).sensor_id@ != registers[j].sensor_id@,
        s.engine.sensor_value(round, registers[j].sensor_id@) is Some,
    ensures
        exists|k: int|
            0 <= k < samples_of(s, round, registers, now).len() && samples_sensor(
                #[trigger] samples_of(s, round, registers, now)[k],
                s.sim.sensors@[i],
                s.engine.sensor_value(round, registers[j].sensor_id@)->0,
                now,
            ),
{
    let list = crate::simulation::wanted(s.sim.sensors@, registers);
    lemma_asked(s.sim.sensors@, registers, registers.len() as int, j, i);
    let at = choose|at: int| 0 <= at < list.len() && list[at] == i;
    lemma_sampled(s, round, list, list.len() as int, now, at);
    let all = samples_of(s, round, registers, now);
    let k = choose|k: int|
        0 <= k < crate::simulation::sampled(s, round, list, list.len() as int, now).len() && samples_sensor(
            #[trigger] crate::simulation::sampled(s, round, list, list.len() as int, now)[k],
            s.sim.sensors@[list[at]],
            s.engine.sensor_value(round, s.sim.sensors@[list[at]].sensor_id@)->0,
            now,
        );
    assert(samples_sensor(
        all[k],
        s.sim.sensors@[i],
        s.engine.sensor_value(round, registers[j].sensor_id@)->0,
        now,
    ));
}

/// Every sample is of a simulated sensor that has this value in the round, and
/// that a register asks for where registers are given.
pub proof fn only_what_was_asked_is_sampled(
    s: SimSource,
    round: Round,
    registers: Seq<RegisterConfig>,
    now: i64,
    k: int,
)
    requires
        0 <= k < samples_of(s, round, registers, now).len(),
    ensures
        exists|i: int|
            {
                &&& 0 <= i < s.sim.sensors@.len()
                &&& s.engine.sensor_value(round, (#[trigger] s.sim.sensors@[i]).sensor_id@) is Some
                &&& samples_sensor(
                    samples_of(s, round, registers, now)[k],
                    s.sim.sensors@[i],
                    s.engine.sensor_value(round, s.sim.sensors@[i].sensor_id@)->0,
                    now,
                )
            },
        registers.len() > 0 ==> exists|j: int|
            0 <= j < registers.len() && (#[trigger] registers[j]).sensor_id@ == samples_of(
                s,
                round,
                registers,
                now,
            )[k].sensor_id.0@,
{
    let list = crate::simulation::wanted(s.sim.sensors@, registers);
    lemma_samples(s, round, list, list.len() as int, now, k);
    let all = crate::simulation::sampled(s, round, list, list.len() as int, now);
    let at = choose|at: int|
        0 <= at < list.len() && samples_sensor(
            all[k],
            s.sim.sensors@[#[trigger] list[at]],
            s.engine.sensor_value(round, s.sim.sensors@[list[at]].sensor_id@)->0,
            now,
        ) && s.engine.sensor_value(round, s.sim.sensors@[list[at]].sensor_id@) is Some;
    if registers.len() > 0 {
        lemma_asked_for(s.sim.sensors@, registers, registers.len() as int, at);
    }
    assert(0 <= list[at] < s.sim.sensors@.len());
    assert(s.sim.sensors@[list[at]] == s.sim.sensors@[list[at]]);
}

// ---- writes ----

/// A control begins with its initial value; of two of one name the last says
/// which.
pub proof fn a_control_begins_with_its_initial_value(controls: Seq<SimControl>, i: int, n: int)
    requires
        0 <= i < n <= controls.len(),
        forall|j: int| i < j < n ==> (#[trigger] controls[j]).name@ != controls[i].name@,
    ensures
        crate::engine::initial_value(crate::simulation::controls_of(controls), controls[i].name@, n) == Some(
            controls[i].initial,
        ),
    decreases n,
{
    if i < n - 1 {
        assert(controls[n - 1].name@ != controls[i].name@);
        a_control_begins_with_its_initial_value(controls, i, n - 1);
    }
}

/// A register write gives a writable control the written number, and leaves the
/// other controls; it is refused for a control that is read-only.
pub proof fn a_register_write_sets_its_control(
    before: SimSource,
    id: Seq<char>,
    value: u16,
    after: SimSource,
    r: Result<(), AcquisitionError>,
    k: int,
)
    requires
        before.wf(),
        crate::simulation::register_written(before, id, value, after, r),
        0 <= k < before.sim.controls@.len(),
        before.sim.controls@[k].name@ == id,
        forall|j: int| 0 <= j < k ==> (#[trigger] before.sim.controls@[j]).name@ != id,
    ensures
        r is Ok <==> before.sim.controls@[k].writable,
        r is Ok ==> after.engine.values@[k].is_integer(value as int) && after.engine.values@.len()
            == before.engine.values@.len(),
        r is Ok ==> forall|j: int|
            0 <= j < before.engine.values@.len() && j != k ==> #[trigger] after.engine.values@[j]
                == before.engine.values@[j],
        r is Err ==> after == before,
        r matches Err(e) ==> (e matches AcquisitionError::Config { device: d, message: m } && d@ == "sim"@ && m@
            == "control `"@ + id + "` is read-only"@),
{
    let names = before.engine.model.controls@;
    assert forall|j: int| 0 <= j < k implies (#[trigger] names[j])@ != id by {
        assert(before.sim.controls@[j].name@ != id);
    }
    lemma_control_at(names, id, k, 0);
    assert(before.engine.writable@[k] == before.sim.controls@[k].writable);
    if r is Ok {
        let v = choose|v: Real| #[trigger] v.is_integer(value as int) && crate::engine::control_set(
            before.engine,
            id,
            v,
            None,
            after.engine,
        );
        assert(after.engine.values@ == before.engine.values@.update(k, v));
    }
}

/// A register write to a name that no control has is refused.
pub proof fn a_register_write_needs_a_control(
    before: SimSource,
    id: Seq<char>,
    value: u16,
    after: SimSource,
    r: Result<(), AcquisitionError>,
)
    requires
        before.wf(),
        crate::simulation::register_written(before, id, value, after, r),
        forall|j: int| 0 <= j < before.sim.controls@.len() ==> (#[trigger] before.sim.controls@[j]).name@ != id,
    ensures
        after == before,
        r matches Err(AcquisitionError::Config { device: d, message: m }) && d@ == "sim"@ && m@
            == "unknown writable control `"@ + id + "`"@,
{
    let names = before.engine.model.controls@;
    crate::engine::lemma_control_name(names, id, 0);
    if let Some(k) = crate::evaluation::control_index(names, id, 0) {
        assert(before.sim.controls@[k].name@ != id);
    }
}

proof fn lemma_control_at(names: Seq<String>, id: Seq<char>, k: int, i: int)
    requires
        0 <= i <= k < names.len(),
        names[k]@ == id,
        forall|j: int| i <= j < k ==> (#[trigger] names[j])@ != id,
    ensures
        crate::evaluation::control_index(names, id, i) == Some(k),
    decreases k - i,
{
    if i < k {
        lemma_control_at(names, id, k, i + 1);
    }
}

/// No coil of the simulated device can be written.
pub proof fn a_coil_write_is_refused(
    before: SimSource,
    id: Seq<char>,
    after: SimSource,
    r: Result<(), AcquisitionError>,
)
    requires
        crate::simulation::coil_refused(before, id, after, r),
    ensures
        after == before,
        r matches Err(AcquisitionError::Config { device: d, message: m }) && d@ == "sim"@ && m@
            == "sim has no writable coil `"@ + id + "`"@,
{
}

// ---- the simulated board ----

/// A fixed board answers a read of words from its map: the word of each address,
/// or zero behind the end of the map.
pub proof fn a_fixed_board_answers_from_its_map(
    a: MockPcba,
    addr: u16,
    cnt: u16,
    b: MockPcba,
    r: Result<ModbusResponse, ModbusException>,
    k: int,
)
    requires
        crate::mock::answers_request(a, ModbusRequest::ReadHoldingRegisters(addr, cnt), b, r),
        !a.dynamic,
        0 <= k < cnt,
        addr + k < 0x1_0000,
    ensures
        r matches Ok(ModbusResponse::ReadHoldingRegisters(w)) && w@.len() == cnt && (addr + k < a.holding@.len()
            ==> w@[k] == a.holding@[addr + k]) && (addr + k >= a.holding@.len() ==> w@[k] == 0),
        b.holding == a.holding,
        b.coils == a.coils,
{
}

/// The same holds of a read of input registers.
pub proof fn a_fixed_board_answers_from_its_inputs(
    a: MockPcba,
    addr: u16,
    cnt: u16,
    b: MockPcba,
    r: Result<ModbusResponse, ModbusException>,
    k: int,
)
    requires
        crate::mock::answers_request(a, ModbusRequest::ReadInputRegisters(addr, cnt), b, r),
        !a.dynamic,
        0 <= k < cnt,
        addr + k < 0x1_0000,
    ensures
        r matches Ok(ModbusResponse::ReadInputRegisters(w)) && w@.len() == cnt && (addr + k < a.input@.len() ==> w@[k]
            == a.input@[addr + k]) && (addr + k >= a.input@.len() ==> w@[k] == 0),
{
}

/// A read of coils gives the bit of each address, off behind the end; of the
/// discrete inputs the first alone is on.
pub proof fn a_board_answers_bits(
    a: MockPcba,
    addr: u16,
    cnt: u16,
    b: MockPcba,
    r: Result<ModbusResponse, ModbusException>,
    c: MockPcba,
    q: Result<ModbusResponse, ModbusException>,
    k: int,
)
    requires
        crate::mock::answers_request(a, ModbusRequest::ReadCoils(addr, cnt), b, r),
        crate::mock::answers_request(a, ModbusRequest::ReadDiscreteInputs(addr, cnt), c, q),
        0 <= k < cnt,
        addr + k < 0x1_0000,
    ensures
        r matches Ok(ModbusResponse::ReadCoils(w)) && w@.len() == cnt && (addr + k < a.coils@.len() ==> w@[k]
            == a.coils@[addr + k]) && (addr + k >= a.coils@.len() ==> !w@[k]),
        q matches Ok(ModbusResponse::ReadDiscreteInputs(w)) && w@.len() == cnt && (w@[k] <==> addr == 0 && k == 0),
        b == a,
        c == a,
{
}

/// A word written to a fixed board is what the next read of its address gives;
/// no other address changes.
pub proof fn a_word_written_to_a_board_is_read(
    a: MockPcba,
    addr: u16,
    word: u16,
    b: MockPcba,
    w: Result<ModbusResponse, ModbusException>,
    other: u16,
    c: MockPcba,
    r: Result<ModbusResponse, ModbusException>,
)
    requires
        !a.dynamic,
        crate::mock::answers_request(a, ModbusRequest::WriteSingleRegister(addr, word), b, w),
        crate::mock::answers_request(b, ModbusRequest::ReadHoldingRegisters(other, 1), c, r),
    ensures
        w == Ok::<ModbusResponse, ModbusException>(ModbusResponse::WriteSingleRegister(addr, word)),
        (other == addr && addr < a.holding@.len()) ==> (r matches Ok(ModbusResponse::ReadHoldingRegisters(x)) && x@.len()
            == 1 && x@[0] == word),
        (other != addr && other < a.holding@.len()) ==> (r matches Ok(ModbusResponse::ReadHoldingRegisters(x)) && x@.len()
            == 1 && x@[0] == a.holding@[other as int]),
{
}

/// A coil written is what the next read of its address gives; no other coil
/// changes.
pub proof fn a_coil_written_to_a_board_is_read(
    a: MockPcba,
    addr: u16,
    coil: bool,
    b: MockPcba,
    w: Result<ModbusResponse, ModbusException>,
    other: u16,
    c: MockPcba,
    r: Result<ModbusResponse, ModbusException>,
)
    requires
        crate::mock::answers_request(a, ModbusRequest::WriteSingleCoil(addr, coil), b, w),
        crate::mock::answers_request(b, ModbusRequest::ReadCoils(other, 1), c, r),
    ensures
        w == Ok::<ModbusResponse, ModbusException>(ModbusResponse::WriteSingleCoil(addr, coil)),
        (other == addr && addr < a.coils@.len()) ==> (r matches Ok(ModbusResponse::ReadCoils(x)) && x@.len() == 1 && x@[0]
            == coil),
        (other != addr && other < a.coils@.len()) ==> (r matches Ok(ModbusResponse::ReadCoils(x)) && x@.len() == 1
            && x@[0] == a.coils@[other as int]),
{
}

proof fn lemma_all_written(map: Seq<u16>, addr: u16, words: Seq<u16>, n: int, address: int)
    requires
        0 <= n <= words.len(),
        addr + words.len() <= 0x1_0000,
        0 <= address < map.len(),
    ensures
        crate::mock::all_written(map, addr, words, n).len() == map.len(),
        crate::mock::all_written(map, addr, words, n)[address] == (if addr <= address < addr + n {
            words[address - addr]
        } else {
            map[address]
        }),
    decreases n,
{
    if n > 0 {
        lemma_all_written(map, addr, words, n - 1, address);
    }
}

/// Several words written from an address on stand one behind the other there; no
/// other address changes.
pub proof fn words_written_to_a_board_stand_in_order(
    a: MockPcba,
    addr: u16,
    words: Vec<u16>,
    b: MockPcba,
    r: Result<ModbusResponse, ModbusException>,
    address: int,
)
    requires
        crate::mock::answers_request(a, ModbusRequest::WriteMultipleRegisters(addr, words), b, r),
        addr + words@.len() <= 0x1_0000,
        0 <= address < a.holding@.len(),
        words@.len() < 0x1_0000,
    ensures
        r matches Ok(ModbusResponse::WriteMultipleRegisters(at, n)) && at == addr && n == words@.len(),
        b.holding@.len() == a.holding@.len(),
        addr <= address < addr + words@.len() ==> b.holding@[address] == words@[address - addr],
        !(addr <= address < addr + words@.len()) ==> b.holding@[address] == a.holding@[address],
        b.coils@ == a.coils@,
        b.input@ == a.input@,
{
    lemma_all_written(a.holding@, addr, words@, words@.len() as int, address);
}

/// A request of another kind is refused as an illegal function.
pub proof fn a_board_refuses_other_requests(a: MockPcba, b: MockPcba, r: Result<ModbusResponse, ModbusException>)
    requires
        crate::mock::answers_request(a, ModbusRequest::Other, b, r),
    ensures
        r == Err::<ModbusResponse, ModbusException>(ModbusException::IllegalFunction),
        b == a,
{
}

/// A dynamic board has a temperature from 25.0 to 29.9, a speed from 3200 to 3399,
/// the number of the read as its uptime, the number 12.5, a voltage from 12.500 to
/// 12.509 and a current from 0.900 to 0.919; each begins anew after its last value.
pub proof fn a_dynamic_board_moves(holding: bool, addr: u16, snapshot: u64, w: u16)
    requires
        call_ensures(dynamic_value, (holding, addr, snapshot), w),
    ensures
        holding && addr == 0 ==> 250 <= w <= 299 && (w - 250) % 50 == snapshot % 50,
        holding && addr == 1 ==> 3200 <= w <= 3399 && (w - 3200) % 200 == snapshot % 200,
        holding && addr == 2 ==> w == (snapshot / 65536) % 65536,
        holding && addr == 3 ==> w == snapshot % 65536,
        holding && addr == 4 ==> w == 0x4148,
        holding && addr >= 5 ==> w == 0,
        !holding && addr == 0 ==> 12500 <= w <= 12509 && (w - 12500) % 10 == snapshot % 10,
        !holding && addr == 1 ==> 900 <= w <= 919 && (w - 900) % 20 == snapshot % 20,
        !holding && addr >= 2 ==> w == 0,
{
}

/// Every read of words of a dynamic board counts as one more.
pub proof fn a_dynamic_board_counts_its_reads(
    a: MockPcba,
    addr: u16,
    cnt: u16,
    b: MockPcba,
    r: Result<ModbusResponse, ModbusException>,
    k: int,
    w: u16,
)
    requires
        a.dynamic,
        a.request_count < u64::MAX,
        crate::mock::answers_request(a, ModbusRequest::ReadHoldingRegisters(addr, cnt), b, r),
        0 <= k < cnt,
        addr + k < 0x1_0000,
        call_ensures(dynamic_value, (true, (addr + k) as u16, (a.request_count + 1) as u64), w),
    ensures
        b.request_count == a.request_count + 1,
        r matches Ok(ModbusResponse::ReadHoldingRegisters(x)) && x@[k] == w,
{
}

/// A board is made with the words that it is given, eight coils that are off and no
/// read counted; it stays as it is until it is made dynamic.
pub proof fn a_board_has_its_words(holding: Vec<u16>, input: Vec<u16>, r: MockPcba, d: MockPcba)
    requires
        call_ensures(MockPcba::from_maps, (holding, input), r),
        call_ensures(MockPcba::with_dynamic, (r,), d),
    ensures
        r.holding@ == holding@,
        r.input@ == input@,
        r.coils@.len() == 8,
        forall|i: int| 0 <= i < 8 ==> !#[trigger] r.coils@[i],
        !r.dynamic,
        r.request_count == 0,
        d.dynamic,
        d.holding == r.holding,
        d.input == r.input,
        d.coils == r.coils,
        d.request_count == r.request_count,
{
}

} // verus!
