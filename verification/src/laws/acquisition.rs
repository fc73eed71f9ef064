//! What is read from a device and written to it, and how a device is polled.

use vstd::prelude::*;

use crate::acquisition::manager::{
    AcquisitionManager, backoff_delay, find_device, not_connected, DeviceAction, DeviceEvent, DeviceLoop,
};
use crate::acquisition::{
    address_error, address_text, read_request, sample_reply, serial_settings, write_command, AcquisitionError,
    ReadCycle, ReadReply, ReadRequest, WriteCommand,
};
use crate::config::{
    Access, Config, DeviceConfig, RegisterConfig, RegisterFunction, ValueType, WordOrder,
};
use crate::config_handle::ConfigHandle;
use crate::domain::RawSample;
use crate::protocol::{write_outcome, WriteError, WriteProgress, WriteValue};

verus! {

// ---- reading ----

/// A register is read in its own space, at its own address, and as many
/// addresses long as it says; one that says nothing is read as long as its value
/// is: two words for a number of 32 bits, else one.
pub proof fn a_register_is_read_where_it_stands(reg: &RegisterConfig, r: ReadRequest)
    requires
        call_ensures(read_request, (reg,), r),
    ensures
        ({
            let (space, address, count) = match r {
                ReadRequest::Coils { address, count } => (RegisterFunction::Coil, address, count),
                ReadRequest::DiscreteInputs { address, count } => (RegisterFunction::DiscreteInput, address, count),
                ReadRequest::HoldingRegisters { address, count } => (RegisterFunction::Holding, address, count),
                ReadRequest::InputRegisters { address, count } => (RegisterFunction::Input, address, count),
            };
            &&& space == reg.function
            &&& address == reg.address
            &&& (reg.count matches Some(n) ==> count == n)
            &&& (reg.count is None && (reg.value_type == ValueType::U32 || reg.value_type == ValueType::I32
                || reg.value_type == ValueType::F32) ==> count == 2)
            &&& (reg.count is None && (reg.value_type == ValueType::U16 || reg.value_type == ValueType::I16
                || reg.value_type == ValueType::Bool) ==> count == 1)
        }),
{
}

/// A sample carries the id, the name and the unit of its register, and the time
/// of the reply.
pub proof fn a_sample_is_of_its_register(
    device: &str,
    reg: &RegisterConfig,
    reply: ReadReply,
    now: i64,
    s: RawSample,
)
    requires
        call_ensures(sample_reply, (device, reg, reply, now), Ok::<RawSample, AcquisitionError>(s)),
    ensures
        s.sensor_id.0@ == reg.sensor_id@,
        s.name@ == reg.name@,
        s.unit == reg.unit,
        s.timestamp == now,
        !(reply is Failed),
{
}

/// A bit that is on is sampled as 1; one that is off, or that is missing from
/// the reply, as 0. Only a register of bools takes bits.
pub proof fn a_bit_is_sampled(
    device: &str,
    reg: &RegisterConfig,
    bits: Vec<bool>,
    now: i64,
    r: Result<RawSample, AcquisitionError>,
)
    requires
        call_ensures(sample_reply, (device, reg, ReadReply::Bits(bits), now), r),
    ensures
        reg.value_type == ValueType::Bool <==> r is Ok,
        (r matches Ok(s) && bits@.len() > 0 && bits@[0]) ==> (r->Ok_0).raw_value.is_integer(1),
        (r matches Ok(s) && bits@.len() > 0 && !bits@[0]) ==> (r->Ok_0).raw_value.is_integer(0),
        (r matches Ok(s) && bits@.len() == 0) ==> (r->Ok_0).raw_value.is_integer(0),
        r matches Err(e) ==> (e matches AcquisitionError::Register { device: d, name: n, message: _ } && d@ == device@
            && n@ == reg.name@),
{
}

/// Words are sampled as the number that their type says, once there are enough
/// of them; a shorter reply is an error that tells how many came and how many
/// were needed.
pub proof fn words_are_sampled(
    device: &str,
    reg: &RegisterConfig,
    words: Vec<u16>,
    now: i64,
    r: Result<RawSample, AcquisitionError>,
)
    requires
        call_ensures(sample_reply, (device, reg, ReadReply::Words(words), now), r),
    ensures
        (reg.value_type == ValueType::U16 || reg.value_type == ValueType::I16 || reg.value_type == ValueType::Bool) ==> (
        r is Ok <==> words@.len() >= 1),
        (reg.value_type == ValueType::U32 || reg.value_type == ValueType::I32 || reg.value_type == ValueType::F32) ==> (
        r is Ok <==> words@.len() >= 2),
        (r matches Ok(s) && reg.value_type == ValueType::U16) ==> (r->Ok_0).raw_value.is_integer(words@[0] as int),
        (r matches Ok(s) && reg.value_type == ValueType::I16) ==> (r->Ok_0).raw_value.is_integer(
            if words@[0] < 0x8000 {
                words@[0] as int
            } else {
                words@[0] - 0x1_0000
            },
        ),
        (r matches Ok(s) && reg.value_type == ValueType::U32 && reg.word_order == WordOrder::Big) ==> (
        r->Ok_0).raw_value.is_integer(words@[0] * 0x1_0000 + words@[1]),
        (r matches Ok(s) && reg.value_type == ValueType::U32 && reg.word_order == WordOrder::Little) ==> (
        r->Ok_0).raw_value.is_integer(words@[1] * 0x1_0000 + words@[0]),
        r matches Err(e) ==> (e matches AcquisitionError::Register { device: d, name: n, message: m } && d@ == device@
            && n@ == reg.name@ && m@ == "slave returned "@ + crate::text::decimal(words@.len()) + " register(s), "@
            + crate::text::decimal(
            if reg.value_type == ValueType::U32 || reg.value_type == ValueType::I32 || reg.value_type
                == ValueType::F32 {
                2
            } else {
                1
            },
        ) + " required by value_type "@ + crate::validation::value_type_name(reg.value_type)),
{
}

/// A read that failed gives no sample, but the error it failed with.
pub proof fn a_failed_read_is_passed_on(
    device: &str,
    reg: &RegisterConfig,
    e: AcquisitionError,
    now: i64,
    r: Result<RawSample, AcquisitionError>,
)
    requires
        call_ensures(sample_reply, (device, reg, ReadReply::Failed(e), now), r),
    ensures
        r == Err::<RawSample, AcquisitionError>(e),
{
}

// ---- writing ----

/// The register is the first of the device that feeds the sensor.
pub open spec fn feeds(device: DeviceConfig, id: Seq<char>, k: int) -> bool {
    &&& 0 <= k < device.registers@.len()
    &&& device.registers@[k].sensor_id@ == id
    &&& forall|j: int| 0 <= j < k ==> (#[trigger] device.registers@[j]).sensor_id@ != id
}

proof fn lemma_first_register(registers: Seq<RegisterConfig>, id: Seq<char>, k: int, i: int)
    requires
        0 <= i <= k < registers.len(),
        registers[k].sensor_id@ == id,
        forall|j: int| i <= j < k ==> (#[trigger] registers[j]).sensor_id@ != id,
    ensures
        crate::acquisition::register_index(registers, id, i) == Some(k),
    decreases k - i,
{
    if i < k {
        lemma_first_register(registers, id, k, i + 1);
    }
}

proof fn lemma_no_register(registers: Seq<RegisterConfig>, id: Seq<char>, i: int)
    requires
        0 <= i,
        forall|j: int| 0 <= j < registers.len() ==> (#[trigger] registers[j]).sensor_id@ != id,
    ensures
        crate::acquisition::register_index(registers, id, i) is None,
    decreases registers.len() - i,
{
    if i < registers.len() {
        lemma_no_register(registers, id, i + 1);
    }
}

/// A word goes out exactly where the sensor's register is a holding register
/// open for writing: to the register's address, and unchanged. The refusals come
/// in this order: not a holding register, read-only.
pub proof fn a_word_is_sent_to_its_register(
    device: &DeviceConfig,
    id: &str,
    k: int,
    word: u16,
    r: Result<WriteCommand, AcquisitionError>,
)
    requires
        call_ensures(write_command, (device, id, WriteValue::Holding(word)), r),
        feeds(*device, id@, k),
    ensures
        ({
            let reg = device.registers@[k];
            &&& (r is Ok <==> reg.function == RegisterFunction::Holding && reg.access == Access::ReadWrite)
            &&& (r matches Ok(c) ==> c == (WriteCommand::Register { address: reg.address, word }))
            &&& (reg.function != RegisterFunction::Holding ==> (r matches Err(AcquisitionError::Config {
                device: d,
                message: m,
            }) && d@ == device.name@ && m@ == "sensor `"@ + id@ + "` is not a holding register (cannot write)"@))
            &&& (reg.function == RegisterFunction::Holding && reg.access == Access::Read ==> (r matches Err(
                AcquisitionError::Config { device: d, message: m },
            ) && d@ == device.name@ && m@ == "sensor `"@ + id@ + "` is read-only (access=read)"@))
        }),
{
    lemma_first_register(device.registers@, id@, k, 0);
}

/// A bit goes out exactly where the sensor's register is a coil open for
/// writing: to the coil's address, and unchanged.
pub proof fn a_bit_is_sent_to_its_coil(
    device: &DeviceConfig,
    id: &str,
    k: int,
    bit: bool,
    r: Result<WriteCommand, AcquisitionError>,
)
    requires
        call_ensures(write_command, (device, id, WriteValue::Coil(bit)), r),
        feeds(*device, id@, k),
    ensures
        ({
            let reg = device.registers@[k];
            &&& (r is Ok <==> reg.function == RegisterFunction::Coil && reg.access == Access::ReadWrite)
            &&& (r matches Ok(c) ==> c == (WriteCommand::Coil { address: reg.address, bit }))
            &&& (reg.function != RegisterFunction::Coil ==> (r matches Err(AcquisitionError::Config {
                device: d,
                message: m,
            }) && d@ == device.name@ && m@ == "sensor `"@ + id@ + "` is not a coil (cannot write)"@))
            &&& (reg.function == RegisterFunction::Coil && reg.access == Access::Read ==> (r matches Err(
                AcquisitionError::Config { device: d, message: m },
            ) && d@ == device.name@ && m@ == "sensor `"@ + id@ + "` is read-only (access=read)"@))
        }),
{
    lemma_first_register(device.registers@, id@, k, 0);
}

/// A write to a sensor that no register of the device feeds does not go out.
pub proof fn an_unknown_sensor_is_not_written(
    device: &DeviceConfig,
    id: &str,
    value: WriteValue,
    r: Result<WriteCommand, AcquisitionError>,
)
    requires
        call_ensures(write_command, (device, id, value), r),
        forall|j: int| 0 <= j < device.registers@.len() ==> (#[trigger] device.registers@[j]).sensor_id@ != id@,
    ensures
        r matches Err(AcquisitionError::Config { device: d, message: m }) && d@ == device.name@ && m@
            == "unknown sensor_id `"@ + id@ + "` for write"@,
{
    lemma_no_register(device.registers@, id@, 0);
}

/// A write came through exactly where the device took it; every other end has
/// an error of its own.
pub proof fn a_write_ends_as_it_went(device: &str, progress: WriteProgress, r: Result<(), WriteError>)
    requires
        call_ensures(write_outcome, (device, progress), r),
    ensures
        r is Ok <==> (progress matches WriteProgress::Answered(a) && a is Ok),
        progress is NoTask ==> (r matches Err(WriteError::UnknownDevice(d)) && d@ == device@),
        progress is Closed <==> r == Err::<(), WriteError>(WriteError::BrokerClosed),
        progress is Unanswered <==> r == Err::<(), WriteError>(WriteError::NoReply),
        (progress matches WriteProgress::Answered(a) && a is Err) ==> r == Err::<(), WriteError>(
            WriteError::Acquisition((progress->Answered_0)->Err_0),
        ),
{
}

// ---- connections ----

/// A device is reached at its host and its port.
pub proof fn an_address_is_host_and_port(device: &DeviceConfig, r: String)
    requires
        call_ensures(address_text, (device,), r),
    ensures
        r@.len() > device.host@.len() + 1,
        r@.take(device.host@.len() as int) == device.host@,
        r@[device.host@.len() as int] == ':',
        r@.skip(device.host@.len() as int + 1) == crate::text::decimal(device.port as nat),
{
    reveal_strlit(":");
    crate::laws::texts::a_number_reads_back(device.port as nat);
    assert(r@.take(device.host@.len() as int) =~= device.host@);
    assert(r@.skip(device.host@.len() as int + 1) =~= crate::text::decimal(device.port as nat));
}

/// A serial device has its own port and baud rate; without either there is an
/// error that says which one is missing.
pub proof fn serial_settings_are_those_of_the_device(
    device: &DeviceConfig,
    r: Result<(&str, u32), AcquisitionError>,
)
    requires
        call_ensures(serial_settings, (device,), r),
    ensures
        (device.serial_port is Some && device.baud_rate is Some) ==> (r matches Ok(s) && s.0@
            == device.serial_port->0@ && s.1 == device.baud_rate->0),
        device.serial_port is None ==> (r matches Err(AcquisitionError::Config { device: d, message: m }) && d@
            == device.name@ && m@ == "rtu transport requires `serial_port`"@),
        (device.serial_port is Some && device.baud_rate is None) ==> (r matches Err(AcquisitionError::Config {
            device: d,
            message: m,
        }) && d@ == device.name@ && m@ == "rtu transport requires `baud_rate`"@),
{
}

/// An error names the device, the register and the reason that it has.
pub proof fn errors_say_where_and_why(e: AcquisitionError)
    ensures
        e matches AcquisitionError::Modbus(m) ==> e.text() == "modbus transport error: "@ + m@,
        e matches AcquisitionError::Exception(m) ==> e.text() == "modbus exception from slave: "@ + m@,
        e matches AcquisitionError::Io(m) ==> e.text() == "io error: "@ + m@,
        e matches AcquisitionError::Serial(m) ==> e.text() == "serial port error: "@ + m@,
        e matches AcquisitionError::Config { device, message } ==> e.text() == "device `"@ + device@ + "`: "@
            + message@,
        e matches AcquisitionError::Register { device, name, message } ==> e.text() == "device `"@ + device@
            + "` register `"@ + name@ + "`: "@ + message@,
        (e matches AcquisitionError::Timeout(ms) && 0 < ms < 1000) ==> e.text() == "request timed out after "@ + (
        crate::text::decimal(e->Timeout_0 as nat) + "ms"@),
        (e matches AcquisitionError::Timeout(ms) && 0 < ms && ms % 1000 == 0) ==> e.text()
            == "request timed out after "@ + (crate::text::decimal((e->Timeout_0 / 1000) as nat) + "s"@),
        (e matches AcquisitionError::Timeout(ms) && ms > 1000 && ms % 1000 != 0 && ms % 100 == 0) ==> e.text()
            == "request timed out after "@ + (crate::text::decimal((e->Timeout_0 / 1000) as nat) + "."@
            + crate::text::decimal((e->Timeout_0 % 1000 / 100) as nat) + "s"@),
{
}

/// The errors of a write name the device, or the reason that the device gave.
pub proof fn write_errors_say_why(e: WriteError)
    ensures
        e matches WriteError::UnknownDevice(d) ==> e.text() == "unknown device `"@ + d@ + "` (no poll task for it)"@,
        e is BrokerClosed ==> e.text() == "write channel closed"@,
        e is NoReply ==> e.text() == "no reply from acquisition layer"@,
        e matches WriteError::Acquisition(a) ==> e.text() == "acquisition error: "@ + a.text(),
{
}

// ---- polling ----

/// The device of a name is the first of that name; of an unknown name there is
/// none.
pub proof fn a_device_is_found_by_its_name(config: &Config, name: &String, r: Option<&DeviceConfig>)
    requires
        call_ensures(find_device, (config, name), r),
    ensures
        r is None <==> (forall|j: int| 0 <= j < config.devices@.len() ==> (#[trigger] config.devices@[j]).name@ != name@),
        r matches Some(d) ==> exists|k: int|
            {
                &&& 0 <= k < config.devices@.len()
                &&& *d == #[trigger] config.devices@[k]
                &&& d.name@ == name@
                &&& forall|j: int| 0 <= j < k ==> (#[trigger] config.devices@[j]).name@ != name@
            },
{
    lemma_device_index(config.devices@, name@, 0);
}

proof fn lemma_device_index(devices: Seq<DeviceConfig>, name: Seq<char>, i: int)
    requires
        0 <= i,
    ensures
        match crate::registration::device_index(devices, name, i) {
            Some(k) => {
                &&& i <= k < devices.len()
                &&& devices[k].name@ == name
                &&& forall|j: int| i <= j < k ==> (#[trigger] devices[j]).name@ != name
            },
            None => forall|j: int| i <= j < devices.len() ==> (#[trigger] devices[j]).name@ != name,
        },
    decreases devices.len() - i,
{
    if i < devices.len() {
        lemma_device_index(devices, name, i + 1);
    }
}

/// The first delay is the initial one. Each failure after it doubles the delay,
/// up to the maximum; from the tenth on it stays.
pub proof fn a_delay_doubles(device: &DeviceConfig, failures: u64, now: u64, next: u64)
    requires
        call_ensures(backoff_delay, (device, failures), now),
        failures < u64::MAX,
        call_ensures(backoff_delay, (device, (failures + 1) as u64), next),
        1 <= device.reconnect_initial_ms <= device.reconnect_max_ms,
    ensures
        failures == 0 ==> now == device.reconnect_initial_ms,
        failures < 10 && 2 * now <= device.reconnect_max_ms ==> next == 2 * now,
        failures < 10 && 2 * now > device.reconnect_max_ms ==> next == device.reconnect_max_ms,
        failures >= 10 ==> next == now,
        device.reconnect_initial_ms <= now <= device.reconnect_max_ms,
{
    vstd::arithmetic::power2::lemma2_to64();
    let n: nat = if failures > 10 {
        10
    } else {
        failures as nat
    };
    let base = device.reconnect_initial_ms;
    let p = vstd::arithmetic::power2::pow2(n);
    vstd::arithmetic::power2::lemma_pow2_unfold(n + 1);
    vstd::arithmetic::power2::lemma_pow2_pos(n);
    assert(base * (2 * p) == 2 * (base * p)) by (nonlinear_arith);
    assert(base * p >= base) by (nonlinear_arith)
        requires
            p >= 1,
    ;
    assert(p == 1 ==> base * p == base) by (nonlinear_arith);
}

/// An initial delay of nothing counts as a millisecond, and a maximum below the
/// initial delay as the initial delay.
pub proof fn an_odd_delay_is_mended(device: &DeviceConfig, failures: u64, r: u64)
    requires
        call_ensures(backoff_delay, (device, failures), r),
    ensures
        r >= 1,
        device.reconnect_max_ms < device.reconnect_initial_ms ==> r == device.reconnect_initial_ms,
        device.reconnect_max_ms == 0 && device.reconnect_initial_ms == 0 ==> r == 1,
        device.reconnect_initial_ms == 0 && failures == 0 ==> r == 1,
{
    vstd::arithmetic::power2::lemma2_to64();
    let n: nat = if failures > 10 {
        10
    } else {
        failures as nat
    };
    let p = vstd::arithmetic::power2::pow2(n);
    vstd::arithmetic::power2::lemma_pow2_pos(n);
    let base = crate::acquisition::manager::shortest(device.reconnect_initial_ms);
    assert(base * p >= base) by (nonlinear_arith)
        requires
            p >= 1,
    ;
    assert(p == 1 ==> base * p == base) by (nonlinear_arith);
}

/// A step of the polling of a device.
pub open spec fn stepped(s: DeviceLoop, e: DeviceEvent, device: DeviceConfig, t: DeviceLoop, a: DeviceAction) -> bool {
    (t, a) == crate::acquisition::manager::next_step(s, e, device.reconnect_initial_ms, device.reconnect_max_ms)
}

/// A tick reads a device that is connected and connects one that is not.
/// Nothing else changes.
pub proof fn a_tick_reads_or_connects(s: DeviceLoop, device: DeviceConfig, t: DeviceLoop, a: DeviceAction)
    requires
        stepped(s, DeviceEvent::Tick, device, t, a),
    ensures
        t == s,
        s.connected ==> a == DeviceAction::Read,
        !s.connected ==> a == DeviceAction::Connect,
{
}

/// A new connection is held, clears the failures and is read at once.
pub proof fn a_connection_is_read(s: DeviceLoop, device: DeviceConfig, t: DeviceLoop, a: DeviceAction)
    requires
        stepped(s, DeviceEvent::Connected(true), device, t, a),
    ensures
        t.connected,
        t.failures == 0,
        t.interval_ms == s.interval_ms,
        a == DeviceAction::Read,
{
}

/// A failure, to connect or to read, leaves no connection, counts as one more,
/// and is waited for as long as that number of failures says.
pub proof fn a_failure_is_waited_for(
    s: DeviceLoop,
    e: DeviceEvent,
    device: &DeviceConfig,
    t: DeviceLoop,
    a: DeviceAction,
    delay: u64,
)
    requires
        stepped(s, e, *device, t, a),
        e == DeviceEvent::Connected(false) || e == DeviceEvent::Read(false),
        s.failures < u64::MAX,
        call_ensures(backoff_delay, (device, (s.failures + 1) as u64), delay),
    ensures
        !t.connected,
        t.failures == s.failures + 1,
        t.interval_ms == s.interval_ms,
        a == DeviceAction::BackOff(delay),
{
}

/// A read that succeeded is handed over; the connection stays and no failure
/// counts. Once it was handed over the task waits.
pub proof fn a_read_is_delivered(s: DeviceLoop, device: DeviceConfig, t: DeviceLoop, a: DeviceAction, u: DeviceLoop, b: DeviceAction)
    requires
        stepped(s, DeviceEvent::Read(true), device, t, a),
        stepped(t, DeviceEvent::Delivered(true), device, u, b),
    ensures
        t.connected == s.connected,
        t.failures == 0,
        t.interval_ms == s.interval_ms,
        a == DeviceAction::Deliver,
        u == t,
        b == DeviceAction::Wait,
{
}

/// A write is passed on where a connection is held, else refused.
pub proof fn a_write_needs_a_connection(s: DeviceLoop, device: DeviceConfig, t: DeviceLoop, a: DeviceAction)
    requires
        stepped(s, DeviceEvent::Write(true), device, t, a),
    ensures
        t == s,
        s.connected ==> a == DeviceAction::ForwardWrite,
        !s.connected ==> a == DeviceAction::RefuseWrite,
{
}

/// A task ends when the process does, when nobody takes its samples, and when
/// nobody writes any more; it ends for nothing else.
pub proof fn a_task_ends_for_a_reason(s: DeviceLoop, e: DeviceEvent, device: DeviceConfig, t: DeviceLoop, a: DeviceAction)
    requires
        stepped(s, e, device, t, a),
    ensures
        a == DeviceAction::Stop <==> (e == DeviceEvent::Shutdown || e == DeviceEvent::Delivered(false) || e
            == DeviceEvent::Write(false)),
{
}

/// A timer is started at the poll interval, and again only once the interval is
/// another one.
pub proof fn a_timer_keeps_the_poll_interval(
    s: DeviceLoop,
    poll_interval_ms: u64,
    t: DeviceLoop,
    restart: Option<u64>,
    u: DeviceLoop,
    again: Option<u64>,
)
    requires
        crate::acquisition::manager::retimed(s, poll_interval_ms, t, restart),
        crate::acquisition::manager::retimed(t, poll_interval_ms, u, again),
    ensures
        s.interval_ms is None ==> restart == Some(poll_interval_ms),
        (s.interval_ms matches Some(ms) && ms != poll_interval_ms) ==> restart == Some(poll_interval_ms),
        (s.interval_ms matches Some(ms) && ms == poll_interval_ms) ==> restart is None,
        t.connected == s.connected,
        t.failures == s.failures,
        again is None,
        u == t,
{
}

/// The refusal of a write without a connection names the device.
pub proof fn a_refused_write_names_the_device(device: &DeviceConfig, e: AcquisitionError)
    requires
        call_ensures(not_connected, (device,), e),
    ensures
        e.text() == "device `"@ + device.name@ + "`: "@ + "device not connected (write refused)"@,
{
}

// ---- reading all registers ----

/// The registers of a device are asked for one after the other, each as it is read
/// on its own, until every one has been.
pub proof fn registers_are_asked_for_in_turn(
    cycle: &ReadCycle,
    registers: &Vec<RegisterConfig>,
    r: Option<ReadRequest>,
    q: ReadRequest,
)
    requires
        call_ensures(ReadCycle::next, (cycle, registers), r),
        cycle.done().len() < registers@.len() ==> call_ensures(
            read_request,
            (&registers@[cycle.done().len() as int],),
            q,
        ),
    ensures
        cycle.done().len() < registers@.len() ==> r == Some(q),
        cycle.done().len() >= registers@.len() ==> r is None,
{
}

/// A cycle begins with nothing and ends with the samples that it took.
pub proof fn a_cycle_gives_what_it_took(device: &str, fresh: ReadCycle, cycle: ReadCycle, samples: Vec<RawSample>)
    requires
        call_ensures(ReadCycle::new, (device,), fresh),
        call_ensures(ReadCycle::finish, (cycle,), samples),
    ensures
        fresh.done().len() == 0,
        fresh.name() == device@,
        samples@.len() == cycle.done().len(),
        forall|i: int| 0 <= i < samples@.len() ==> #[trigger] samples@[i] == cycle.done()[i],
{
}

/// There is a task for every device of the configuration, under its name.
pub proof fn every_device_has_a_task(handle: &ConfigHandle, m: AcquisitionManager, n: usize, i: int, name: &str)
    requires
        call_ensures(AcquisitionManager::new, (handle,), m),
        call_ensures(AcquisitionManager::device_count, (&m,), n),
        0 <= i < handle.current().devices@.len(),
        call_ensures(AcquisitionManager::device_name, (&m, i as usize), name),
    ensures
        n == handle.current().devices@.len(),
        name@ == handle.current().devices@[i].name@,
{
    assert(handle.current().devices.len() == handle.current().devices@.len());
}

proof fn lemma_digit(d: nat)
    requires
        d < 10,
    ensures
        crate::text::decimal(d) == crate::text::digit(d as int),
{
}

proof fn lemma_thousandths(a: nat, b: nat, c: nat)
    requires
        a < 10,
        b < 10,
        c < 10,
    ensures
        c != 0 ==> crate::acquisition::thousandths((100 * a + 10 * b + c) as int) == crate::text::digit(a as int)
            + crate::text::digit(b as int) + crate::text::digit(c as int),
        c == 0 && b != 0 ==> crate::acquisition::thousandths((100 * a + 10 * b + c) as int) == crate::text::digit(
            a as int,
        ) + crate::text::digit(b as int),
{
    let n = (100 * a + 10 * b + c) as int;
    assert(n / 100 == a);
    assert(n % 10 == c);
    assert(n / 10 == 10 * a + b);
    assert(n / 10 % 10 == b);
    assert(n % 100 == 10 * b + c);
}

/// The fraction of a second of a time limit is told to the last digit that is not
/// zero.
pub proof fn a_fraction_of_a_second_is_told(ms: u64, seconds: nat, a: nat, b: nat, c: nat)
    requires
        ms == 1000 * seconds + (100 * a + 10 * b + c),
        1 <= seconds,
        a < 10,
        b < 10,
        c < 10,
        b != 0 || c != 0,
    ensures
        ({
            let text = (AcquisitionError::Timeout(ms)).text();
            let head = "request timed out after "@ + crate::text::decimal(seconds) + "."@;
            let tenth = crate::text::decimal(a);
            let hundredth = crate::text::decimal(b);
            let thousandth = crate::text::decimal(c);
            &&& (c != 0 ==> text == head + tenth + hundredth + thousandth + "s"@)
            &&& (c == 0 ==> text == head + tenth + hundredth + "s"@)
        }),
{
    let n = (100 * a + 10 * b + c) as int;
    vstd::arithmetic::div_mod::lemma_fundamental_div_mod_converse(ms as int, 1000, seconds as int, n);
    lemma_thousandths(a, b, c);
    lemma_digit(a);
    lemma_digit(b);
    lemma_digit(c);
    lemma_timeout_text(ms, seconds, n);
    let head = "request timed out after "@ + crate::text::decimal(seconds) + "."@;
    let tenth = crate::text::decimal(a);
    let hundredth = crate::text::decimal(b);
    let thousandth = crate::text::decimal(c);
    if c != 0 {
        assert(head + (tenth + hundredth + thousandth) + "s"@ =~= head + tenth + hundredth + thousandth + "s"@);
    } else {
        assert(head + (tenth + hundredth) + "s"@ =~= head + tenth + hundredth + "s"@);
    }
}

proof fn lemma_timeout_text(ms: u64, seconds: nat, n: int)
    requires
        ms / 1000 == seconds,
        ms % 1000 == n,
        1 <= seconds,
        1 <= n,
    ensures
        (AcquisitionError::Timeout(ms)).text() == "request timed out after "@ + crate::text::decimal(seconds) + "."@
            + crate::acquisition::thousandths(n) + "s"@,
{
    let d = crate::text::decimal(seconds);
    let t = crate::acquisition::thousandths(n);
    assert(crate::acquisition::duration_text(ms as nat) == d + "."@ + t + "s"@);
    assert("request timed out after "@ + (d + "."@ + t + "s"@) =~= "request timed out after "@ + d + "."@ + t + "s"@);
}

} // verus!
