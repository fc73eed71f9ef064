//! Acquisition: register reads and writes, and the polling of devices.

pub mod decoder;
pub mod manager;

use vstd::prelude::*;

use crate::acquisition::decoder::{raw_sample, raw_sample_bool};
use crate::config::{Access, DeviceConfig, RegisterConfig, RegisterFunction};
use crate::domain::RawSample;
use crate::protocol::WriteValue;
use crate::text::{decimal_text, join2, join3, join5, same_text};

verus! {

/// Errors of the acquisition layer. What a transport reports is held as text.
#[derive(Debug)]
pub enum AcquisitionError {
    Modbus(String),
    /// The name of the exception that the device answered with.
    Exception(String),
    Io(String),
    Serial(String),
    /// The time limit in milliseconds.
    Timeout(u64),
    Config { device: String, message: String },
    Register { device: String, name: String, message: String },
}

/// The decimals of a number of thousandths, without trailing zeros.
pub open spec fn thousandths(n: int) -> Seq<char> {
    if n % 100 == 0 {
        crate::text::digit(n / 100)
    } else if n % 10 == 0 {
        crate::text::digit(n / 100) + crate::text::digit(n / 10 % 10)
    } else {
        crate::text::digit(n / 100) + crate::text::digit(n / 10 % 10) + crate::text::digit(n % 10)
    }
}

/// A duration in milliseconds, in the largest unit that is not a fraction.
pub open spec fn duration_text(ms: nat) -> Seq<char> {
    if ms == 0 {
        "0ns"@
    } else if ms < 1000 {
        crate::text::decimal(ms) + "ms"@
    } else if ms % 1000 == 0 {
        crate::text::decimal(ms / 1000) + "s"@
    } else {
        crate::text::decimal(ms / 1000) + "."@ + thousandths((ms % 1000) as int) + "s"@
    }
}

impl AcquisitionError {
    /// The text of the error.
    pub open spec fn text(self) -> Seq<char> {
        match self {
            AcquisitionError::Modbus(m) => "modbus transport error: "@ + m@,
            AcquisitionError::Exception(m) => "modbus exception from slave: "@ + m@,
            AcquisitionError::Io(m) => "io error: "@ + m@,
            AcquisitionError::Serial(m) => "serial port error: "@ + m@,
            AcquisitionError::Timeout(ms) => "request timed out after "@ + duration_text(ms as nat),
            AcquisitionError::Config { device, message } => "device `"@ + device@ + "`: "@ + message@,
            AcquisitionError::Register { device, name, message } => "device `"@ + device@ + "` register `"@ + name@
                + "`: "@ + message@,
        }
    }

    /// The text of the error.
    pub fn message(&self) -> (r: String)
        ensures
            r@ == self.text(),
    {
        match self {
            AcquisitionError::Modbus(m) => join2("modbus transport error: ", m.as_str()),
            AcquisitionError::Exception(m) => join2("modbus exception from slave: ", m.as_str()),
            AcquisitionError::Io(m) => join2("io error: ", m.as_str()),
            AcquisitionError::Serial(m) => join2("serial port error: ", m.as_str()),
            AcquisitionError::Timeout(ms) => {
                let d = show_duration(*ms);
                join2("request timed out after ", d.as_str())
            },
            AcquisitionError::Config { device, message } => {
                let mut m = join3("device `", device.as_str(), "`: ");
                m.append(message.as_str());
                m
            },
            AcquisitionError::Register { device, name, message } => {
                let mut m = join5("device `", device.as_str(), "` register `", name.as_str(), "`: ");
                m.append(message.as_str());
                m
            },
        }
    }
}

fn show_duration(ms: u64) -> (r: String)
    ensures
        r@ == duration_text(ms as nat),
{
    if ms == 0 {
        "0ns".to_owned()
    } else if ms < 1000 {
        let mut s = decimal_text(ms as u128);
        s.append("ms");
        s
    } else {
        let mut s = decimal_text((ms / 1000) as u128);
        let rest: u128 = (ms % 1000) as u128;
        if rest > 0 {
            s.append(".");
            let mut f = crate::text::digit_text(rest / 100).to_owned();
            if rest % 100 != 0 {
                f.append(crate::text::digit_text(rest / 10 % 10));
                if rest % 10 != 0 {
                    f.append(crate::text::digit_text(rest % 10));
                }
            }
            s.append(f.as_str());
        }
        s.append("s");
        s
    }
}

// ---- reading ----

/// A read that goes out to a device.
#[derive(Debug, Clone, Copy, PartialEq, Eq, Structural)]
pub enum ReadRequest {
    Coils { address: u16, count: u16 },
    DiscreteInputs { address: u16, count: u16 },
    HoldingRegisters { address: u16, count: u16 },
    InputRegisters { address: u16, count: u16 },
}

/// What a device answered.
#[derive(Debug)]
pub enum ReadReply {
    Bits(Vec<bool>),
    Words(Vec<u16>),
    Failed(AcquisitionError),
}

/// The read that a register asks for.
pub open spec fn request_of(reg: RegisterConfig) -> ReadRequest {
    let address = reg.address;
    let count = reg.count_or_width();
    match reg.function {
        RegisterFunction::Coil => ReadRequest::Coils { address, count },
        RegisterFunction::DiscreteInput => ReadRequest::DiscreteInputs { address, count },
        RegisterFunction::Holding => ReadRequest::HoldingRegisters { address, count },
        RegisterFunction::Input => ReadRequest::InputRegisters { address, count },
    }
}

/// The read that a register asks for.
pub fn read_request(reg: &RegisterConfig) -> (r: ReadRequest)
    ensures
        r == request_of(*reg),
{
    let address: u16 = reg.address;
    let count: u16 = reg.effective_count();
    match reg.function {
        RegisterFunction::Coil => ReadRequest::Coils { address, count },
        RegisterFunction::DiscreteInput => ReadRequest::DiscreteInputs { address, count },
        RegisterFunction::Holding => ReadRequest::HoldingRegisters { address, count },
        RegisterFunction::Input => ReadRequest::InputRegisters { address, count },
    }
}

/// The reply is of the kind that the register asks for, or a failure.
pub open spec fn answers_register(reg: RegisterConfig, reply: ReadReply) -> bool {
    match reply {
        ReadReply::Bits(_) => reg.function.single_bit(),
        ReadReply::Words(_) => !reg.function.single_bit(),
        ReadReply::Failed(_) => true,
    }
}

/// The first bit of a reply; an empty reply counts as off.
pub open spec fn first_bit(bits: Seq<bool>) -> bool {
    bits.len() > 0 && bits[0]
}

/// What a reply at time `now` makes of a register.
pub open spec fn sampled_reply(
    device: Seq<char>,
    reg: RegisterConfig,
    reply: ReadReply,
    now: i64,
    r: Result<RawSample, AcquisitionError>,
) -> bool {
    match reply {
        ReadReply::Failed(e) => r == Err::<RawSample, AcquisitionError>(e),
        ReadReply::Bits(bits) => match r {
            Ok(s) => {
                &&& reg.value_type == crate::config::ValueType::Bool
                &&& decoder::sample_of(s, reg, now)
                &&& s.raw_value.is_integer(
                    if first_bit(bits@) {
                        1
                    } else {
                        0
                    },
                )
            },
            Err(e) => {
                &&& reg.value_type != crate::config::ValueType::Bool
                &&& decoder::register_error(e, device, reg, decoder::not_bool(reg.value_type))
            },
        },
        ReadReply::Words(words) => match r {
            Ok(s) => {
                &&& words@.len() >= reg.value_type.width()
                &&& decoder::sample_of(s, reg, now)
                &&& decoder::decodes(words@, reg.value_type, reg.word_order, s.raw_value)
            },
            Err(e) => {
                &&& words@.len() < reg.value_type.width()
                &&& decoder::register_error(e, device, reg, decoder::short_reply(words@.len(), reg.value_type))
            },
        },
    }
}

/// The sample that a reply at time `now` makes of a register.
pub fn sample_reply(device: &str, reg: &RegisterConfig, reply: ReadReply, now: i64) -> (r: Result<
    RawSample,
    AcquisitionError,
>)
    requires
        answers_register(*reg, reply),
    ensures
        sampled_reply(device@, *reg, reply, now, r),
{
    match reply {
        ReadReply::Failed(e) => Err(e),
        ReadReply::Bits(bits) => {
            let value = bits.len() > 0 && bits[0];
            raw_sample_bool(device, reg, value, now)
        },
        ReadReply::Words(words) => raw_sample(device, reg, &words, now),
    }
}

/// The reading of a device's registers, one request at a time. The first
/// failure ends it.
pub struct ReadCycle {
    device: String,
    samples: Vec<RawSample>,
}

impl ReadCycle {
    pub closed spec fn name(&self) -> Seq<char> {
        self.device@
    }

    /// The samples so far; their number is that of the registers read.
    pub closed spec fn done(&self) -> Seq<RawSample> {
        self.samples@
    }

    /// A cycle that has read nothing yet.
    pub fn new(device: &str) -> (r: Self)
        ensures
            r.name() == device@,
            r.done().len() == 0,
    {
        ReadCycle { device: device.to_owned(), samples: Vec::new() }
    }

    /// The next request; none once every register has been read.
    pub fn next(&self, registers: &Vec<RegisterConfig>) -> (r: Option<ReadRequest>)
        ensures
            r is Some <==> self.done().len() < registers@.len(),
            r matches Some(q) ==> q == request_of(registers@[self.done().len() as int]),
    {
        if self.samples.len() < registers.len() {
            Some(read_request(&registers[self.samples.len()]))
        } else {
            None
        }
    }

    /// Takes the reply to the pending request.
    pub fn accept(&mut self, registers: &Vec<RegisterConfig>, reply: ReadReply, now: i64) -> (r: Result<
        (),
        AcquisitionError,
    >)
        requires
            old(self).done().len() < registers@.len(),
            answers_register(registers@[old(self).done().len() as int], reply),
        ensures
            final(self).name() == old(self).name(),
            match r {
                Ok(_) => exists|s: RawSample|
                    {
                        &&& final(self).done() == #[trigger] old(self).done().push(s)
                        &&& sampled_reply(
                            old(self).name(),
                            registers@[old(self).done().len() as int],
                            reply,
                            now,
                            Ok(s),
                        )
                    },
                Err(e) => {
                    &&& final(self).done() == old(self).done()
                    &&& sampled_reply(
                        old(self).name(),
                        registers@[old(self).done().len() as int],
                        reply,
                        now,
                        Err(e),
                    )
                },
            },
    {
        let k: usize = self.samples.len();
        let ghost before = self.samples@;
        match sample_reply(self.device.as_str(), &registers[k], reply, now) {
            Ok(s) => {
                let ghost t = s;
                self.samples.push(s);
                assert(self.done() == before.push(t));
                Ok(())
            },
            Err(e) => Err(e),
        }
    }

    /// The samples of the registers read.
    pub fn finish(self) -> (r: Vec<RawSample>)
        ensures
            r@ == self.done(),
    {
        self.samples
    }
}

// ---- writing ----

/// The register of the device that feeds the sensor: the first one, from `i`
/// on.
pub open spec fn register_index(registers: Seq<RegisterConfig>, id: Seq<char>, i: int) -> Option<int>
    decreases registers.len() - i,
{
    if i >= registers.len() {
        None
    } else if registers[i].sensor_id@ == id {
        Some(i)
    } else {
        register_index(registers, id, i + 1)
    }
}

pub open spec fn unknown_sensor(id: Seq<char>) -> Seq<char> {
    "unknown sensor_id `"@ + id + "` for write"@
}

pub open spec fn not_holding(id: Seq<char>) -> Seq<char> {
    "sensor `"@ + id + "` is not a holding register (cannot write)"@
}

pub open spec fn not_coil(id: Seq<char>) -> Seq<char> {
    "sensor `"@ + id + "` is not a coil (cannot write)"@
}

pub open spec fn read_only(id: Seq<char>) -> Seq<char> {
    "sensor `"@ + id + "` is read-only (access=read)"@
}

/// Why the sensor cannot be written in this space; nothing where it can.
pub open spec fn write_refusal(device: DeviceConfig, id: Seq<char>, function: RegisterFunction) -> Option<Seq<char>> {
    match register_index(device.registers@, id, 0) {
        None => Some(unknown_sensor(id)),
        Some(k) => if device.registers@[k].function != function {
            Some(
                if function == RegisterFunction::Coil {
                    not_coil(id)
                } else {
                    not_holding(id)
                },
            )
        } else if device.registers@[k].access != Access::ReadWrite {
            Some(read_only(id))
        } else {
            None
        },
    }
}

/// `e` is an error of this device.
pub open spec fn device_error(e: AcquisitionError, device: Seq<char>, message: Seq<char>) -> bool {
    e matches AcquisitionError::Config { device: d, message: m } && d@ == device && m@ == message
}

fn find_register(registers: &Vec<RegisterConfig>, id: &str) -> (r: Option<usize>)
    ensures
        r is Some <==> register_index(registers@, id@, 0) is Some,
        r matches Some(k) ==> k < registers@.len() && register_index(registers@, id@, 0) == Some(k as int),
{
    let mut i: usize = 0;
    while i < registers.len()
        invariant
            i <= registers@.len(),
            register_index(registers@, id@, 0) == register_index(registers@, id@, i as int),
        decreases registers@.len() - i,
    {
        if same_text(registers[i].sensor_id.as_str(), id) {
            return Some(i);
        }
        i = i + 1;
    }
    None
}

/// The register that feeds the sensor, if it can be written in this space.
fn register_for_write<'a>(device: &'a DeviceConfig, sensor_id: &str, function: RegisterFunction) -> (r: Result<
    &'a RegisterConfig,
    AcquisitionError,
>)
    requires
        function == RegisterFunction::Holding || function == RegisterFunction::Coil,
    ensures
        r is Ok <==> write_refusal(*device, sensor_id@, function) is None,
        r matches Ok(reg) ==> *reg == device.registers@[register_index(device.registers@, sensor_id@, 0)->0],
        r matches Err(e) ==> device_error(e, device.name@, write_refusal(*device, sensor_id@, function)->0),
{
    let k: usize = match find_register(&device.registers, sensor_id) {
        Some(k) => k,
        None => {
            return Err(
                AcquisitionError::Config {
                    device: device.name.clone(),
                    message: join3("unknown sensor_id `", sensor_id, "` for write"),
                },
            );
        },
    };
    let reg = &device.registers[k];
    if reg.function != function {
        let message = if function == RegisterFunction::Coil {
            join3("sensor `", sensor_id, "` is not a coil (cannot write)")
        } else {
            join3("sensor `", sensor_id, "` is not a holding register (cannot write)")
        };
        return Err(AcquisitionError::Config { device: device.name.clone(), message });
    }
    if reg.access != Access::ReadWrite {
        return Err(
            AcquisitionError::Config {
                device: device.name.clone(),
                message: join3("sensor `", sensor_id, "` is read-only (access=read)"),
            },
        );
    }
    Ok(reg)
}

/// The holding register of the sensor, if it can be written.
pub fn writable_register<'a>(device: &'a DeviceConfig, sensor_id: &str) -> (r: Result<
    &'a RegisterConfig,
    AcquisitionError,
>)
    ensures
        r is Ok <==> write_refusal(*device, sensor_id@, RegisterFunction::Holding) is None,
        r matches Ok(reg) ==> *reg == device.registers@[register_index(device.registers@, sensor_id@, 0)->0],
        r matches Err(e) ==> device_error(
            e,
            device.name@,
            write_refusal(*device, sensor_id@, RegisterFunction::Holding)->0,
        ),
{
    register_for_write(device, sensor_id, RegisterFunction::Holding)
}

/// A write that goes out to a device.
#[derive(Debug, Clone, Copy, PartialEq, Eq, Structural)]
pub enum WriteCommand {
    Register { address: u16, word: u16 },
    Coil { address: u16, bit: bool },
}

/// The space that a value is written to.
pub open spec fn written_space(value: WriteValue) -> RegisterFunction {
    match value {
        WriteValue::Holding(_) => RegisterFunction::Holding,
        WriteValue::Coil(_) => RegisterFunction::Coil,
    }
}

/// The write of a value to an address.
pub open spec fn command_for(address: u16, value: WriteValue) -> WriteCommand {
    match value {
        WriteValue::Holding(v) => WriteCommand::Register { address, word: v },
        WriteValue::Coil(v) => WriteCommand::Coil { address, bit: v },
    }
}

/// The write that sets the sensor to the value, if the device's configuration
/// allows it.
pub fn write_command(device: &DeviceConfig, sensor_id: &str, value: WriteValue) -> (r: Result<
    WriteCommand,
    AcquisitionError,
>)
    ensures
        r is Ok <==> write_refusal(*device, sensor_id@, written_space(value)) is None,
        r matches Ok(c) ==> c == command_for(
            device.registers@[register_index(device.registers@, sensor_id@, 0)->0].address,
            value,
        ),
        r matches Err(e) ==> device_error(
            e,
            device.name@,
            write_refusal(*device, sensor_id@, written_space(value))->0,
        ),
{
    match value {
        WriteValue::Holding(v) => match writable_register(device, sensor_id) {
            Ok(reg) => Ok(WriteCommand::Register { address: reg.address, word: v }),
            Err(e) => Err(e),
        },
        WriteValue::Coil(v) => match register_for_write(device, sensor_id, RegisterFunction::Coil) {
            Ok(reg) => Ok(WriteCommand::Coil { address: reg.address, bit: v }),
            Err(e) => Err(e),
        },
    }
}

/// A write goes out only to a register that the configuration opens for
/// writing, and to its address.
pub proof fn writes_respect_access(device: DeviceConfig, id: Seq<char>, value: WriteValue)
    requires
        write_refusal(device, id, written_space(value)) is None,
    ensures
        ({
            let k = register_index(device.registers@, id, 0)->0;
            &&& 0 <= k < device.registers@.len()
            &&& device.registers@[k].sensor_id@ == id
            &&& device.registers@[k].access == Access::ReadWrite
            &&& device.registers@[k].function.writable()
        }),
{
    lemma_register_index(device.registers@, id, 0);
}

proof fn lemma_register_index(registers: Seq<RegisterConfig>, id: Seq<char>, i: int)
    requires
        0 <= i,
    ensures
        register_index(registers, id, i) matches Some(k) ==> i <= k < registers.len() && registers[k].sensor_id@ == id,
    decreases registers.len() - i,
{
    if i < registers.len() {
        lemma_register_index(registers, id, i + 1);
    }
}

// ---- connections ----

/// The address text of a device reached over TCP.
pub open spec fn address_of(device: DeviceConfig) -> Seq<char> {
    device.host@ + ":"@ + crate::text::decimal(device.port as nat)
}

/// The address text of a device reached over TCP.
pub fn address_text(device: &DeviceConfig) -> (r: String)
    ensures
        r@ == address_of(*device),
{
    let port = decimal_text(device.port as u128);
    join3(device.host.as_str(), ":", port.as_str())
}

/// The error about an address text that is no socket address.
pub fn address_error(device: &DeviceConfig, reason: &str) -> (r: AcquisitionError)
    ensures
        device_error(r, device.name@, "invalid address `"@ + address_of(*device) + "`: "@ + reason@),
{
    let address = address_text(device);
    let mut message = join3("invalid address `", address.as_str(), "`: ");
    message.append(reason);
    AcquisitionError::Config { device: device.name.clone(), message }
}

/// The serial port and baud rate of a device reached over RTU.
pub fn serial_settings(device: &DeviceConfig) -> (r: Result<(&str, u32), AcquisitionError>)
    ensures
        r is Ok <==> device.serial_port is Some && device.baud_rate is Some,
        r matches Ok(s) ==> s.0@ == device.serial_port->0@ && s.1 == device.baud_rate->0,
        r matches Err(e) ==> device_error(
            e,
            device.name@,
            if device.serial_port is None {
                "rtu transport requires `serial_port`"@
            } else {
                "rtu transport requires `baud_rate`"@
            },
        ),
{
    match &device.serial_port {
        None => Err(
            AcquisitionError::Config {
                device: device.name.clone(),
                message: "rtu transport requires `serial_port`".to_owned(),
            },
        ),
        Some(port) => match device.baud_rate {
            None => Err(
                AcquisitionError::Config {
                    device: device.name.clone(),
                    message: "rtu transport requires `baud_rate`".to_owned(),
                },
            ),
            Some(baud) => Ok((port.as_str(), baud)),
        },
    }
}

} // verus!
