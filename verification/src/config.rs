//! Gateway configuration: devices, registers, pipelines, computed sensors,
//! protocol endpoints and the simulated device.

use vstd::prelude::*;

use crate::number::Real;

verus! {

/// The whole configuration.
#[derive(Debug, Clone)]
pub struct Config {
    pub general: GeneralConfig,
    pub devices: Vec<DeviceConfig>,
    /// At most one processing pipeline per sensor.
    pub pipelines: Vec<PipelineConfig>,
    /// Virtual sensors computed from other sensors.
    pub computed: Vec<ComputedConfig>,
    pub endpoints: EndpointsConfig,
    pub sim: SimConfig,
}

/// Steady-state model of a simulated device.
#[derive(Debug, Clone)]
pub struct SimConfig {
    /// Control variables, such as pump or valve duty.
    pub controls: Vec<SimControl>,
    /// Sensors whose values follow from the controls and from one another.
    pub sensors: Vec<SimSensor>,
}

/// A control variable of the simulated device.
#[derive(Debug, Clone)]
pub struct SimControl {
    /// The name that formulas use.
    pub name: String,
    pub initial: Real,
    pub unit: Option<String>,
    /// Whether protocols may write it.
    pub writable: bool,
}

/// A simulated sensor.
///
/// A variable of `formula` stands, in this order, for the target that `inputs`
/// maps it to, a control variable, the time `t` in seconds, or the simulated
/// sensor whose id ends in that name.
#[derive(Debug, Clone)]
pub struct SimSensor {
    /// Unique in the whole gateway.
    pub sensor_id: String,
    pub name: String,
    /// Kind of quantity, such as pressure or flow.
    pub kind: String,
    pub unit: Option<String>,
    pub formula: String,
    /// Variable name and what it stands for: a control or a simulated sensor.
    pub inputs: Vec<(String, String)>,
}

/// Protocol endpoints.
#[derive(Debug, Clone, Copy, PartialEq, Eq, Structural)]
pub struct EndpointsConfig {
    pub redfish_enabled: bool,
    pub redfish_port: u16,
    pub modbus_enabled: bool,
    pub modbus_port: u16,
    pub modbus_unit_id: u8,
    pub health_enabled: bool,
    pub health_port: u16,
}

pub fn default_true() -> (r: bool)
    ensures
        r,
{
    true
}

pub fn default_redfish_port() -> (r: u16)
    ensures
        r == 8000,
{
    8000
}

pub fn default_modbus_port() -> (r: u16)
    ensures
        r == 1503,
{
    1503
}

pub fn default_modbus_unit_id() -> (r: u8)
    ensures
        r == 1,
{
    1
}

pub fn default_health_port() -> (r: u16)
    ensures
        r == 8081,
{
    8081
}

impl Default for EndpointsConfig {
    /// Every endpoint enabled, each on its own port.
    fn default() -> (r: Self)
        ensures
            r == (EndpointsConfig {
                redfish_enabled: true,
                redfish_port: 8000,
                modbus_enabled: true,
                modbus_port: 1503,
                modbus_unit_id: 1,
                health_enabled: true,
                health_port: 8081,
            }),
    {
        EndpointsConfig {
            redfish_enabled: default_true(),
            redfish_port: default_redfish_port(),
            modbus_enabled: default_true(),
            modbus_port: default_modbus_port(),
            modbus_unit_id: default_modbus_unit_id(),
            health_enabled: default_true(),
            health_port: default_health_port(),
        }
    }
}

/// Settings of the process as a whole.
#[derive(Debug, Clone)]
pub struct GeneralConfig {
    pub log_level: LogLevel,
    /// Directory of the rolling log files; none logs to stdout alone.
    pub log_dir: Option<String>,
    /// How many log files are kept.
    pub log_max_files: u32,
}

pub fn default_log_level() -> (r: LogLevel)
    ensures
        r == LogLevel::Info,
{
    LogLevel::Info
}

pub fn default_log_max_files() -> (r: u32)
    ensures
        r == 7,
{
    7
}

impl Default for GeneralConfig {
    /// Level `info`, no log directory, seven files kept.
    fn default() -> (r: Self)
        ensures
            r == (GeneralConfig { log_level: LogLevel::Info, log_dir: None, log_max_files: 7 }),
    {
        GeneralConfig {
            log_level: default_log_level(),
            log_dir: None,
            log_max_files: default_log_max_files(),
        }
    }
}

/// Verbosity of the log.
#[derive(Debug, Clone, Copy, PartialEq, Eq, Structural)]
pub enum LogLevel {
    Trace,
    Debug,
    Info,
    Warn,
    Error,
}

impl LogLevel {
    /// The name of the `tracing` level.
    pub open spec fn tracing_name(self) -> Seq<char> {
        match self {
            LogLevel::Trace => "TRACE"@,
            LogLevel::Debug => "DEBUG"@,
            LogLevel::Info => "INFO"@,
            LogLevel::Warn => "WARN"@,
            LogLevel::Error => "ERROR"@,
        }
    }

    /// The level of `tracing` that this verbosity stands for, by the name that
    /// `tracing` gives it.
    pub fn as_tracing_level(&self) -> (r: &'static str)
        ensures
            r@ == self.tracing_name(),
    {
        match self {
            LogLevel::Trace => "TRACE",
            LogLevel::Debug => "DEBUG",
            LogLevel::Info => "INFO",
            LogLevel::Warn => "WARN",
            LogLevel::Error => "ERROR",
        }
    }
}

impl Default for LogLevel {
    fn default() -> (r: Self)
        ensures
            r == LogLevel::Info,
    {
        LogLevel::Info
    }
}

/// A polled device and its register map.
#[derive(Debug, Clone)]
pub struct DeviceConfig {
    /// Unique device name.
    pub name: String,
    pub transport: Transport,
    /// Modbus unit id, 0..=247.
    pub unit_id: u8,
    /// TCP: host name or address.
    pub host: String,
    /// TCP: port.
    pub port: u16,
    pub poll_interval_ms: u64,
    /// Time limit of a single request.
    pub timeout_ms: u64,
    /// First delay after a failed poll.
    pub reconnect_initial_ms: u64,
    /// Upper bound of the delay.
    pub reconnect_max_ms: u64,
    /// RTU: serial port name.
    pub serial_port: Option<String>,
    /// RTU: baud rate.
    pub baud_rate: Option<u32>,
    /// The registers read on every poll.
    pub registers: Vec<RegisterConfig>,
}

pub fn default_unit_id() -> (r: u8)
    ensures
        r == 1,
{
    1
}

pub fn default_port() -> (r: u16)
    ensures
        r == 502,
{
    502
}

pub fn default_poll_interval_ms() -> (r: u64)
    ensures
        r == 1000,
{
    1000
}

pub fn default_timeout_ms() -> (r: u64)
    ensures
        r == 1000,
{
    1000
}

pub fn default_reconnect_initial_ms() -> (r: u64)
    ensures
        r == 1000,
{
    1000
}

pub fn default_reconnect_max_ms() -> (r: u64)
    ensures
        r == 30000,
{
    30000
}

/// How a device is reached.
#[derive(Debug, Clone, Copy, PartialEq, Eq, Structural)]
pub enum Transport {
    Tcp,
    Rtu,
    /// No hardware: values come from the simulation.
    Sim,
}

impl Default for Transport {
    fn default() -> (r: Self)
        ensures
            r == Transport::Tcp,
    {
        Transport::Tcp
    }
}

/// The four Modbus address spaces.
#[derive(Debug, Clone, Copy, PartialEq, Eq, Structural)]
pub enum RegisterFunction {
    /// Holding registers: words, read and written.
    Holding,
    /// Input registers: words, read only.
    Input,
    /// Coils: bits, read and written.
    Coil,
    /// Discrete inputs: bits, read only.
    DiscreteInput,
}

impl RegisterFunction {
    /// The code of the read function of this space.
    pub open spec fn read_code(self) -> u8 {
        match self {
            RegisterFunction::Holding => 0x03,
            RegisterFunction::Input => 0x04,
            RegisterFunction::Coil => 0x01,
            RegisterFunction::DiscreteInput => 0x02,
        }
    }

    pub open spec fn writable(self) -> bool {
        self == RegisterFunction::Holding || self == RegisterFunction::Coil
    }

    pub open spec fn single_bit(self) -> bool {
        self == RegisterFunction::Coil || self == RegisterFunction::DiscreteInput
    }

    /// The Modbus function code that reads this space.
    pub fn function_code(&self) -> (r: u8)
        ensures
            r == self.read_code(),
    {
        match self {
            RegisterFunction::Holding => 0x03,
            RegisterFunction::Input => 0x04,
            RegisterFunction::Coil => 0x01,
            RegisterFunction::DiscreteInput => 0x02,
        }
    }

    /// Whether protocols may write to this space.
    pub fn is_writable(&self) -> (r: bool)
        ensures
            r == self.writable(),
    {
        matches!(self, RegisterFunction::Holding | RegisterFunction::Coil)
    }

    /// Whether an address of this space holds a single bit.
    pub fn is_bit(&self) -> (r: bool)
        ensures
            r == self.single_bit(),
    {
        matches!(self, RegisterFunction::Coil | RegisterFunction::DiscreteInput)
    }
}

pub fn default_function() -> (r: RegisterFunction)
    ensures
        r == RegisterFunction::Holding,
{
    RegisterFunction::Holding
}

impl Default for RegisterFunction {
    fn default() -> (r: Self)
        ensures
            r == RegisterFunction::Holding,
    {
        default_function()
    }
}

/// Whether protocols may write a register.
#[derive(Debug, Clone, Copy, PartialEq, Eq, Structural)]
pub enum Access {
    Read,
    ReadWrite,
}

impl Default for Access {
    fn default() -> (r: Self)
        ensures
            r == Access::Read,
    {
        Access::Read
    }
}

/// How the words of a register are read.
#[derive(Debug, Clone, Copy, PartialEq, Eq, Structural)]
pub enum ValueType {
    U16,
    I16,
    U32,
    I32,
    F32,
    /// A single bit, in a coil or a discrete input.
    Bool,
}

impl ValueType {
    /// The number of 16-bit registers that a value of this type takes.
    pub open spec fn width(self) -> u16 {
        match self {
            ValueType::U16 | ValueType::I16 | ValueType::Bool => 1,
            ValueType::U32 | ValueType::I32 | ValueType::F32 => 2,
        }
    }

    /// The number of 16-bit registers that a value of this type takes.
    pub fn register_count(&self) -> (r: u16)
        ensures
            r == self.width(),
    {
        match self {
            ValueType::U16 | ValueType::I16 | ValueType::Bool => 1,
            ValueType::U32 | ValueType::I32 | ValueType::F32 => 2,
        }
    }
}

impl Default for ValueType {
    fn default() -> (r: Self)
        ensures
            r == ValueType::U16,
    {
        ValueType::U16
    }
}

/// Which word of a two-word value comes first.
#[derive(Debug, Clone, Copy, PartialEq, Eq, Structural)]
pub enum WordOrder {
    /// The high word comes first.
    Big,
    /// The low word comes first.
    Little,
}

impl Default for WordOrder {
    fn default() -> (r: Self)
        ensures
            r == WordOrder::Big,
    {
        WordOrder::Big
    }
}

/// A register and how it is decoded.
#[derive(Debug, Clone)]
pub struct RegisterConfig {
    pub name: String,
    /// Unique in the whole gateway.
    pub sensor_id: String,
    pub function: RegisterFunction,
    /// First address, counted from 0.
    pub address: u16,
    /// Number of 16-bit registers; none stands for the width of `value_type`.
    pub count: Option<u16>,
    pub value_type: ValueType,
    pub word_order: WordOrder,
    pub unit: Option<String>,
    pub access: Access,
}

impl RegisterConfig {
    /// The number of 16-bit registers to read: the given count, else the width
    /// of the value type.
    pub open spec fn count_or_width(&self) -> u16 {
        match self.count {
            Some(n) => n,
            None => self.value_type.width(),
        }
    }

    /// The number of 16-bit registers to read.
    pub fn effective_count(&self) -> (r: u16)
        ensures
            r == self.count_or_width(),
    {
        match self.count {
            Some(n) => n,
            None => self.value_type.register_count(),
        }
    }
}

/// A virtual sensor, computed from other sensors.
#[derive(Debug, Clone)]
pub struct ComputedConfig {
    /// Unique in the whole gateway.
    pub sensor_id: String,
    pub name: String,
    pub unit: Option<String>,
    /// Variable name and the id of the sensor that it stands for.
    pub inputs: Vec<(String, String)>,
    /// An expression over the variables of `inputs`.
    pub expression: String,
}

/// The processing pipeline of one sensor.
#[derive(Debug, Clone)]
pub struct PipelineConfig {
    pub sensor_id: String,
    /// The stages, applied to every sample in this order.
    pub stages: Vec<StageConfig>,
}

/// One stage of a pipeline.
#[derive(Debug, Clone)]
pub enum StageConfig {
    /// `value * scale + offset`, and a new unit where one is given.
    Scale { scale: Real, offset: Real, unit: Option<String> },
    /// Average of the last values.
    SlidingAverage { window: usize },
    /// Median of the last values.
    Median { window: usize },
    /// An expression over the current value, the variable `v`.
    Math { expression: String },
    /// Sets the status; a critical bound takes precedence over a warning bound.
    Threshold {
        low_warning: Option<Real>,
        high_warning: Option<Real>,
        low_critical: Option<Real>,
        high_critical: Option<Real>,
    },
    /// Replaces the value by a statistic of the last values.
    Aggregate { window: usize, mode: AggregateMode },
}

/// The statistic of an aggregate stage.
#[derive(Debug, Clone, Copy, PartialEq, Eq, Structural)]
pub enum AggregateMode {
    Min,
    Max,
    Avg,
}

} // verus!
