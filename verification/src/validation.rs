//! What makes a configuration acceptable, beyond the types of its fields.

use vstd::prelude::*;

use crate::config::{
    Access, ComputedConfig, Config, DeviceConfig, PipelineConfig, RegisterConfig, RegisterFunction, SimControl, SimSensor,
    StageConfig, Transport, ValueType,
};
use crate::text::{decimal_text, join3, join5, same_string};

verus! {

/// What the expression parser has against the expressions of a configuration.
pub struct Faults {
    /// For every pipeline, against each of its stages.
    pub stages: Vec<Vec<Option<String>>>,
    /// Against parsing the expression of every computed sensor.
    pub parsing: Vec<Option<String>>,
    /// Against binding that expression to the inputs.
    pub binding: Vec<Option<String>>,
    /// Against the formula of every simulated sensor.
    pub formulas: Vec<Option<String>>,
}

/// The texts of [`Faults`].
pub struct FaultTexts {
    pub stages: Seq<Seq<Option<Seq<char>>>>,
    pub parsing: Seq<Option<Seq<char>>>,
    pub binding: Seq<Option<Seq<char>>>,
    pub formulas: Seq<Option<Seq<char>>>,
}

/// The texts of a list of optional strings.
pub open spec fn optional_texts(v: Seq<Option<String>>) -> Seq<Option<Seq<char>>> {
    v.map_values(|o: Option<String>| crate::expression::text_of(o))
}

impl View for Faults {
    type V = FaultTexts;

    open spec fn view(&self) -> FaultTexts {
        FaultTexts {
            stages: self.stages@.map_values(|v: Vec<Option<String>>| optional_texts(v@)),
            parsing: optional_texts(self.parsing@),
            binding: optional_texts(self.binding@),
            formulas: optional_texts(self.formulas@),
        }
    }
}

// ---- messages ----

pub open spec fn device_text(device: Seq<char>, what: Seq<char>) -> Seq<char> {
    "device `"@ + device + "`: "@ + what
}

pub open spec fn register_text(device: Seq<char>, register: Seq<char>, what: Seq<char>) -> Seq<char> {
    "device `"@ + device + "` register `"@ + register + "`: "@ + what
}

pub open spec fn computed_text(id: Seq<char>, what: Seq<char>) -> Seq<char> {
    "computed `"@ + id + "`: "@ + what
}

pub open spec fn sim_text(id: Seq<char>, what: Seq<char>) -> Seq<char> {
    "sim sensor `"@ + id + "`: "@ + what
}

pub open spec fn pipeline_text(id: Seq<char>, what: Seq<char>) -> Seq<char> {
    "pipeline for `"@ + id + "`: "@ + what
}

pub open spec fn range_text(low: int, high: int) -> Seq<char> {
    "["@ + crate::text::decimal(low as nat) + ", "@ + crate::text::decimal(high as nat) + ")"@
}

pub(crate) fn device_message(device: &String, what: &str) -> (r: String)
    ensures
        r@ == device_text(device@, what@),
{
    let mut m = join3("device `", device.as_str(), "`: ");
    m.append(what);
    m
}

pub(crate) fn register_message(device: &String, register: &String, what: &str) -> (r: String)
    ensures
        r@ == register_text(device@, register@, what@),
{
    let mut m = join5("device `", device.as_str(), "` register `", register.as_str(), "`: ");
    m.append(what);
    m
}

fn computed_message(id: &String, what: &str) -> (r: String)
    ensures
        r@ == computed_text(id@, what@),
{
    let mut m = join3("computed `", id.as_str(), "`: ");
    m.append(what);
    m
}

pub(crate) fn sim_message(id: &String, what: &str) -> (r: String)
    ensures
        r@ == sim_text(id@, what@),
{
    let mut m = join3("sim sensor `", id.as_str(), "`: ");
    m.append(what);
    m
}

pub(crate) fn pipeline_message(id: &String, what: &str) -> (r: String)
    ensures
        r@ == pipeline_text(id@, what@),
{
    let mut m = join3("pipeline for `", id.as_str(), "`: ");
    m.append(what);
    m
}

pub(crate) fn range_message(low: u16, high: u16) -> (r: String)
    ensures
        r@ == range_text(low as int, high as int),
{
    let a = decimal_text(low as u128);
    let b = decimal_text(high as u128);
    join5("[", a.as_str(), ", ", b.as_str(), ")")
}

pub open spec fn function_name(f: RegisterFunction) -> Seq<char> {
    match f {
        RegisterFunction::Holding => "Holding"@,
        RegisterFunction::Input => "Input"@,
        RegisterFunction::Coil => "Coil"@,
        RegisterFunction::DiscreteInput => "DiscreteInput"@,
    }
}

pub open spec fn value_type_name(t: ValueType) -> Seq<char> {
    match t {
        ValueType::U16 => "U16"@,
        ValueType::I16 => "I16"@,
        ValueType::U32 => "U32"@,
        ValueType::I32 => "I32"@,
        ValueType::F32 => "F32"@,
        ValueType::Bool => "Bool"@,
    }
}

pub(crate) fn function_label(f: RegisterFunction) -> (r: &'static str)
    ensures
        r@ == function_name(f),
{
    match f {
        RegisterFunction::Holding => "Holding",
        RegisterFunction::Input => "Input",
        RegisterFunction::Coil => "Coil",
        RegisterFunction::DiscreteInput => "DiscreteInput",
    }
}

pub(crate) fn value_type_label(t: ValueType) -> (r: &'static str)
    ensures
        r@ == value_type_name(t),
{
    match t {
        ValueType::U16 => "U16",
        ValueType::I16 => "I16",
        ValueType::U32 => "U32",
        ValueType::I32 => "I32",
        ValueType::F32 => "F32",
        ValueType::Bool => "Bool",
    }
}

// ---- devices and registers ----

/// One of the first `n` devices has this name.
pub open spec fn device_named(devices: Seq<DeviceConfig>, n: int, name: Seq<char>) -> bool {
    exists|j: int| 0 <= j < n && #[trigger] devices[j].name@ == name
}

/// One of the first `n` registers has this name.
pub open spec fn register_named(registers: Seq<RegisterConfig>, n: int, name: Seq<char>) -> bool {
    exists|j: int| 0 <= j < n && #[trigger] registers[j].name@ == name
}

/// One of the first `n` registers feeds this sensor.
pub open spec fn feeds(registers: Seq<RegisterConfig>, n: int, id: Seq<char>) -> bool {
    exists|j: int| 0 <= j < n && #[trigger] registers[j].sensor_id@ == id
}

/// A register of one of the first `n` devices feeds this sensor.
pub open spec fn fed(devices: Seq<DeviceConfig>, n: int, id: Seq<char>) -> bool {
    exists|i: int| 0 <= i < n && #[trigger] feeds(devices[i].registers@, devices[i].registers@.len() as int, id)
}

/// The first address past the register.
pub open spec fn end_of(r: RegisterConfig) -> int {
    r.address + r.value_type.width()
}

/// The address ranges of two registers of one device meet.
pub open spec fn overlap(a: RegisterConfig, b: RegisterConfig) -> bool {
    &&& a.function == b.function
    &&& a.address < end_of(b)
    &&& b.address < end_of(a)
}

/// What is wrong with the transport settings of a device.
pub open spec fn transport_problem(d: DeviceConfig, controls: nat) -> Option<Seq<char>> {
    match d.transport {
        Transport::Tcp => if d.host@.len() == 0 {
            Some(device_text(d.name@, "tcp transport requires `host`"@))
        } else if d.port == 0 {
            Some(device_text(d.name@, "tcp transport requires a valid `port`"@))
        } else {
            None
        },
        Transport::Rtu => if d.serial_port is None {
            Some(device_text(d.name@, "rtu transport requires `serial_port` (e.g. \"COM3\")"@))
        } else if d.baud_rate is None {
            Some(device_text(d.name@, "rtu transport requires `baud_rate`"@))
        } else {
            None
        },
        Transport::Sim => if controls == 0 {
            Some(device_text(d.name@, "sim transport requires `[sim]` controls"@))
        } else {
            None
        },
    }
}

/// What is wrong with a device, its registers aside.
pub open spec fn device_problem(c: Config, i: int) -> Option<Seq<char>> {
    let d = c.devices@[i];
    if device_named(c.devices@, i, d.name@) {
        Some("duplicate device name `"@ + d.name@ + "`"@)
    } else if d.unit_id > 247 {
        Some(device_text(d.name@, "unit_id "@ + crate::text::decimal(d.unit_id as nat) + " out of range (0..=247)"@))
    } else if transport_problem(d, c.sim.controls@.len()) is Some {
        transport_problem(d, c.sim.controls@.len())
    } else if d.poll_interval_ms == 0 {
        Some(device_text(d.name@, "poll_interval_ms must be > 0"@))
    } else if d.timeout_ms == 0 {
        Some(device_text(d.name@, "timeout_ms must be > 0"@))
    } else if d.reconnect_initial_ms > d.reconnect_max_ms {
        Some(
            device_text(
                d.name@,
                "reconnect_initial_ms ("@ + crate::text::decimal(d.reconnect_initial_ms as nat)
                    + ") must be <= reconnect_max_ms ("@ + crate::text::decimal(d.reconnect_max_ms as nat) + ")"@,
            ),
        )
    } else if d.registers@.len() == 0 && d.transport != Transport::Sim {
        Some(device_text(d.name@, "at least one register is required"@))
    } else if d.registers@.len() > 256 {
        Some(device_text(d.name@, "too many registers ("@ + crate::text::decimal(d.registers@.len()) + "), max 256"@))
    } else {
        None
    }
}

/// What is wrong with register `j` of device `i` in itself.
pub open spec fn register_problem(c: Config, i: int, j: int) -> Option<Seq<char>> {
    let d = c.devices@[i];
    let r = d.registers@[j];
    if register_named(d.registers@, j, r.name@) {
        Some(device_text(d.name@, "duplicate register name `"@ + r.name@ + "`"@))
    } else if fed(c.devices@, i, r.sensor_id@) || feeds(d.registers@, j, r.sensor_id@) {
        Some("duplicate sensor_id `"@ + r.sensor_id@ + "` (must be unique gateway-wide)"@)
    } else if r.function.single_bit() && r.value_type != ValueType::Bool {
        Some(
            register_text(
                d.name@,
                r.name@,
                "function "@ + function_name(r.function) + " requires value_type = \"bool\""@,
            ),
        )
    } else if r.access == Access::ReadWrite && !r.function.writable() {
        Some(
            register_text(
                d.name@,
                r.name@,
                "access = \"read_write\" is only allowed for holding/coil registers"@,
            ),
        )
    } else if r.count_or_width() != r.value_type.width() {
        Some(
            register_text(
                d.name@,
                r.name@,
                "count "@ + crate::text::decimal(r.count_or_width() as nat) + " does not match value_type "@
                    + value_type_name(r.value_type) + " (expected "@ + crate::text::decimal(r.value_type.width() as nat)
                    + ")"@,
            ),
        )
    } else if end_of(r) > 0xffff {
        Some("register address overflow"@)
    } else {
        None
    }
}

/// The message about two registers whose ranges meet.
pub open spec fn overlap_text(d: DeviceConfig, j: int, k: int) -> Seq<char> {
    let r = d.registers@[j];
    let o = d.registers@[k];
    device_text(
        d.name@,
        "register `"@ + r.name@ + "` range "@ + range_text(r.address as int, end_of(r)) + " overlaps `"@ + o.name@
            + "` range "@ + range_text(o.address as int, end_of(o)),
    )
}

/// The first earlier register, from `k` on, whose range register `j` meets.
pub open spec fn overlap_problem(d: DeviceConfig, j: int, k: int) -> Option<Seq<char>>
    decreases j - k,
{
    if k >= j {
        None
    } else if overlap(d.registers@[j], d.registers@[k]) {
        Some(overlap_text(d, j, k))
    } else {
        overlap_problem(d, j, k + 1)
    }
}

/// The first problem with a register of device `i`, from register `j` on.
pub open spec fn registers_problem(c: Config, i: int, j: int) -> Option<Seq<char>>
    decreases c.devices@[i].registers@.len() - j,
{
    if j >= c.devices@[i].registers@.len() {
        None
    } else if register_problem(c, i, j) is Some {
        register_problem(c, i, j)
    } else if overlap_problem(c.devices@[i], j, 0) is Some {
        overlap_problem(c.devices@[i], j, 0)
    } else {
        registers_problem(c, i, j + 1)
    }
}

/// The first problem with a device, from device `i` on.
pub open spec fn devices_problem(c: Config, i: int) -> Option<Seq<char>>
    decreases c.devices@.len() - i,
{
    if i >= c.devices@.len() {
        None
    } else if device_problem(c, i) is Some {
        device_problem(c, i)
    } else if registers_problem(c, i, 0) is Some {
        registers_problem(c, i, 0)
    } else {
        devices_problem(c, i + 1)
    }
}

fn find_device_named(devices: &Vec<DeviceConfig>, n: usize, name: &String) -> (r: bool)
    requires
        n <= devices@.len(),
    ensures
        r == device_named(devices@, n as int, name@),
{
    let mut j: usize = 0;
    while j < n
        invariant
            j <= n <= devices@.len(),
            !device_named(devices@, j as int, name@),
        decreases n - j,
    {
        if same_string(&devices[j].name, name) {
            assert(devices@[j as int].name@ == name@);
            return true;
        }
        j = j + 1;
    }
    false
}

pub(crate) fn find_register_named(registers: &Vec<RegisterConfig>, n: usize, name: &String) -> (r: bool)
    requires
        n <= registers@.len(),
    ensures
        r == register_named(registers@, n as int, name@),
{
    let mut j: usize = 0;
    while j < n
        invariant
            j <= n <= registers@.len(),
            !register_named(registers@, j as int, name@),
        decreases n - j,
    {
        if same_string(&registers[j].name, name) {
            assert(registers@[j as int].name@ == name@);
            return true;
        }
        j = j + 1;
    }
    false
}

fn find_fed(registers: &Vec<RegisterConfig>, n: usize, id: &String) -> (r: bool)
    requires
        n <= registers@.len(),
    ensures
        r == feeds(registers@, n as int, id@),
{
    let mut j: usize = 0;
    while j < n
        invariant
            j <= n <= registers@.len(),
            !feeds(registers@, j as int, id@),
        decreases n - j,
    {
        if same_string(&registers[j].sensor_id, id) {
            assert(registers@[j as int].sensor_id@ == id@);
            return true;
        }
        j = j + 1;
    }
    false
}

pub(crate) fn find_fed_before(devices: &Vec<DeviceConfig>, n: usize, id: &String) -> (r: bool)
    requires
        n <= devices@.len(),
    ensures
        r == fed(devices@, n as int, id@),
{
    let mut i: usize = 0;
    while i < n
        invariant
            i <= n <= devices@.len(),
            !fed(devices@, i as int, id@),
        decreases n - i,
    {
        if find_fed(&devices[i].registers, devices[i].registers.len(), id) {
            assert(feeds(devices@[i as int].registers@, devices@[i as int].registers@.len() as int, id@));
            return true;
        }
        i = i + 1;
    }
    false
}

/// A passed check, or the message of a failed one.
pub open spec fn verdict(r: Result<(), String>) -> Option<Seq<char>> {
    crate::pipeline::verdict(r)
}

fn check_transport(d: &DeviceConfig, controls: usize) -> (r: Result<(), String>)
    ensures
        verdict(r) == transport_problem(*d, controls as nat),
{
    match d.transport {
        Transport::Tcp => {
            if d.host.as_str().is_empty() {
                return Err(device_message(&d.name, "tcp transport requires `host`"));
            }
            if d.port == 0 {
                return Err(device_message(&d.name, "tcp transport requires a valid `port`"));
            }
        },
        Transport::Rtu => {
            if d.serial_port.is_none() {
                return Err(device_message(&d.name, "rtu transport requires `serial_port` (e.g. \"COM3\")"));
            }
            if d.baud_rate.is_none() {
                return Err(device_message(&d.name, "rtu transport requires `baud_rate`"));
            }
        },
        Transport::Sim => {
            if controls == 0 {
                return Err(device_message(&d.name, "sim transport requires `[sim]` controls"));
            }
        },
    }
    Ok(())
}

fn check_device(c: &Config, i: usize) -> (r: Result<(), String>)
    requires
        i < c.devices@.len(),
    ensures
        verdict(r) == device_problem(*c, i as int),
{
    let d = &c.devices[i];
    if find_device_named(&c.devices, i, &d.name) {
        return Err(join3("duplicate device name `", d.name.as_str(), "`"));
    }
    if d.unit_id > 247 {
        let n = decimal_text(d.unit_id as u128);
        let what = join3("unit_id ", n.as_str(), " out of range (0..=247)");
        return Err(device_message(&d.name, what.as_str()));
    }
    match check_transport(d, c.sim.controls.len()) {
        Ok(()) => {},
        Err(m) => {
            return Err(m);
        },
    }
    if d.poll_interval_ms == 0 {
        return Err(device_message(&d.name, "poll_interval_ms must be > 0"));
    }
    if d.timeout_ms == 0 {
        return Err(device_message(&d.name, "timeout_ms must be > 0"));
    }
    if d.reconnect_initial_ms > d.reconnect_max_ms {
        let a = decimal_text(d.reconnect_initial_ms as u128);
        let b = decimal_text(d.reconnect_max_ms as u128);
        let what = join5(
            "reconnect_initial_ms (",
            a.as_str(),
            ") must be <= reconnect_max_ms (",
            b.as_str(),
            ")",
        );
        return Err(device_message(&d.name, what.as_str()));
    }
    if d.registers.len() == 0 && d.transport != Transport::Sim {
        return Err(device_message(&d.name, "at least one register is required"));
    }
    if d.registers.len() > 256 {
        let n = decimal_text(d.registers.len() as u128);
        let what = join3("too many registers (", n.as_str(), "), max 256");
        return Err(device_message(&d.name, what.as_str()));
    }
    Ok(())
}

fn check_register(c: &Config, i: usize, j: usize) -> (r: Result<(), String>)
    requires
        i < c.devices@.len(),
        j < c.devices@[i as int].registers@.len(),
    ensures
        verdict(r) == register_problem(*c, i as int, j as int),
{
    let d = &c.devices[i];
    let r = &d.registers[j];
    if find_register_named(&d.registers, j, &r.name) {
        let what = join3("duplicate register name `", r.name.as_str(), "`");
        return Err(device_message(&d.name, what.as_str()));
    }
    if find_fed_before(&c.devices, i, &r.sensor_id) || find_fed(&d.registers, j, &r.sensor_id) {
        return Err(join3("duplicate sensor_id `", r.sensor_id.as_str(), "` (must be unique gateway-wide)"));
    }
    if r.function.is_bit() && r.value_type != ValueType::Bool {
        let what = join3("function ", function_label(r.function), " requires value_type = \"bool\"");
        return Err(register_message(&d.name, &r.name, what.as_str()));
    }
    if r.access == Access::ReadWrite && !r.function.is_writable() {
        return Err(
            register_message(
                &d.name,
                &r.name,
                "access = \"read_write\" is only allowed for holding/coil registers",
            ),
        );
    }
    let width: u16 = r.value_type.register_count();
    let count: u16 = r.effective_count();
    if count != width {
        let a = decimal_text(count as u128);
        let b = decimal_text(width as u128);
        let mut what = join5(
            "count ",
            a.as_str(),
            " does not match value_type ",
            value_type_label(r.value_type),
            " (expected ",
        );
        what.append(b.as_str());
        what.append(")");
        return Err(register_message(&d.name, &r.name, what.as_str()));
    }
    if r.address.checked_add(width).is_none() {
        return Err("register address overflow".to_owned());
    }
    Ok(())
}

fn check_overlap(d: &DeviceConfig, j: usize) -> (r: Result<(), String>)
    requires
        j < d.registers@.len(),
        forall|k: int| 0 <= k <= j ==> end_of(#[trigger] d.registers@[k]) <= 0xffff,
    ensures
        verdict(r) == overlap_problem(*d, j as int, 0),
{
    let a = &d.registers[j];
    let a_end: u16 = a.address + a.value_type.register_count();
    let mut k: usize = 0;
    while k < j
        invariant
            k <= j < d.registers@.len(),
            *a == d.registers@[j as int],
            a_end == end_of(*a),
            forall|k: int| 0 <= k <= j ==> end_of(#[trigger] d.registers@[k]) <= 0xffff,
            overlap_problem(*d, j as int, 0) == overlap_problem(*d, j as int, k as int),
        decreases j - k,
    {
        let b = &d.registers[k];
        assert(*b == d.registers@[k as int]);
        let b_end: u16 = b.address + b.value_type.register_count();
        if a.function == b.function && a.address < b_end && b.address < a_end {
            let ra = range_message(a.address, a_end);
            let rb = range_message(b.address, b_end);
            let mut what = join5("register `", a.name.as_str(), "` range ", ra.as_str(), " overlaps `");
            what.append(b.name.as_str());
            what.append("` range ");
            what.append(rb.as_str());
            return Err(device_message(&d.name, what.as_str()));
        }
        k = k + 1;
    }
    Ok(())
}

fn check_registers(c: &Config, i: usize) -> (r: Result<(), String>)
    requires
        i < c.devices@.len(),
    ensures
        verdict(r) == registers_problem(*c, i as int, 0),
{
    let mut j: usize = 0;
    while j < c.devices[i].registers.len()
        invariant
            i < c.devices@.len(),
            j <= c.devices@[i as int].registers@.len(),
            registers_problem(*c, i as int, 0) == registers_problem(*c, i as int, j as int),
            forall|k: int| 0 <= k < j ==> end_of(#[trigger] c.devices@[i as int].registers@[k]) <= 0xffff,
        decreases c.devices@[i as int].registers@.len() - j,
    {
        match check_register(c, i, j) {
            Ok(()) => {},
            Err(m) => {
                return Err(m);
            },
        }
        match check_overlap(&c.devices[i], j) {
            Ok(()) => {},
            Err(m) => {
                return Err(m);
            },
        }
        j = j + 1;
    }
    Ok(())
}

fn check_devices(c: &Config) -> (r: Result<(), String>)
    ensures
        verdict(r) == devices_problem(*c, 0),
{
    let mut i: usize = 0;
    while i < c.devices.len()
        invariant
            i <= c.devices@.len(),
            devices_problem(*c, 0) == devices_problem(*c, i as int),
        decreases c.devices@.len() - i,
    {
        match check_device(c, i) {
            Ok(()) => {},
            Err(m) => {
                return Err(m);
            },
        }
        match check_registers(c, i) {
            Ok(()) => {},
            Err(m) => {
                return Err(m);
            },
        }
        i = i + 1;
    }
    Ok(())
}

// ---- pipelines ----

/// One of the first `n` pipelines is for this sensor.
pub open spec fn piped(pipelines: Seq<PipelineConfig>, n: int, id: Seq<char>) -> bool {
    exists|j: int| 0 <= j < n && #[trigger] pipelines[j].sensor_id@ == id
}

/// One of the first `n` simulated sensors has this id.
pub open spec fn simulated(sensors: Seq<SimSensor>, n: int, id: Seq<char>) -> bool {
    exists|j: int| 0 <= j < n && #[trigger] sensors[j].sensor_id@ == id
}

/// One of the first `n` computed sensors has this id.
pub open spec fn computes(computed: Seq<ComputedConfig>, n: int, id: Seq<char>) -> bool {
    exists|j: int| 0 <= j < n && #[trigger] computed[j].sensor_id@ == id
}

/// One of the first `n` controls has this name.
pub open spec fn control_named(controls: Seq<SimControl>, n: int, name: Seq<char>) -> bool {
    exists|j: int| 0 <= j < n && #[trigger] controls[j].name@ == name
}

/// Samples arrive for this sensor: from a register or from the simulation.
pub open spec fn sampled(c: Config, id: Seq<char>) -> bool {
    fed(c.devices@, c.devices@.len() as int, id) || simulated(c.sim.sensors@, c.sim.sensors@.len() as int, id)
}

/// The first problem with a stage of pipeline `p`, from stage `k` on.
pub open spec fn stages_problem(p: PipelineConfig, faults: Seq<Option<Seq<char>>>, k: int) -> Option<Seq<char>>
    decreases p.stages@.len() - k,
{
    if k >= p.stages@.len() {
        None
    } else {
        match crate::pipeline::stage_problem(p.stages@[k], faults[k]) {
            Some(m) => Some(pipeline_text(p.sensor_id@, m)),
            None => stages_problem(p, faults, k + 1),
        }
    }
}

/// What is wrong with pipeline `i`.
pub open spec fn pipeline_problem(c: Config, f: FaultTexts, i: int) -> Option<Seq<char>> {
    let p = c.pipelines@[i];
    if !sampled(c, p.sensor_id@) {
        Some("pipeline sensor_id `"@ + p.sensor_id@ + "` does not match any device register"@)
    } else if piped(c.pipelines@, i, p.sensor_id@) {
        Some("duplicate pipeline for sensor_id `"@ + p.sensor_id@ + "` (only one pipeline per sensor)"@)
    } else if p.stages@.len() == 0 {
        Some(pipeline_text(p.sensor_id@, "at least one stage is required"@))
    } else if p.stages@.len() > 16 {
        Some(pipeline_text(p.sensor_id@, "too many stages ("@ + crate::text::decimal(p.stages@.len()) + "), max 16"@))
    } else {
        stages_problem(p, f.stages[i], 0)
    }
}

/// The first problem with a pipeline, from pipeline `i` on.
pub open spec fn pipelines_problem(c: Config, f: FaultTexts, i: int) -> Option<Seq<char>>
    decreases c.pipelines@.len() - i,
{
    if i >= c.pipelines@.len() {
        None
    } else if pipeline_problem(c, f, i) is Some {
        pipeline_problem(c, f, i)
    } else {
        pipelines_problem(c, f, i + 1)
    }
}

// ---- computed sensors ----

/// What is wrong with the identity of computed sensor `i`.
pub open spec fn identity_problem(c: Config, i: int) -> Option<Seq<char>> {
    let s = c.computed@[i];
    if fed(c.devices@, c.devices@.len() as int, s.sensor_id@) || computes(c.computed@, i, s.sensor_id@) {
        Some("duplicate sensor_id `"@ + s.sensor_id@ + "` (computed must not collide with registers)"@)
    } else if s.name@.len() == 0 {
        Some(computed_text(s.sensor_id@, "name is required"@))
    } else if s.inputs@.len() == 0 {
        Some(computed_text(s.sensor_id@, "at least one input is required"@))
    } else {
        None
    }
}

/// The first problem with the identity of a computed sensor, from `i` on.
pub open spec fn identities_problem(c: Config, i: int) -> Option<Seq<char>>
    decreases c.computed@.len() - i,
{
    if i >= c.computed@.len() {
        None
    } else if identity_problem(c, i) is Some {
        identity_problem(c, i)
    } else {
        identities_problem(c, i + 1)
    }
}

/// The sensor can be read by a computed sensor.
pub open spec fn readable_sensor(c: Config, id: Seq<char>) -> bool {
    sampled(c, id) || computes(c.computed@, c.computed@.len() as int, id)
}

/// The first input of computed sensor `i`, from input `k` on, that no sensor
/// stands behind.
pub open spec fn inputs_problem(c: Config, i: int, k: int) -> Option<Seq<char>>
    decreases c.computed@[i].inputs@.len() - k,
{
    let s = c.computed@[i];
    if k >= s.inputs@.len() {
        None
    } else if !readable_sensor(c, s.inputs@[k].1@) {
        Some(
            computed_text(
                s.sensor_id@,
                "input `"@ + s.inputs@[k].0@ + "` references unknown sensor_id `"@ + s.inputs@[k].1@ + "`"@,
            ),
        )
    } else {
        inputs_problem(c, i, k + 1)
    }
}

/// What is wrong with the expression of computed sensor `i`.
pub open spec fn formula_problem(c: Config, f: FaultTexts, i: int) -> Option<Seq<char>> {
    let s = c.computed@[i];
    match f.parsing[i] {
        Some(m) => Some(
            computed_text(s.sensor_id@, crate::pipeline::bad_expression(s.expression@, m)),
        ),
        None => match f.binding[i] {
            Some(m) => Some(computed_text(s.sensor_id@, m)),
            None => None,
        },
    }
}

/// The first problem with the inputs or the expression of a computed sensor,
/// from `i` on.
pub open spec fn computed_problem(c: Config, f: FaultTexts, i: int) -> Option<Seq<char>>
    decreases c.computed@.len() - i,
{
    if i >= c.computed@.len() {
        None
    } else if inputs_problem(c, i, 0) is Some {
        inputs_problem(c, i, 0)
    } else if formula_problem(c, f, i) is Some {
        formula_problem(c, f, i)
    } else {
        computed_problem(c, f, i + 1)
    }
}

/// Computed sensor `u` has computed sensor `v` among its inputs.
pub open spec fn reads(computed: Seq<ComputedConfig>, u: int, v: int) -> bool {
    &&& 0 <= u < computed.len()
    &&& 0 <= v < computed.len()
    &&& exists|k: int|
        0 <= k < computed[u].inputs@.len() && #[trigger] computed[u].inputs@[k].1@ == computed[v].sensor_id@
}

/// Each computed sensor of `p` has the next one among its inputs.
pub open spec fn reading_chain(computed: Seq<ComputedConfig>, p: Seq<int>) -> bool {
    forall|i: int| #![trigger p[i]] 0 <= i < p.len() - 1 ==> reads(computed, p[i], p[i + 1])
}

/// Computed sensor `v` reads itself, directly or through others.
pub open spec fn circular(computed: Seq<ComputedConfig>, v: int) -> bool {
    exists|p: Seq<int>| #[trigger]
        reading_chain(computed, p) && p.len() >= 2 && p[0] == v && p.last() == v
}

/// `g` lists, for every computed sensor, those among its inputs.
pub open spec fn reading_graph(computed: Seq<ComputedConfig>, g: Seq<Vec<usize>>) -> bool {
    &&& g.len() == computed.len()
    &&& crate::graph::closed_graph(g)
    &&& forall|u: int, v: int| #[trigger] crate::graph::depends(g, u, v) <==> reads(computed, u, v)
}

pub(crate) proof fn lemma_circular_on_cycle(computed: Seq<ComputedConfig>, g: Seq<Vec<usize>>, v: int)
    requires
        reading_graph(computed, g),
    ensures
        circular(computed, v) <==> crate::graph::on_cycle(g, v),
{
    if circular(computed, v) {
        let p = choose|p: Seq<int>| #[trigger]
            reading_chain(computed, p) && p.len() >= 2 && p[0] == v && p.last() == v;
        assert(crate::graph::walk(g, p)) by {
            assert forall|i: int| #![trigger p[i]] 0 <= i < p.len() - 1 implies crate::graph::depends(g, p[i], p[i + 1]) by {
                assert(reads(computed, p[i], p[i + 1]));
            }
        }
    }
    if crate::graph::on_cycle(g, v) {
        let p = choose|p: Seq<int>| #[trigger]
            crate::graph::walk(g, p) && p.len() >= 2 && p[0] == v && p.last() == v;
        assert(reading_chain(computed, p)) by {
            assert forall|i: int| #![trigger p[i]] 0 <= i < p.len() - 1 implies reads(computed, p[i], p[i + 1]) by {
                assert(crate::graph::depends(g, p[i], p[i + 1]));
            }
        }
    }
}

/// The message about a computed sensor that reads itself.
pub open spec fn cycle_text(id: Seq<char>) -> Seq<char> {
    "computed dependency cycle at `"@ + id + "`"@
}

// ---- simulation ----

/// The first control, from `i` on, whose name an earlier one has.
pub open spec fn controls_problem(c: Config, i: int) -> Option<Seq<char>>
    decreases c.sim.controls@.len() - i,
{
    if i >= c.sim.controls@.len() {
        None
    } else if control_named(c.sim.controls@, i, c.sim.controls@[i].name@) {
        Some("duplicate sim control `"@ + c.sim.controls@[i].name@ + "`"@)
    } else {
        controls_problem(c, i + 1)
    }
}

/// What is wrong with simulated sensor `i`, its inputs aside.
pub open spec fn sim_sensor_problem(c: Config, f: FaultTexts, i: int) -> Option<Seq<char>> {
    let s = c.sim.sensors@[i];
    if fed(c.devices@, c.devices@.len() as int, s.sensor_id@) || computes(
        c.computed@,
        c.computed@.len() as int,
        s.sensor_id@,
    ) || simulated(c.sim.sensors@, i, s.sensor_id@) {
        Some("duplicate sensor_id `"@ + s.sensor_id@ + "` (sim must not collide with registers/computed)"@)
    } else if s.name@.len() == 0 {
        Some(sim_text(s.sensor_id@, "name is required"@))
    } else {
        match f.formulas[i] {
            Some(m) => Some(sim_text(s.sensor_id@, "invalid formula `"@ + s.formula@ + "`: "@ + m)),
            None => None,
        }
    }
}

/// The first input of simulated sensor `i`, from input `k` on, that maps to
/// neither a control nor a simulated sensor.
pub open spec fn targets_problem(c: Config, i: int, k: int) -> Option<Seq<char>>
    decreases c.sim.sensors@[i].inputs@.len() - k,
{
    let s = c.sim.sensors@[i];
    if k >= s.inputs@.len() {
        None
    } else if !control_named(c.sim.controls@, c.sim.controls@.len() as int, s.inputs@[k].1@) && !simulated(
        c.sim.sensors@,
        c.sim.sensors@.len() as int,
        s.inputs@[k].1@,
    ) {
        Some(
            sim_text(
                s.sensor_id@,
                "input `"@ + s.inputs@[k].0@ + "` references unknown target `"@ + s.inputs@[k].1@ + "`"@,
            ),
        )
    } else {
        targets_problem(c, i, k + 1)
    }
}

/// The first problem with a simulated sensor, from `i` on.
pub open spec fn sim_sensors_problem(c: Config, f: FaultTexts, i: int) -> Option<Seq<char>>
    decreases c.sim.sensors@.len() - i,
{
    if i >= c.sim.sensors@.len() {
        None
    } else if sim_sensor_problem(c, f, i) is Some {
        sim_sensor_problem(c, f, i)
    } else if targets_problem(c, i, 0) is Some {
        targets_problem(c, i, 0)
    } else {
        sim_sensors_problem(c, f, i + 1)
    }
}

// ---- the whole ----

/// One answer for each expression of the configuration.
pub open spec fn answers(c: Config, f: FaultTexts) -> bool {
    &&& f.stages.len() == c.pipelines@.len()
    &&& forall|i: int|
        0 <= i < c.pipelines@.len() ==> (#[trigger] f.stages[i]).len() == c.pipelines@[i].stages@.len()
    &&& f.parsing.len() == c.computed@.len()
    &&& f.binding.len() == c.computed@.len()
    &&& f.formulas.len() == c.sim.sensors@.len()
}

/// The first problem up to the inputs and expressions of computed sensors.
pub open spec fn early_problem(c: Config, f: FaultTexts) -> Option<Seq<char>> {
    if c.devices@.len() == 0 {
        Some("at least one [[devices]] entry is required"@)
    } else if c.devices@.len() > 64 {
        Some("too many devices ("@ + crate::text::decimal(c.devices@.len()) + "), max 64"@)
    } else if devices_problem(c, 0) is Some {
        devices_problem(c, 0)
    } else if pipelines_problem(c, f, 0) is Some {
        pipelines_problem(c, f, 0)
    } else if identities_problem(c, 0) is Some {
        identities_problem(c, 0)
    } else {
        computed_problem(c, f, 0)
    }
}

/// The first problem of the simulation.
pub open spec fn late_problem(c: Config, f: FaultTexts) -> Option<Seq<char>> {
    if controls_problem(c, 0) is Some {
        controls_problem(c, 0)
    } else {
        sim_sensors_problem(c, f, 0)
    }
}

/// Some computed sensor reads itself, and the message names one that does.
pub open spec fn names_a_cycle(c: Config, m: Seq<char>) -> bool {
    exists|v: int|
        0 <= v < c.computed@.len() && #[trigger] circular(c.computed@, v) && m == cycle_text(c.computed@[v].sensor_id@)
}

/// No computed sensor reads itself.
pub open spec fn cycle_free(computed: Seq<ComputedConfig>) -> bool {
    forall|v: int| 0 <= v < computed.len() ==> !#[trigger] circular(computed, v)
}

/// What validation finds: `None` for an acceptable configuration, else the
/// first problem. Where computed sensors form cycles, any sensor on one may be
/// the one that is named.
pub open spec fn finding(c: Config, f: FaultTexts, found: Option<Seq<char>>) -> bool {
    if early_problem(c, f) is Some {
        found == early_problem(c, f)
    } else if cycle_free(c.computed@) {
        found == late_problem(c, f)
    } else {
        found is Some && names_a_cycle(c, found->0)
    }
}

/// No expression of the configuration is blank.
pub open spec fn readable(c: Config) -> bool {
    &&& forall|i: int, k: int|
        #![trigger c.pipelines@[i].stages@[k]]
        0 <= i < c.pipelines@.len() && 0 <= k < c.pipelines@[i].stages@.len() ==> crate::pipeline::stage_readable(
            c.pipelines@[i].stages@[k],
        )
    &&& forall|i: int|
        0 <= i < c.computed@.len() ==> !crate::expression::blank(#[trigger] c.computed@[i].expression@)
    &&& forall|i: int|
        0 <= i < c.sim.sensors@.len() ==> !crate::expression::blank(#[trigger] c.sim.sensors@[i].formula@)
}

/// The answers agree with the parser on every expression that is not blank.
pub open spec fn agrees(c: Config, f: FaultTexts) -> bool {
    let g = faults_of(c);
    &&& answers(c, f)
    &&& forall|i: int, k: int|
        #![trigger f.stages[i][k]]
        0 <= i < c.pipelines@.len() && 0 <= k < c.pipelines@[i].stages@.len() && crate::pipeline::stage_readable(
            c.pipelines@[i].stages@[k],
        ) ==> f.stages[i][k] == g.stages[i][k]
    &&& forall|i: int|
        0 <= i < c.computed@.len() && !crate::expression::blank(c.computed@[i].expression@) ==> #[trigger] f.parsing[i]
            == g.parsing[i]
    &&& forall|i: int|
        0 <= i < c.computed@.len() && !crate::expression::blank(c.computed@[i].expression@) ==> #[trigger] f.binding[i]
            == g.binding[i]
    &&& forall|i: int|
        0 <= i < c.sim.sensors@.len() && !crate::expression::blank(c.sim.sensors@[i].formula@)
            ==> #[trigger] f.formulas[i] == g.formulas[i]
}

/// Validation finds the same by both answers.
pub open spec fn same_finding(c: Config, f: FaultTexts, g: FaultTexts) -> bool {
    &&& early_problem(c, f) == early_problem(c, g)
    &&& early_problem(c, f) is None && cycle_free(c.computed@) ==> late_problem(c, f) == late_problem(c, g)
}

/// Validation reaches no blank expression: what it finds does not hang on an
/// answer about one.
pub open spec fn decided(c: Config) -> bool {
    forall|f: FaultTexts, g: FaultTexts|
        #[trigger] agrees(c, f) && #[trigger] agrees(c, g) ==> same_finding(c, f, g)
}

/// The parser's answer about a text, or the mark for a blank one.
pub open spec fn text_answer(text: Seq<char>, mark: Option<Seq<char>>) -> Option<Seq<char>> {
    if crate::expression::blank(text) {
        mark
    } else {
        crate::expression::parse_fault(text)
    }
}

/// The parser's answer about a stage, or the mark for a blank expression.
pub open spec fn stage_answer(s: StageConfig, mark: Option<Seq<char>>) -> Option<Seq<char>> {
    if crate::pipeline::stage_readable(s) {
        crate::pipeline::stage_fault(s)
    } else {
        mark
    }
}

/// The answer about binding a computed sensor, or the mark for a blank
/// expression.
pub open spec fn binding_answer(s: ComputedConfig, mark: Option<Seq<char>>) -> Option<Seq<char>> {
    if crate::expression::blank(s.expression@) {
        mark
    } else {
        crate::expression::bind_fault(s.expression@, variables(s.inputs@))
    }
}

/// The answers about the stages of a pipeline.
pub open spec fn stages_answered(p: PipelineConfig, row: Seq<Option<Seq<char>>>, mark: Option<Seq<char>>) -> bool {
    &&& row.len() == p.stages@.len()
    &&& forall|k: int| 0 <= k < row.len() ==> #[trigger] row[k] == stage_answer(p.stages@[k], mark)
}

/// The answers are the parser's, with the mark for every blank expression.
pub open spec fn marked(c: Config, f: FaultTexts, mark: Option<Seq<char>>) -> bool {
    &&& forall|i: int| 0 <= i < c.pipelines@.len() ==> stages_answered(c.pipelines@[i], #[trigger] f.stages[i], mark)
    &&& forall|i: int|
        0 <= i < c.computed@.len() ==> #[trigger] f.parsing[i] == text_answer(c.computed@[i].expression@, mark)
    &&& forall|i: int| 0 <= i < c.computed@.len() ==> #[trigger] f.binding[i] == binding_answer(c.computed@[i], mark)
    &&& forall|i: int|
        0 <= i < c.sim.sensors@.len() ==> #[trigger] f.formulas[i] == text_answer(c.sim.sensors@[i].formula@, mark)
}

pub(crate) proof fn lemma_agreeing_when_readable(c: Config, f: FaultTexts)
    requires
        readable(c),
        agrees(c, f),
    ensures
        f == faults_of(c),
{
    let g = faults_of(c);
    assert forall|i: int| 0 <= i < f.stages.len() implies f.stages[i] =~= g.stages[i] by {
        assert forall|k: int| 0 <= k < f.stages[i].len() implies f.stages[i][k] == g.stages[i][k] by {
            assert(crate::pipeline::stage_readable(c.pipelines@[i].stages@[k]));
        }
    }
    assert(f.stages =~= g.stages);
    assert forall|i: int| 0 <= i < f.parsing.len() implies f.parsing[i] == g.parsing[i] && f.binding[i] == g.binding[i] by {
        assert(!crate::expression::blank(c.computed@[i].expression@));
    }
    assert forall|i: int| 0 <= i < f.formulas.len() implies f.formulas[i] == g.formulas[i] by {
        assert(!crate::expression::blank(c.sim.sensors@[i].formula@));
    }
    assert(f.parsing =~= g.parsing);
    assert(f.binding =~= g.binding);
    assert(f.formulas =~= g.formulas);
}

/// Validation of a configuration without blank expressions reaches none.
pub proof fn a_readable_configuration_is_decided(c: Config)
    requires
        readable(c),
    ensures
        decided(c),
{
    assert forall|f: FaultTexts, g: FaultTexts| #[trigger] agrees(c, f) && #[trigger] agrees(c, g) implies same_finding(
        c,
        f,
        g,
    ) by {
        lemma_agreeing_when_readable(c, f);
        lemma_agreeing_when_readable(c, g);
    }
}

/// The variables of a list of inputs.
pub open spec fn variables(inputs: Seq<(String, String)>) -> Seq<Seq<char>> {
    inputs.map_values(|p: (String, String)| p.0@)
}

/// What the parser has against the expressions of the configuration.
pub open spec fn faults_of(c: Config) -> FaultTexts {
    FaultTexts {
        stages: c.pipelines@.map_values(
            |p: PipelineConfig| p.stages@.map_values(|s: StageConfig| crate::pipeline::stage_fault(s)),
        ),
        parsing: c.computed@.map_values(|s: ComputedConfig| crate::expression::parse_fault(s.expression@)),
        binding: c.computed@.map_values(
            |s: ComputedConfig| crate::expression::bind_fault(s.expression@, variables(s.inputs@)),
        ),
        formulas: c.sim.sensors@.map_values(|s: SimSensor| crate::expression::parse_fault(s.formula@)),
    }
}

pub(crate) fn find_piped(pipelines: &Vec<PipelineConfig>, n: usize, id: &String) -> (r: bool)
    requires
        n <= pipelines@.len(),
    ensures
        r == piped(pipelines@, n as int, id@),
{
    let mut j: usize = 0;
    while j < n
        invariant
            j <= n <= pipelines@.len(),
            !piped(pipelines@, j as int, id@),
        decreases n - j,
    {
        if same_string(&pipelines[j].sensor_id, id) {
            assert(pipelines@[j as int].sensor_id@ == id@);
            return true;
        }
        j = j + 1;
    }
    false
}

pub(crate) fn find_simulated(sensors: &Vec<SimSensor>, n: usize, id: &String) -> (r: bool)
    requires
        n <= sensors@.len(),
    ensures
        r == simulated(sensors@, n as int, id@),
{
    let mut j: usize = 0;
    while j < n
        invariant
            j <= n <= sensors@.len(),
            !simulated(sensors@, j as int, id@),
        decreases n - j,
    {
        if same_string(&sensors[j].sensor_id, id) {
            assert(sensors@[j as int].sensor_id@ == id@);
            return true;
        }
        j = j + 1;
    }
    false
}

pub(crate) fn find_computes(computed: &Vec<ComputedConfig>, n: usize, id: &String) -> (r: bool)
    requires
        n <= computed@.len(),
    ensures
        r == computes(computed@, n as int, id@),
{
    let mut j: usize = 0;
    while j < n
        invariant
            j <= n <= computed@.len(),
            !computes(computed@, j as int, id@),
        decreases n - j,
    {
        if same_string(&computed[j].sensor_id, id) {
            assert(computed@[j as int].sensor_id@ == id@);
            return true;
        }
        j = j + 1;
    }
    false
}

pub(crate) fn find_control_named(controls: &Vec<SimControl>, n: usize, name: &String) -> (r: bool)
    requires
        n <= controls@.len(),
    ensures
        r == control_named(controls@, n as int, name@),
{
    let mut j: usize = 0;
    while j < n
        invariant
            j <= n <= controls@.len(),
            !control_named(controls@, j as int, name@),
        decreases n - j,
    {
        if same_string(&controls[j].name, name) {
            assert(controls@[j as int].name@ == name@);
            return true;
        }
        j = j + 1;
    }
    false
}

fn is_sampled(c: &Config, id: &String) -> (r: bool)
    ensures
        r == sampled(*c, id@),
{
    find_fed_before(&c.devices, c.devices.len(), id) || find_simulated(&c.sim.sensors, c.sim.sensors.len(), id)
}

fn check_stages(p: &PipelineConfig, faults: &Vec<Option<String>>) -> (r: Result<(), String>)
    requires
        faults@.len() == p.stages@.len(),
    ensures
        verdict(r) == stages_problem(*p, optional_texts(faults@), 0),
{
    let mut k: usize = 0;
    while k < p.stages.len()
        invariant
            k <= p.stages@.len(),
            faults@.len() == p.stages@.len(),
            stages_problem(*p, optional_texts(faults@), 0) == stages_problem(*p, optional_texts(faults@), k as int),
        decreases p.stages@.len() - k,
    {
        match crate::pipeline::validate_stage_given(&p.stages[k], &faults[k]) {
            Ok(()) => {},
            Err(m) => {
                return Err(pipeline_message(&p.sensor_id, m.as_str()));
            },
        }
        k = k + 1;
    }
    Ok(())
}

fn check_pipelines(c: &Config, f: &Faults) -> (r: Result<(), String>)
    requires
        answers(*c, f@),
    ensures
        verdict(r) == pipelines_problem(*c, f@, 0),
{
    let mut i: usize = 0;
    while i < c.pipelines.len()
        invariant
            i <= c.pipelines@.len(),
            answers(*c, f@),
            pipelines_problem(*c, f@, 0) == pipelines_problem(*c, f@, i as int),
        decreases c.pipelines@.len() - i,
    {
        let p = &c.pipelines[i];
        if !is_sampled(c, &p.sensor_id) {
            return Err(
                join3("pipeline sensor_id `", p.sensor_id.as_str(), "` does not match any device register"),
            );
        }
        if find_piped(&c.pipelines, i, &p.sensor_id) {
            return Err(
                join3(
                    "duplicate pipeline for sensor_id `",
                    p.sensor_id.as_str(),
                    "` (only one pipeline per sensor)",
                ),
            );
        }
        if p.stages.len() == 0 {
            return Err(pipeline_message(&p.sensor_id, "at least one stage is required"));
        }
        if p.stages.len() > 16 {
            let n = decimal_text(p.stages.len() as u128);
            let what = join3("too many stages (", n.as_str(), "), max 16");
            return Err(pipeline_message(&p.sensor_id, what.as_str()));
        }
        assert(f@.stages[i as int] == optional_texts(f.stages@[i as int]@));
        match check_stages(p, &f.stages[i]) {
            Ok(()) => {},
            Err(m) => {
                return Err(m);
            },
        }
        i = i + 1;
    }
    Ok(())
}

fn check_identities(c: &Config) -> (r: Result<(), String>)
    ensures
        verdict(r) == identities_problem(*c, 0),
{
    let mut i: usize = 0;
    while i < c.computed.len()
        invariant
            i <= c.computed@.len(),
            identities_problem(*c, 0) == identities_problem(*c, i as int),
        decreases c.computed@.len() - i,
    {
        let s = &c.computed[i];
        if find_fed_before(&c.devices, c.devices.len(), &s.sensor_id) || find_computes(&c.computed, i, &s.sensor_id) {
            return Err(
                join3(
                    "duplicate sensor_id `",
                    s.sensor_id.as_str(),
                    "` (computed must not collide with registers)",
                ),
            );
        }
        if s.name.as_str().is_empty() {
            return Err(computed_message(&s.sensor_id, "name is required"));
        }
        if s.inputs.len() == 0 {
            return Err(computed_message(&s.sensor_id, "at least one input is required"));
        }
        i = i + 1;
    }
    Ok(())
}

fn check_inputs(c: &Config, i: usize) -> (r: Result<(), String>)
    requires
        i < c.computed@.len(),
    ensures
        verdict(r) == inputs_problem(*c, i as int, 0),
{
    let s = &c.computed[i];
    let mut k: usize = 0;
    while k < s.inputs.len()
        invariant
            i < c.computed@.len(),
            *s == c.computed@[i as int],
            k <= s.inputs@.len(),
            inputs_problem(*c, i as int, 0) == inputs_problem(*c, i as int, k as int),
        decreases s.inputs@.len() - k,
    {
        let source = &s.inputs[k].1;
        if !is_sampled(c, source) && !find_computes(&c.computed, c.computed.len(), source) {
            let what = join5(
                "input `",
                s.inputs[k].0.as_str(),
                "` references unknown sensor_id `",
                source.as_str(),
                "`",
            );
            return Err(computed_message(&s.sensor_id, what.as_str()));
        }
        k = k + 1;
    }
    Ok(())
}

fn check_computed(c: &Config, f: &Faults) -> (r: Result<(), String>)
    requires
        answers(*c, f@),
    ensures
        verdict(r) == computed_problem(*c, f@, 0),
{
    let mut i: usize = 0;
    while i < c.computed.len()
        invariant
            i <= c.computed@.len(),
            answers(*c, f@),
            computed_problem(*c, f@, 0) == computed_problem(*c, f@, i as int),
        decreases c.computed@.len() - i,
    {
        match check_inputs(c, i) {
            Ok(()) => {},
            Err(m) => {
                return Err(m);
            },
        }
        let s = &c.computed[i];
        match &f.parsing[i] {
            Some(m) => {
                let mut what = join3("invalid expression `", s.expression.as_str(), "`: ");
                what.append(m.as_str());
                return Err(computed_message(&s.sensor_id, what.as_str()));
            },
            None => {},
        }
        match &f.binding[i] {
            Some(m) => {
                return Err(computed_message(&s.sensor_id, m.as_str()));
            },
            None => {},
        }
        i = i + 1;
    }
    Ok(())
}

fn has_input(s: &ComputedConfig, id: &String) -> (r: bool)
    ensures
        r == (exists|k: int| 0 <= k < s.inputs@.len() && #[trigger] s.inputs@[k].1@ == id@),
{
    let mut k: usize = 0;
    while k < s.inputs.len()
        invariant
            k <= s.inputs@.len(),
            forall|j: int| 0 <= j < k ==> #[trigger] s.inputs@[j].1@ != id@,
        decreases s.inputs@.len() - k,
    {
        if same_string(&s.inputs[k].1, id) {
            assert(s.inputs@[k as int].1@ == id@);
            return true;
        }
        k = k + 1;
    }
    false
}

/// For every computed sensor, the computed sensors among its inputs.
pub(crate) fn build_reading_graph(computed: &Vec<ComputedConfig>) -> (g: Vec<Vec<usize>>)
    ensures
        reading_graph(computed@, g@),
{
    let mut g: Vec<Vec<usize>> = Vec::new();
    let mut u: usize = 0;
    while u < computed.len()
        invariant
            u <= computed@.len(),
            g@.len() == u,
            forall|a: int, k: int|
                #![trigger g@[a]@[k]]
                0 <= a < u && 0 <= k < g@[a]@.len() ==> g@[a]@[k] < computed@.len() && reads(
                    computed@,
                    a,
                    g@[a]@[k] as int,
                ),
            forall|a: int, b: int|
                0 <= a < u && #[trigger] reads(computed@, a, b) ==> crate::graph::depends(g@, a, b),
        decreases computed@.len() - u,
    {
        let mut row: Vec<usize> = Vec::new();
        let mut v: usize = 0;
        while v < computed.len()
            invariant
                u < computed@.len(),
                v <= computed@.len(),
                forall|k: int|
                    #![trigger row@[k]]
                    0 <= k < row@.len() ==> row@[k] < v && reads(computed@, u as int, row@[k] as int),
                forall|b: int|
                    0 <= b < v && #[trigger] reads(computed@, u as int, b) ==> exists|k: int|
                        0 <= k < row@.len() && #[trigger] row@[k] == b,
            decreases computed@.len() - v,
        {
            let ghost row0 = row@;
            if has_input(&computed[u], &computed[v].sensor_id) {
                row.push(v);
                assert forall|b: int| 0 <= b < v + 1 && #[trigger] reads(computed@, u as int, b) implies exists|k: int|
                    0 <= k < row@.len() && #[trigger] row@[k] == b by {
                    if b < v {
                        let k = choose|k: int| 0 <= k < row0.len() && #[trigger] row0[k] == b;
                        assert(row@[k] == b);
                    } else {
                        assert(row@[row0.len() as int] == b);
                    }
                }
            }
            v = v + 1;
        }
        let ghost g0 = g@;
        let ghost r = row@;
        g.push(row);
        assert forall|a: int, b: int| 0 <= a < u + 1 && #[trigger] reads(computed@, a, b) implies crate::graph::depends(
            g@,
            a,
            b,
        ) by {
            if a < u {
                assert(crate::graph::depends(g0, a, b));
                let k = choose|k: int| 0 <= k < g0[a]@.len() && #[trigger] g0[a]@[k] == b;
                assert(g@[a]@[k] == b);
            } else {
                let k = choose|k: int| 0 <= k < r.len() && #[trigger] r[k] == b;
                assert(g@[a]@[k] == b);
            }
        }
        assert forall|a: int, k: int|
            #![trigger g@[a]@[k]]
            0 <= a < u + 1 && 0 <= k < g@[a]@.len() implies g@[a]@[k] < computed@.len() && reads(
            computed@,
            a,
            g@[a]@[k] as int,
        ) by {
            if a < u {
                assert(g0[a]@[k] == g@[a]@[k]);
            } else {
                assert(r[k] == g@[a]@[k]);
            }
        }
        u = u + 1;
    }
    g
}

fn check_cycles(c: &Config) -> (r: Result<(), String>)
    ensures
        r is Ok <==> cycle_free(c.computed@),
        r matches Err(m) ==> names_a_cycle(*c, m@),
{
    let g = build_reading_graph(&c.computed);
    proof {
        assert forall|v: int| circular(c.computed@, v) <==> #[trigger] crate::graph::on_cycle(g@, v) by {
            lemma_circular_on_cycle(c.computed@, g@, v);
        }
    }
    match crate::graph::topological_order(&g) {
        Ok(_) => {
            assert forall|v: int| 0 <= v < c.computed@.len() implies !#[trigger] circular(c.computed@, v) by {
                assert(!crate::graph::on_cycle(g@, v));
            }
            Ok(())
        },
        Err(v) => {
            assert(crate::graph::on_cycle(g@, v as int));
            assert(circular(c.computed@, v as int));
            Err(join3("computed dependency cycle at `", c.computed[v].sensor_id.as_str(), "`"))
        },
    }
}

fn check_controls(c: &Config) -> (r: Result<(), String>)
    ensures
        verdict(r) == controls_problem(*c, 0),
{
    let mut i: usize = 0;
    while i < c.sim.controls.len()
        invariant
            i <= c.sim.controls@.len(),
            controls_problem(*c, 0) == controls_problem(*c, i as int),
        decreases c.sim.controls@.len() - i,
    {
        if find_control_named(&c.sim.controls, i, &c.sim.controls[i].name) {
            return Err(join3("duplicate sim control `", c.sim.controls[i].name.as_str(), "`"));
        }
        i = i + 1;
    }
    Ok(())
}

fn check_targets(c: &Config, i: usize) -> (r: Result<(), String>)
    requires
        i < c.sim.sensors@.len(),
    ensures
        verdict(r) == targets_problem(*c, i as int, 0),
{
    let s = &c.sim.sensors[i];
    let mut k: usize = 0;
    while k < s.inputs.len()
        invariant
            i < c.sim.sensors@.len(),
            *s == c.sim.sensors@[i as int],
            k <= s.inputs@.len(),
            targets_problem(*c, i as int, 0) == targets_problem(*c, i as int, k as int),
        decreases s.inputs@.len() - k,
    {
        let target = &s.inputs[k].1;
        if !find_control_named(&c.sim.controls, c.sim.controls.len(), target) && !find_simulated(
            &c.sim.sensors,
            c.sim.sensors.len(),
            target,
        ) {
            let what = join5(
                "input `",
                s.inputs[k].0.as_str(),
                "` references unknown target `",
                target.as_str(),
                "`",
            );
            return Err(sim_message(&s.sensor_id, what.as_str()));
        }
        k = k + 1;
    }
    Ok(())
}

fn check_sim_sensors(c: &Config, f: &Faults) -> (r: Result<(), String>)
    requires
        answers(*c, f@),
    ensures
        verdict(r) == sim_sensors_problem(*c, f@, 0),
{
    let mut i: usize = 0;
    while i < c.sim.sensors.len()
        invariant
            i <= c.sim.sensors@.len(),
            answers(*c, f@),
            sim_sensors_problem(*c, f@, 0) == sim_sensors_problem(*c, f@, i as int),
        decreases c.sim.sensors@.len() - i,
    {
        let s = &c.sim.sensors[i];
        if find_fed_before(&c.devices, c.devices.len(), &s.sensor_id) || find_computes(
            &c.computed,
            c.computed.len(),
            &s.sensor_id,
        ) || find_simulated(&c.sim.sensors, i, &s.sensor_id) {
            return Err(
                join3(
                    "duplicate sensor_id `",
                    s.sensor_id.as_str(),
                    "` (sim must not collide with registers/computed)",
                ),
            );
        }
        if s.name.as_str().is_empty() {
            return Err(sim_message(&s.sensor_id, "name is required"));
        }
        match &f.formulas[i] {
            Some(m) => {
                let mut what = join3("invalid formula `", s.formula.as_str(), "`: ");
                what.append(m.as_str());
                return Err(sim_message(&s.sensor_id, what.as_str()));
            },
            None => {},
        }
        match check_targets(c, i) {
            Ok(()) => {},
            Err(m) => {
                return Err(m);
            },
        }
        i = i + 1;
    }
    Ok(())
}

/// The variable names of a list of inputs.
pub(crate) fn variable_names(inputs: &Vec<(String, String)>) -> (r: Vec<String>)
    ensures
        crate::expression::texts(r@) == variables(inputs@),
{
    let mut r: Vec<String> = Vec::new();
    let mut k: usize = 0;
    while k < inputs.len()
        invariant
            k <= inputs@.len(),
            r@.len() == k,
            forall|j: int| 0 <= j < k ==> (#[trigger] r@[j])@ == inputs@[j].0@,
        decreases inputs@.len() - k,
    {
        r.push(inputs[k].0.clone());
        k = k + 1;
    }
    assert(crate::expression::texts(r@) =~= variables(inputs@));
    r
}

impl Config {
    /// The first problem up to the inputs and expressions of computed sensors.
    pub(crate) fn early_finding(&self, f: &Faults) -> (r: Option<String>)
        requires
            answers(*self, f@),
        ensures
            crate::expression::text_of(r) == early_problem(*self, f@),
    {
        if self.devices.len() == 0 {
            return Some("at least one [[devices]] entry is required".to_owned());
        }
        if self.devices.len() > 64 {
            let n = decimal_text(self.devices.len() as u128);
            return Some(join3("too many devices (", n.as_str(), "), max 64"));
        }
        match check_devices(self) {
            Ok(()) => {},
            Err(m) => {
                return Some(m);
            },
        }
        match check_pipelines(self, f) {
            Ok(()) => {},
            Err(m) => {
                return Some(m);
            },
        }
        match check_identities(self) {
            Ok(()) => {},
            Err(m) => {
                return Some(m);
            },
        }
        match check_computed(self, f) {
            Ok(()) => None,
            Err(m) => Some(m),
        }
    }

    /// The first problem of the simulation.
    pub(crate) fn late_finding(&self, f: &Faults) -> (r: Option<String>)
        requires
            answers(*self, f@),
        ensures
            crate::expression::text_of(r) == late_problem(*self, f@),
    {
        match check_controls(self) {
            Ok(()) => {},
            Err(m) => {
                return Some(m);
            },
        }
        match check_sim_sensors(self, f) {
            Ok(()) => None,
            Err(m) => Some(m),
        }
    }

    /// Whether no computed sensor reads itself.
    pub(crate) fn has_no_cycle(&self) -> (r: bool)
        ensures
            r == cycle_free(self.computed@),
    {
        match check_cycles(self) {
            Ok(()) => true,
            Err(_) => false,
        }
    }

    /// Checks the configuration, given what the parser has against its
    /// expressions.
    pub fn validate_given(&self, f: &Faults) -> (r: Result<(), String>)
        requires
            answers(*self, f@),
        ensures
            finding(*self, f@, verdict(r)),
    {
        match self.early_finding(f) {
            Some(m) => {
                return Err(m);
            },
            None => {},
        }
        match check_cycles(self) {
            Ok(()) => {},
            Err(m) => {
                return Err(m);
            },
        }
        match self.late_finding(f) {
            Some(m) => Err(m),
            None => Ok(()),
        }
    }

    /// What the parser has against the expressions of the configuration; the
    /// mark, in its place, for those that are blank.
    pub fn inspect_marked(&self, mark: &Option<String>) -> (f: Faults)
        ensures
            agrees(*self, f@),
            marked(*self, f@, crate::expression::text_of(*mark)),
    {
        let ghost m = crate::expression::text_of(*mark);
        let mut stages: Vec<Vec<Option<String>>> = Vec::new();
        let mut i: usize = 0;
        while i < self.pipelines.len()
            invariant
                i <= self.pipelines@.len(),
                m == crate::expression::text_of(*mark),
                stages@.len() == i,
                forall|a: int|
                    0 <= a < i ==> stages_answered(self.pipelines@[a], optional_texts((#[trigger] stages@[a])@), m),
            decreases self.pipelines@.len() - i,
        {
            let p = &self.pipelines[i];
            let mut row: Vec<Option<String>> = Vec::new();
            let mut k: usize = 0;
            while k < p.stages.len()
                invariant
                    k <= p.stages@.len(),
                    m == crate::expression::text_of(*mark),
                    row@.len() == k,
                    forall|a: int|
                        0 <= a < k ==> crate::expression::text_of(#[trigger] row@[a]) == stage_answer(p.stages@[a], m),
                decreases p.stages@.len() - k,
            {
                row.push(crate::pipeline::parse_stage_marked(&p.stages[k], mark));
                k = k + 1;
            }
            assert(stages_answered(*p, optional_texts(row@), m));
            stages.push(row);
            i = i + 1;
        }
        let mut parsing: Vec<Option<String>> = Vec::new();
        let mut binding: Vec<Option<String>> = Vec::new();
        let mut i: usize = 0;
        while i < self.computed.len()
            invariant
                i <= self.computed@.len(),
                m == crate::expression::text_of(*mark),
                parsing@.len() == i,
                binding@.len() == i,
                forall|a: int|
                    0 <= a < i ==> crate::expression::text_of(#[trigger] parsing@[a]) == text_answer(
                        self.computed@[a].expression@,
                        m,
                    ),
                forall|a: int|
                    0 <= a < i ==> crate::expression::text_of(#[trigger] binding@[a]) == binding_answer(
                        self.computed@[a],
                        m,
                    ),
            decreases self.computed@.len() - i,
        {
            let s = &self.computed[i];
            parsing.push(crate::expression::check_marked(s.expression.as_str(), mark));
            let names = variable_names(&s.inputs);
            binding.push(crate::expression::bind_marked(s.expression.as_str(), &names, mark));
            i = i + 1;
        }
        let mut formulas: Vec<Option<String>> = Vec::new();
        let mut i: usize = 0;
        while i < self.sim.sensors.len()
            invariant
                i <= self.sim.sensors@.len(),
                m == crate::expression::text_of(*mark),
                formulas@.len() == i,
                forall|a: int|
                    0 <= a < i ==> crate::expression::text_of(#[trigger] formulas@[a]) == text_answer(
                        self.sim.sensors@[a].formula@,
                        m,
                    ),
            decreases self.sim.sensors@.len() - i,
        {
            formulas.push(crate::expression::check_marked(self.sim.sensors[i].formula.as_str(), mark));
            i = i + 1;
        }
        let f = Faults { stages, parsing, binding, formulas };
        proof {
            assert forall|a: int| 0 <= a < self.pipelines@.len() implies stages_answered(
                self.pipelines@[a],
                #[trigger] f@.stages[a],
                m,
            ) by {
                assert(f@.stages[a] == optional_texts(f.stages@[a]@));
            }
            assert forall|a: int| 0 <= a < self.computed@.len() implies #[trigger] f@.parsing[a] == text_answer(
                self.computed@[a].expression@,
                m,
            ) by {
                assert(f@.parsing[a] == crate::expression::text_of(f.parsing@[a]));
            }
            assert forall|a: int| 0 <= a < self.computed@.len() implies #[trigger] f@.binding[a] == binding_answer(
                self.computed@[a],
                m,
            ) by {
                assert(f@.binding[a] == crate::expression::text_of(f.binding@[a]));
            }
            assert forall|a: int| 0 <= a < self.sim.sensors@.len() implies #[trigger] f@.formulas[a] == text_answer(
                self.sim.sensors@[a].formula@,
                m,
            ) by {
                assert(f@.formulas[a] == crate::expression::text_of(f.formulas@[a]));
            }
        }
        f
    }

    /// What the parser has against the expressions of the configuration; nothing
    /// for those that are blank.
    pub fn inspect(&self) -> (f: Faults)
        ensures
            agrees(*self, f@),
            readable(*self) ==> f@ == faults_of(*self),
    {
        let f = self.inspect_marked(&None);
        proof {
            if readable(*self) {
                lemma_agreeing_when_readable(*self, f@);
            }
        }
        f
    }

    /// Checks the configuration; the message tells the first problem. No blank
    /// expression may be reached before a problem is found.
    pub fn validate(&self) -> (r: Result<(), String>)
        requires
            decided(*self),
        ensures
            finding(*self, faults_of(*self), verdict(r)),
    {
        let f = self.inspect();
        proof {
            assert(agrees(*self, faults_of(*self)));
            assert(same_finding(*self, f@, faults_of(*self)));
        }
        self.validate_given(&f)
    }
}

} // verus!
