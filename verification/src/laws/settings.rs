//! What the settings mean, and what stands for one that is missing.

use vstd::prelude::*;

use crate::config::{
    default_function, default_health_port, default_log_level, default_log_max_files, default_modbus_port,
    default_modbus_unit_id, default_poll_interval_ms, default_port, default_reconnect_initial_ms,
    default_reconnect_max_ms, default_redfish_port, default_timeout_ms, default_true, default_unit_id, Config, LogLevel,
    RegisterConfig, RegisterFunction, ValueType,
};

verus! {

/// The four spaces are read by the functions one to four: coils, discrete inputs,
/// holding registers, input registers.
pub proof fn spaces_have_their_functions(f: RegisterFunction, r: u8)
    requires
        call_ensures(RegisterFunction::function_code, (&f,), r),
    ensures
        r == 1 <==> f == RegisterFunction::Coil,
        r == 2 <==> f == RegisterFunction::DiscreteInput,
        r == 3 <==> f == RegisterFunction::Holding,
        r == 4 <==> f == RegisterFunction::Input,
{
}

/// Holding registers and coils can be written, inputs of either kind cannot; coils
/// and discrete inputs hold bits, the others words.
pub proof fn spaces_are_written_or_not(f: RegisterFunction, writable: bool, bit: bool)
    requires
        call_ensures(RegisterFunction::is_writable, (&f,), writable),
        call_ensures(RegisterFunction::is_bit, (&f,), bit),
    ensures
        f == RegisterFunction::Holding ==> writable && !bit,
        f == RegisterFunction::Coil ==> writable && bit,
        f == RegisterFunction::Input ==> !writable && !bit,
        f == RegisterFunction::DiscreteInput ==> !writable && bit,
{
}

/// A number of 32 bits takes two registers, every other value one.
pub proof fn values_have_their_widths(t: ValueType, r: u16)
    requires
        call_ensures(ValueType::register_count, (&t,), r),
    ensures
        t == ValueType::U32 || t == ValueType::I32 || t == ValueType::F32 <==> r == 2,
        t == ValueType::U16 || t == ValueType::I16 || t == ValueType::Bool <==> r == 1,
{
}

/// A count that is given is the one that is read; without one it is the width of
/// the value.
pub proof fn a_given_count_is_read(reg: RegisterConfig, width: u16, r: u16)
    requires
        call_ensures(RegisterConfig::effective_count, (&reg,), r),
        call_ensures(ValueType::register_count, (&reg.value_type,), width),
    ensures
        reg.count matches Some(n) ==> r == n,
        reg.count is None ==> r == width,
{
}

/// The levels are named as the log names them.
pub proof fn levels_have_their_names(l: LogLevel, r: &'static str)
    requires
        call_ensures(LogLevel::as_tracing_level, (&l,), r),
    ensures
        l == LogLevel::Trace ==> r@ == "TRACE"@,
        l == LogLevel::Debug ==> r@ == "DEBUG"@,
        l == LogLevel::Info ==> r@ == "INFO"@,
        l == LogLevel::Warn ==> r@ == "WARN"@,
        l == LogLevel::Error ==> r@ == "ERROR"@,
{
}

/// The ports that stand for missing ones, none of which is another's.
pub proof fn missing_ports_are_given(redfish: u16, modbus: u16, health: u16, device: u16)
    requires
        call_ensures(default_redfish_port, (), redfish),
        call_ensures(default_modbus_port, (), modbus),
        call_ensures(default_health_port, (), health),
        call_ensures(default_port, (), device),
    ensures
        redfish == 8000,
        modbus == 1503,
        health == 8081,
        device == 502,
{
}

/// The other settings that stand for missing ones: unit one, holding registers, a
/// second between polls, for a reply and for the first attempt to reconnect, half a
/// minute at most between attempts, logs of information in seven files, and every
/// endpoint on.
pub proof fn missing_settings_are_given(
    unit: u8,
    served_unit: u8,
    function: RegisterFunction,
    poll: u64,
    timeout: u64,
    initial: u64,
    max: u64,
    level: LogLevel,
    files: u32,
    on: bool,
)
    requires
        call_ensures(default_unit_id, (), unit),
        call_ensures(default_modbus_unit_id, (), served_unit),
        call_ensures(default_function, (), function),
        call_ensures(default_poll_interval_ms, (), poll),
        call_ensures(default_timeout_ms, (), timeout),
        call_ensures(default_reconnect_initial_ms, (), initial),
        call_ensures(default_reconnect_max_ms, (), max),
        call_ensures(default_log_level, (), level),
        call_ensures(default_log_max_files, (), files),
        call_ensures(default_true, (), on),
    ensures
        unit == 1 && served_unit == 1,
        function == RegisterFunction::Holding,
        poll == 1000 && timeout == 1000 && initial == 1000 && max == 30000,
        level == LogLevel::Info && files == 7,
        on,
{
}

/// A copy of a configuration has every setting, device, register, pipeline and
/// sensor that the configuration has, each as it is there.
pub proof fn a_copy_says_the_same(a: Config, b: Config, i: int, j: int)
    requires
        crate::copying::same_config(a, b),
        0 <= i,
        0 <= j,
    ensures
        b.general == a.general,
        b.endpoints == a.endpoints,
        b.devices@.len() == a.devices@.len(),
        i < a.devices@.len() ==> b.devices@[i].name == a.devices@[i].name && b.devices@[i].transport
            == a.devices@[i].transport && b.devices@[i].unit_id == a.devices@[i].unit_id && b.devices@[i].host
            == a.devices@[i].host && b.devices@[i].port == a.devices@[i].port && b.devices@[i].poll_interval_ms
            == a.devices@[i].poll_interval_ms && b.devices@[i].timeout_ms == a.devices@[i].timeout_ms
            && b.devices@[i].reconnect_initial_ms == a.devices@[i].reconnect_initial_ms
            && b.devices@[i].reconnect_max_ms == a.devices@[i].reconnect_max_ms && b.devices@[i].serial_port
            == a.devices@[i].serial_port && b.devices@[i].baud_rate == a.devices@[i].baud_rate
            && b.devices@[i].registers@.len() == a.devices@[i].registers@.len(),
        i < a.devices@.len() && j < a.devices@[i].registers@.len() ==> b.devices@[i].registers@[j]
            == a.devices@[i].registers@[j],
        b.pipelines@.len() == a.pipelines@.len(),
        i < a.pipelines@.len() ==> b.pipelines@[i].sensor_id == a.pipelines@[i].sensor_id && b.pipelines@[i].stages@
            == a.pipelines@[i].stages@,
        b.computed@.len() == a.computed@.len(),
        i < a.computed@.len() ==> b.computed@[i].sensor_id == a.computed@[i].sensor_id && b.computed@[i].name
            == a.computed@[i].name && b.computed@[i].unit == a.computed@[i].unit && b.computed@[i].expression
            == a.computed@[i].expression && b.computed@[i].inputs@ == a.computed@[i].inputs@,
        b.sim.controls@ == a.sim.controls@,
        b.sim.sensors@.len() == a.sim.sensors@.len(),
        i < a.sim.sensors@.len() ==> b.sim.sensors@[i].sensor_id == a.sim.sensors@[i].sensor_id && b.sim.sensors@[i].name
            == a.sim.sensors@[i].name && b.sim.sensors@[i].formula == a.sim.sensors@[i].formula
            && b.sim.sensors@[i].unit == a.sim.sensors@[i].unit && b.sim.sensors@[i].inputs@
            == a.sim.sensors@[i].inputs@,
{
    if i < a.devices@.len() {
        assert(crate::copying::same_device(a.devices@[i], b.devices@[i]));
    }
    if i < a.pipelines@.len() {
        assert(crate::copying::same_pipeline(a.pipelines@[i], b.pipelines@[i]));
    }
    if i < a.computed@.len() {
        assert(crate::computed::same_computed(a.computed@[i], b.computed@[i]));
    }
    if i < a.sim.sensors@.len() {
        assert(crate::copying::same_sim_sensor(a.sim.sensors@[i], b.sim.sensors@[i]));
    }
}

} // verus!
