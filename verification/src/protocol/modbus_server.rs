//! The gateway as a Modbus server: the layout of its four address spaces, the
//! encoding of values, and the answers to requests.
//!
//! Every space counts from 0 and lists the registers in the order of the
//! configuration; a value of several words takes as many addresses.

use vstd::prelude::*;

use crate::config::{
    Access, ComputedConfig, Config, DeviceConfig, RegisterConfig, RegisterFunction, SimControl, SimSensor, Transport,
    ValueType, WordOrder,
};
use crate::domain::SensorId;
use crate::number::Real;
use crate::protocol::WriteValue;
use crate::store::MetricStore;

verus! {

/// A word of the holding or input space: which sensor it belongs to, and which
/// word of the sensor's value it holds.
#[derive(Debug)]
pub struct SlotWord {
    pub sensor_id: String,
    pub device: String,
    pub value_type: ValueType,
    pub word_order: WordOrder,
    pub word_index: usize,
    pub access: Access,
}

/// A bit of the coil or discrete input space.
#[derive(Debug)]
pub struct SlotBit {
    pub sensor_id: String,
    pub device: String,
    pub access: Access,
}

/// The four address spaces; an index is an address.
#[derive(Debug)]
pub struct ModbusTable {
    pub coils: Vec<Option<SlotBit>>,
    pub discrete_inputs: Vec<Option<SlotBit>>,
    pub holding: Vec<Option<SlotWord>>,
    pub inputs: Vec<Option<SlotWord>>,
}

/// What a word slot says.
pub struct WordView {
    pub sensor: Seq<char>,
    pub device: Seq<char>,
    pub value_type: ValueType,
    pub word_order: WordOrder,
    pub index: nat,
    pub access: Access,
}

/// What a bit slot says.
pub struct BitView {
    pub sensor: Seq<char>,
    pub device: Seq<char>,
    pub access: Access,
}

pub open spec fn word_view(o: Option<SlotWord>) -> Option<WordView> {
    match o {
        Some(s) => Some(
            WordView {
                sensor: s.sensor_id@,
                device: s.device@,
                value_type: s.value_type,
                word_order: s.word_order,
                index: s.word_index as nat,
                access: s.access,
            },
        ),
        None => None,
    }
}

pub open spec fn bit_view(o: Option<SlotBit>) -> Option<BitView> {
    match o {
        Some(s) => Some(BitView { sensor: s.sensor_id@, device: s.device@, access: s.access }),
        None => None,
    }
}

pub open spec fn word_views(v: Seq<Option<SlotWord>>) -> Seq<Option<WordView>> {
    v.map_values(|o: Option<SlotWord>| word_view(o))
}

pub open spec fn bit_views(v: Seq<Option<SlotBit>>) -> Seq<Option<BitView>> {
    v.map_values(|o: Option<SlotBit>| bit_view(o))
}

/// The consecutive words of one value.
pub open spec fn value_words(
    sensor: Seq<char>,
    device: Seq<char>,
    value_type: ValueType,
    word_order: WordOrder,
    access: Access,
) -> Seq<Option<WordView>> {
    Seq::new(
        value_type.width() as nat,
        |k: int| Some(WordView { sensor, device, value_type, word_order, index: k as nat, access }),
    )
}

/// The words of the first `n` registers of a device that lie in a space.
pub open spec fn device_words(d: DeviceConfig, space: RegisterFunction, n: int) -> Seq<Option<WordView>>
    decreases n,
{
    if n <= 0 {
        Seq::empty()
    } else {
        let r = d.registers@[n - 1];
        device_words(d, space, n - 1) + if r.function == space {
            value_words(r.sensor_id@, d.name@, r.value_type, r.word_order, r.access)
        } else {
            Seq::empty()
        }
    }
}

/// The words of the registers of the first `n` devices that lie in a space.
pub open spec fn register_words(ds: Seq<DeviceConfig>, space: RegisterFunction, n: int) -> Seq<Option<WordView>>
    decreases n,
{
    if n <= 0 {
        Seq::empty()
    } else {
        register_words(ds, space, n - 1) + device_words(ds[n - 1], space, ds[n - 1].registers@.len() as int)
    }
}

/// The bits of the first `n` registers of a device that lie in a space.
pub open spec fn device_bits(d: DeviceConfig, space: RegisterFunction, n: int) -> Seq<Option<BitView>>
    decreases n,
{
    if n <= 0 {
        Seq::empty()
    } else {
        let r = d.registers@[n - 1];
        if r.function == space {
            device_bits(d, space, n - 1).push(
                Some(BitView { sensor: r.sensor_id@, device: d.name@, access: r.access }),
            )
        } else {
            device_bits(d, space, n - 1)
        }
    }
}

/// The bits of the registers of the first `n` devices that lie in a space.
pub open spec fn register_bits(ds: Seq<DeviceConfig>, space: RegisterFunction, n: int) -> Seq<Option<BitView>>
    decreases n,
{
    if n <= 0 {
        Seq::empty()
    } else {
        register_bits(ds, space, n - 1) + device_bits(ds[n - 1], space, ds[n - 1].registers@.len() as int)
    }
}

/// The words of the first `n` computed sensors: read-only, single precision.
pub open spec fn computed_words(cs: Seq<ComputedConfig>, n: int) -> Seq<Option<WordView>>
    decreases n,
{
    if n <= 0 {
        Seq::empty()
    } else {
        computed_words(cs, n - 1) + value_words(
            cs[n - 1].sensor_id@,
            ""@,
            ValueType::F32,
            WordOrder::Big,
            Access::Read,
        )
    }
}

/// The words of the first `n` simulated sensors: read-only, single precision.
pub open spec fn sim_words(ss: Seq<SimSensor>, device: Seq<char>, n: int) -> Seq<Option<WordView>>
    decreases n,
{
    if n <= 0 {
        Seq::empty()
    } else {
        sim_words(ss, device, n - 1) + value_words(
            ss[n - 1].sensor_id@,
            device,
            ValueType::F32,
            WordOrder::Big,
            Access::Read,
        )
    }
}

/// The words of those among the first `n` controls that can be written.
pub open spec fn control_words(ks: Seq<SimControl>, device: Seq<char>, n: int) -> Seq<Option<WordView>>
    decreases n,
{
    if n <= 0 {
        Seq::empty()
    } else {
        control_words(ks, device, n - 1) + if ks[n - 1].writable {
            value_words(ks[n - 1].name@, device, ValueType::U16, WordOrder::Big, Access::ReadWrite)
        } else {
            Seq::empty()
        }
    }
}

/// The name of the simulated device, the first one from device `i` on; empty
/// where there is none.
pub open spec fn sim_device(ds: Seq<DeviceConfig>, i: int) -> Seq<char>
    decreases ds.len() - i,
{
    if i >= ds.len() {
        ""@
    } else if ds[i].transport == Transport::Sim {
        ds[i].name@
    } else {
        sim_device(ds, i + 1)
    }
}

/// The coils.
pub open spec fn coil_area(c: Config) -> Seq<Option<BitView>> {
    register_bits(c.devices@, RegisterFunction::Coil, c.devices@.len() as int)
}

/// The discrete inputs.
pub open spec fn discrete_area(c: Config) -> Seq<Option<BitView>> {
    register_bits(c.devices@, RegisterFunction::DiscreteInput, c.devices@.len() as int)
}

/// The holding space: registers, then the controls that can be written.
pub open spec fn holding_area(c: Config) -> Seq<Option<WordView>> {
    register_words(c.devices@, RegisterFunction::Holding, c.devices@.len() as int) + control_words(
        c.sim.controls@,
        sim_device(c.devices@, 0),
        c.sim.controls@.len() as int,
    )
}

/// The input space: registers, then computed sensors, then simulated ones.
pub open spec fn input_area(c: Config) -> Seq<Option<WordView>> {
    register_words(c.devices@, RegisterFunction::Input, c.devices@.len() as int) + computed_words(
        c.computed@,
        c.computed@.len() as int,
    ) + sim_words(c.sim.sensors@, sim_device(c.devices@, 0), c.sim.sensors@.len() as int)
}

/// Appends the words of one value to an area.
pub fn append_words(
    area: &mut Vec<Option<SlotWord>>,
    sensor_id: &str,
    device: &str,
    value_type: ValueType,
    word_order: WordOrder,
    access: Access,
)
    ensures
        word_views(final(area)@) == word_views(old(area)@) + value_words(
            sensor_id@,
            device@,
            value_type,
            word_order,
            access,
        ),
{
    let count: usize = value_type.register_count() as usize;
    let ghost before = area@;
    let mut word_index: usize = 0;
    while word_index < count
        invariant
            word_index <= count,
            count == value_type.width(),
            word_views(area@) == word_views(before) + value_words(
                sensor_id@,
                device@,
                value_type,
                word_order,
                access,
            ).take(word_index as int),
        decreases count - word_index,
    {
        let ghost whole = value_words(sensor_id@, device@, value_type, word_order, access);
        let ghost start = area@;
        let slot = SlotWord {
            sensor_id: sensor_id.to_owned(),
            device: device.to_owned(),
            value_type,
            word_order,
            word_index,
            access,
        };
        area.push(Some(slot));
        proof {
            assert(whole.take(word_index + 1) =~= whole.take(word_index as int).push(whole[word_index as int]));
            assert(word_views(area@) =~= word_views(start).push(whole[word_index as int]));
        }
        word_index = word_index + 1;
    }
    proof {
        let whole = value_words(sensor_id@, device@, value_type, word_order, access);
        assert(whole.take(count as int) =~= whole);
    }
}

fn append_bit(area: &mut Vec<Option<SlotBit>>, reg: &RegisterConfig, device: &str)
    ensures
        bit_views(final(area)@) == bit_views(old(area)@).push(
            Some(BitView { sensor: reg.sensor_id@, device: device@, access: reg.access }),
        ),
{
    let ghost before = area@;
    area.push(
        Some(SlotBit { sensor_id: reg.sensor_id.clone(), device: device.to_owned(), access: reg.access }),
    );
    assert(bit_views(area@) =~= bit_views(before).push(
        Some(BitView { sensor: reg.sensor_id@, device: device@, access: reg.access }),
    ));
}

impl ModbusTable {
    /// Four empty spaces.
    pub fn new() -> (r: Self)
        ensures
            r.coils@.len() == 0,
            r.discrete_inputs@.len() == 0,
            r.holding@.len() == 0,
            r.inputs@.len() == 0,
    {
        ModbusTable { coils: Vec::new(), discrete_inputs: Vec::new(), holding: Vec::new(), inputs: Vec::new() }
    }
}

impl Default for ModbusTable {
    fn default() -> (r: Self)
        ensures
            r.coils@.len() == 0,
            r.discrete_inputs@.len() == 0,
            r.holding@.len() == 0,
            r.inputs@.len() == 0,
    {
        ModbusTable::new()
    }
}

/// The table holds the registers of the first `i` devices and the first `j`
/// registers of the next one.
spec fn table_so_far(t: ModbusTable, ds: Seq<DeviceConfig>, i: int, j: int) -> bool {
    &&& bit_views(t.coils@) == register_bits(ds, RegisterFunction::Coil, i) + device_bits(
        ds[i],
        RegisterFunction::Coil,
        j,
    )
    &&& bit_views(t.discrete_inputs@) == register_bits(ds, RegisterFunction::DiscreteInput, i) + device_bits(
        ds[i],
        RegisterFunction::DiscreteInput,
        j,
    )
    &&& word_views(t.holding@) == register_words(ds, RegisterFunction::Holding, i) + device_words(
        ds[i],
        RegisterFunction::Holding,
        j,
    )
    &&& word_views(t.inputs@) == register_words(ds, RegisterFunction::Input, i) + device_words(
        ds[i],
        RegisterFunction::Input,
        j,
    )
}

fn append_register(table: &mut ModbusTable, d: &DeviceConfig, j: usize, Ghost(ds): Ghost<Seq<DeviceConfig>>, Ghost(i): Ghost<int>)
    requires
        0 <= i < ds.len(),
        *d == ds[i],
        j < d.registers@.len(),
        table_so_far(*old(table), ds, i, j as int),
    ensures
        table_so_far(*final(table), ds, i, j + 1),
{
    let reg = &d.registers[j];
    let ghost before = *table;
    proof {
        assert(device_words(*d, RegisterFunction::Holding, j as int) + Seq::<Option<WordView>>::empty()
            =~= device_words(*d, RegisterFunction::Holding, j as int));
        assert(device_words(*d, RegisterFunction::Input, j as int) + Seq::<Option<WordView>>::empty() =~= device_words(
            *d,
            RegisterFunction::Input,
            j as int,
        ));
    }
    match reg.function {
        RegisterFunction::Coil => {
            append_bit(&mut table.coils, reg, d.name.as_str());
            assert(bit_views(table.coils@) =~= register_bits(ds, RegisterFunction::Coil, i) + device_bits(
                *d,
                RegisterFunction::Coil,
                j + 1,
            ));
        },
        RegisterFunction::DiscreteInput => {
            append_bit(&mut table.discrete_inputs, reg, d.name.as_str());
            assert(bit_views(table.discrete_inputs@) =~= register_bits(ds, RegisterFunction::DiscreteInput, i)
                + device_bits(*d, RegisterFunction::DiscreteInput, j + 1));
        },
        RegisterFunction::Holding => {
            append_words(
                &mut table.holding,
                reg.sensor_id.as_str(),
                d.name.as_str(),
                reg.value_type,
                reg.word_order,
                reg.access,
            );
            assert(word_views(table.holding@) =~= register_words(ds, RegisterFunction::Holding, i) + device_words(
                *d,
                RegisterFunction::Holding,
                j + 1,
            ));
        },
        RegisterFunction::Input => {
            append_words(
                &mut table.inputs,
                reg.sensor_id.as_str(),
                d.name.as_str(),
                reg.value_type,
                reg.word_order,
                reg.access,
            );
            assert(word_views(table.inputs@) =~= register_words(ds, RegisterFunction::Input, i) + device_words(
                *d,
                RegisterFunction::Input,
                j + 1,
            ));
        },
    }
}

/// The name of the simulated device; empty where there is none.
pub(crate) fn find_sim_device(config: &Config) -> (r: String)
    ensures
        r@ == sim_device(config.devices@, 0),
{
    let mut i: usize = 0;
    while i < config.devices.len()
        invariant
            i <= config.devices@.len(),
            sim_device(config.devices@, 0) == sim_device(config.devices@, i as int),
        decreases config.devices@.len() - i,
    {
        if config.devices[i].transport == Transport::Sim {
            return config.devices[i].name.clone();
        }
        i = i + 1;
    }
    "".to_owned()
}

fn lay_out_registers(config: &Config) -> (table: ModbusTable)
    ensures
        bit_views(table.coils@) == coil_area(*config),
        bit_views(table.discrete_inputs@) == discrete_area(*config),
        word_views(table.holding@) == register_words(
            config.devices@,
            RegisterFunction::Holding,
            config.devices@.len() as int,
        ),
        word_views(table.inputs@) == register_words(
            config.devices@,
            RegisterFunction::Input,
            config.devices@.len() as int,
        ),
{
    let mut table = ModbusTable::new();
    let ghost ds = config.devices@;
    let mut i: usize = 0;
    proof {
        assert(bit_views(table.coils@) =~= Seq::<Option<BitView>>::empty());
        assert(bit_views(table.discrete_inputs@) =~= Seq::<Option<BitView>>::empty());
        assert(word_views(table.holding@) =~= Seq::<Option<WordView>>::empty());
        assert(word_views(table.inputs@) =~= Seq::<Option<WordView>>::empty());
    }
    while i < config.devices.len()
        invariant
            i <= config.devices@.len(),
            ds == config.devices@,
            bit_views(table.coils@) == register_bits(ds, RegisterFunction::Coil, i as int),
            bit_views(table.discrete_inputs@) == register_bits(ds, RegisterFunction::DiscreteInput, i as int),
            word_views(table.holding@) == register_words(ds, RegisterFunction::Holding, i as int),
            word_views(table.inputs@) == register_words(ds, RegisterFunction::Input, i as int),
        decreases config.devices@.len() - i,
    {
        let d = &config.devices[i];
        let mut j: usize = 0;
        proof {
            assert(bit_views(table.coils@) + Seq::<Option<BitView>>::empty() =~= bit_views(table.coils@));
            assert(bit_views(table.discrete_inputs@) + Seq::<Option<BitView>>::empty() =~= bit_views(
                table.discrete_inputs@,
            ));
            assert(word_views(table.holding@) + Seq::<Option<WordView>>::empty() =~= word_views(table.holding@));
            assert(word_views(table.inputs@) + Seq::<Option<WordView>>::empty() =~= word_views(table.inputs@));
        }
        while j < d.registers.len()
            invariant
                i < config.devices@.len(),
                ds == config.devices@,
                *d == ds[i as int],
                j <= d.registers@.len(),
                table_so_far(table, ds, i as int, j as int),
            decreases d.registers@.len() - j,
        {
            append_register(&mut table, d, j, Ghost(ds), Ghost(i as int));
            j = j + 1;
        }
        i = i + 1;
    }
    table
}

/// Lays out the address spaces of a configuration.
pub fn build_table(config: &Config) -> (table: ModbusTable)
    ensures
        bit_views(table.coils@) == coil_area(*config),
        bit_views(table.discrete_inputs@) == discrete_area(*config),
        word_views(table.holding@) == holding_area(*config),
        word_views(table.inputs@) == input_area(*config),
{
    let mut table = lay_out_registers(config);
    let ghost inputs0 = word_views(table.inputs@);
    let mut i: usize = 0;
    assert(inputs0 + Seq::<Option<WordView>>::empty() =~= inputs0);
    while i < config.computed.len()
        invariant
            i <= config.computed@.len(),
            word_views(table.inputs@) == inputs0 + computed_words(config.computed@, i as int),
            bit_views(table.coils@) == coil_area(*config),
            bit_views(table.discrete_inputs@) == discrete_area(*config),
            word_views(table.holding@) == register_words(
                config.devices@,
                RegisterFunction::Holding,
                config.devices@.len() as int,
            ),
        decreases config.computed@.len() - i,
    {
        let ghost before = word_views(table.inputs@);
        append_words(
            &mut table.inputs,
            config.computed[i].sensor_id.as_str(),
            "",
            ValueType::F32,
            WordOrder::Big,
            Access::Read,
        );
        assert(word_views(table.inputs@) =~= inputs0 + computed_words(config.computed@, i + 1));
        i = i + 1;
    }
    let device = find_sim_device(config);
    let ghost inputs1 = word_views(table.inputs@);
    let mut i: usize = 0;
    assert(inputs1 + Seq::<Option<WordView>>::empty() =~= inputs1);
    while i < config.sim.sensors.len()
        invariant
            i <= config.sim.sensors@.len(),
            device@ == sim_device(config.devices@, 0),
            word_views(table.inputs@) == inputs1 + sim_words(config.sim.sensors@, device@, i as int),
            bit_views(table.coils@) == coil_area(*config),
            bit_views(table.discrete_inputs@) == discrete_area(*config),
            word_views(table.holding@) == register_words(
                config.devices@,
                RegisterFunction::Holding,
                config.devices@.len() as int,
            ),
        decreases config.sim.sensors@.len() - i,
    {
        append_words(
            &mut table.inputs,
            config.sim.sensors[i].sensor_id.as_str(),
            device.as_str(),
            ValueType::F32,
            WordOrder::Big,
            Access::Read,
        );
        assert(word_views(table.inputs@) =~= inputs1 + sim_words(config.sim.sensors@, device@, i + 1));
        i = i + 1;
    }
    let ghost holding0 = word_views(table.holding@);
    let mut i: usize = 0;
    assert(holding0 + Seq::<Option<WordView>>::empty() =~= holding0);
    while i < config.sim.controls.len()
        invariant
            i <= config.sim.controls@.len(),
            device@ == sim_device(config.devices@, 0),
            word_views(table.holding@) == holding0 + control_words(config.sim.controls@, device@, i as int),
            bit_views(table.coils@) == coil_area(*config),
            bit_views(table.discrete_inputs@) == discrete_area(*config),
            word_views(table.inputs@) == input_area(*config),
        decreases config.sim.controls@.len() - i,
    {
        if config.sim.controls[i].writable {
            append_words(
                &mut table.holding,
                config.sim.controls[i].name.as_str(),
                device.as_str(),
                ValueType::U16,
                WordOrder::Big,
                Access::ReadWrite,
            );
        }
        assert(word_views(table.holding@) =~= holding0 + control_words(config.sim.controls@, device@, i + 1));
        i = i + 1;
    }
    table
}

// ---- values ----

/// The two words of a 32-bit word.
pub open spec fn halves(v: u32, order: WordOrder) -> Seq<u16> {
    match order {
        WordOrder::Big => seq![(v / 0x1_0000) as u16, (v % 0x1_0000) as u16],
        WordOrder::Little => seq![(v % 0x1_0000) as u16, (v / 0x1_0000) as u16],
    }
}

/// The words that hold a value: integers rounded, halves away from zero, and
/// held to the range of the type.
pub open spec fn encoded(value: Real, value_type: ValueType, order: WordOrder) -> Seq<u16> {
    match value_type {
        ValueType::U16 => seq![value.saturated(0, 0xffff) as u16],
        ValueType::I16 => seq![(value.saturated(-0x8000, 0x7fff) % 0x1_0000) as u16],
        ValueType::U32 => halves(value.saturated(0, 0xffff_ffff) as u32, order),
        ValueType::I32 => halves((value.saturated(-0x8000_0000, 0x7fff_ffff) % 0x1_0000_0000) as u32, order),
        ValueType::F32 => halves(value.narrowed(), order),
        ValueType::Bool => seq![
            if value.zero() {
                0u16
            } else {
                1u16
            },
        ],
    }
}

/// Splits a 32-bit word into two registers.
pub fn split32(v: u32, order: WordOrder) -> (r: Vec<u16>)
    ensures
        r@ == halves(v, order),
{
    let high: u16 = (v / 0x1_0000) as u16;
    let low: u16 = (v % 0x1_0000) as u16;
    let mut r: Vec<u16> = Vec::new();
    match order {
        WordOrder::Big => {
            r.push(high);
            r.push(low);
        },
        WordOrder::Little => {
            r.push(low);
            r.push(high);
        },
    }
    assert(r@ =~= halves(v, order));
    r
}

fn unsigned(n: i64, range: i64) -> (r: u32)
    requires
        range == 0x1_0000 || range == 0x1_0000_0000,
        -(range / 2) <= n < range,
    ensures
        r == n as int % range as int,
{
    if n < 0 {
        (n + range) as u32
    } else {
        n as u32
    }
}

/// Encodes a value into words, the inverse of decoding them.
pub fn encode_value(value: Real, value_type: ValueType, word_order: WordOrder) -> (r: Vec<u16>)
    ensures
        r@ == encoded(value, value_type, word_order),
{
    let mut r: Vec<u16> = Vec::new();
    match value_type {
        ValueType::U16 => {
            r.push(value.saturate(0, 0xffff) as u16);
        },
        ValueType::I16 => {
            r.push(unsigned(value.saturate(-0x8000, 0x7fff), 0x1_0000) as u16);
        },
        ValueType::U32 => {
            r = split32(value.saturate(0, 0xffff_ffff) as u32, word_order);
        },
        ValueType::I32 => {
            r = split32(unsigned(value.saturate(-0x8000_0000, 0x7fff_ffff), 0x1_0000_0000), word_order);
        },
        ValueType::F32 => {
            r = split32(value.to_single(), word_order);
        },
        ValueType::Bool => {
            r.push(
                if value.is_zero() {
                    0
                } else {
                    1
                },
            );
        },
    }
    assert(r@ =~= encoded(value, value_type, word_order));
    r
}

proof fn lemma_halves(words: Seq<u16>, order: WordOrder)
    requires
        words.len() == 2,
    ensures
        halves(crate::acquisition::decoder::combined(words, order), order) =~= words,
{
}

/// Encoding what words decode to gives the words back, for every type and word
/// order, except for the payload of a NaN and for a bool that is neither 0 nor
/// 1.
pub proof fn encoding_inverts_decoding(words: Seq<u16>, value_type: ValueType, order: WordOrder, r: Real)
    requires
        words.len() == value_type.width(),
        crate::acquisition::decoder::decodes(words, value_type, order, r),
        value_type == ValueType::F32 ==> crate::number::magnitude32(
            crate::acquisition::decoder::combined(words, order),
        ) <= crate::number::INFINITY32,
        value_type == ValueType::Bool ==> words[0] <= 1,
    ensures
        encoded(r, value_type, order) == words,
{
    let c = crate::acquisition::decoder::combined(words, order);
    match value_type {
        ValueType::U16 => {
            crate::number::integer_is_rounded_to_itself(r, words[0] as int);
        },
        ValueType::I16 => {
            crate::number::integer_is_rounded_to_itself(r, crate::acquisition::decoder::signed16(words[0]));
        },
        ValueType::U32 => {
            crate::number::integer_is_rounded_to_itself(r, c as int);
            lemma_halves(words, order);
        },
        ValueType::I32 => {
            crate::number::integer_is_rounded_to_itself(r, crate::acquisition::decoder::signed32(c));
            lemma_halves(words, order);
        },
        ValueType::F32 => {
            crate::number::single_is_narrowed_to_itself(c, r);
            lemma_halves(words, order);
        },
        ValueType::Bool => {
            crate::number::integer_is_zero(r, words[0] as int);
        },
    }
    assert(encoded(r, value_type, order) =~= words);
}

// ---- requests ----

/// A request to the server.
#[derive(Debug)]
pub enum ModbusRequest {
    ReadCoils(u16, u16),
    ReadDiscreteInputs(u16, u16),
    ReadHoldingRegisters(u16, u16),
    ReadInputRegisters(u16, u16),
    WriteSingleCoil(u16, bool),
    WriteSingleRegister(u16, u16),
    WriteMultipleRegisters(u16, Vec<u16>),
    /// Any other function.
    Other,
}

/// An answer of the server.
#[derive(Debug)]
pub enum ModbusResponse {
    ReadCoils(Vec<bool>),
    ReadDiscreteInputs(Vec<bool>),
    ReadHoldingRegisters(Vec<u16>),
    ReadInputRegisters(Vec<u16>),
    WriteSingleCoil(u16, bool),
    WriteSingleRegister(u16, u16),
    WriteMultipleRegisters(u16, u16),
}

/// A refusal of the server.
#[derive(Debug, Clone, Copy, PartialEq, Eq, Structural)]
pub enum ModbusException {
    IllegalFunction,
    IllegalDataAddress,
    IllegalDataValue,
    ServerDeviceFailure,
}

/// A write that has to reach a device before it is answered.
#[derive(Debug)]
pub struct PendingWrite {
    pub device: String,
    pub sensor_id: String,
    pub value: WriteValue,
}

/// What the server does about a request.
#[derive(Debug)]
pub enum ModbusOutcome {
    Answer(ModbusResponse),
    Refuse(ModbusException),
    /// Pass the write on, then answer by [`answer_write`].
    Forward(PendingWrite, ModbusResponse),
}

/// The current value of a sensor: its metric, else its raw sample.
pub open spec fn current_value(store: Map<Seq<char>, crate::store::SensorState>, id: Seq<char>) -> Option<Real> {
    if store.dom().contains(id) {
        match store[id].metric {
            Some(m) => Some(m.value),
            None => match store[id].raw {
                Some(r) => Some(r.raw_value),
                None => None,
            },
        }
    } else {
        None
    }
}

/// The current value of a sensor: its metric, else its raw sample.
pub fn value_of(store: &MetricStore, sensor_id: &String) -> (r: Option<Real>)
    requires
        store.wf(),
    ensures
        r == current_value(store@, sensor_id@),
{
    let id = SensorId(sensor_id.clone());
    match store.get(&id) {
        Some(state) => match &state.metric {
            Some(m) => Some(m.value),
            None => match &state.raw {
                Some(s) => Some(s.raw_value),
                None => None,
            },
        },
        None => None,
    }
}

/// The bit at an address: on where the sensor's value is not zero; off where
/// it has none, or where nothing is at the address.
pub open spec fn bit_at(
    store: Map<Seq<char>, crate::store::SensorState>,
    area: Seq<Option<BitView>>,
    address: int,
) -> bool {
    if 0 <= address < area.len() && area[address] is Some {
        match current_value(store, area[address]->0.sensor) {
            Some(v) => !v.zero(),
            None => false,
        }
    } else {
        false
    }
}

/// `w` is the word at an address: the slot's word of the sensor's encoded
/// value, where a sensor without a value counts as 65535.
pub open spec fn word_at(
    store: Map<Seq<char>, crate::store::SensorState>,
    area: Seq<Option<WordView>>,
    address: int,
    w: u16,
) -> bool {
    match area[address] {
        None => w == 0xffff,
        Some(slot) => exists|v: Real|
            {
                &&& match current_value(store, slot.sensor) {
                    Some(x) => v == x,
                    None => v.is_integer(0xffff),
                }
                &&& w == (if slot.index < encoded(v, slot.value_type, slot.word_order).len() {
                    (#[trigger] encoded(v, slot.value_type, slot.word_order))[slot.index as int]
                } else {
                    0xffff
                })
            },
    }
}

/// Reads bits.
pub fn read_bits(store: &MetricStore, area: &Vec<Option<SlotBit>>, addr: u16, cnt: u16) -> (r: Vec<bool>)
    requires
        store.wf(),
    ensures
        r@ == Seq::new(cnt as nat, |k: int| bit_at(store@, bit_views(area@), addr + k)),
{
    let start: usize = addr as usize;
    let n: usize = cnt as usize;
    let mut out: Vec<bool> = Vec::new();
    let mut k: usize = 0;
    while k < n
        invariant
            k <= n,
            n == cnt,
            start == addr,
            store.wf(),
            out@ == Seq::new(k as nat, |k: int| bit_at(store@, bit_views(area@), addr + k)),
        decreases n - k,
    {
        let ghost before = out@;
        let i: usize = start + k;
        let mut bit = false;
        if i < area.len() {
            assert(bit_views(area@)[i as int] == bit_view(area@[i as int]));
            match &area[i] {
                Some(slot) => {
                    bit = match value_of(store, &slot.sensor_id) {
                        Some(v) => !v.is_zero(),
                        None => false,
                    };
                },
                None => {},
            }
        }
        out.push(bit);
        assert(out@ =~= Seq::new((k + 1) as nat, |k: int| bit_at(store@, bit_views(area@), addr + k)));
        k = k + 1;
    }
    out
}

/// Reads words; an address past the area is illegal.
pub fn read_words(store: &MetricStore, area: &Vec<Option<SlotWord>>, addr: u16, cnt: u16) -> (r: Result<
    Vec<u16>,
    ModbusException,
>)
    requires
        store.wf(),
    ensures
        r is Ok <==> addr + cnt <= area@.len(),
        r matches Ok(words) ==> words@.len() == cnt && forall|k: int|
            0 <= k < cnt ==> word_at(store@, word_views(area@), addr + k, #[trigger] words@[k]),
        r matches Err(e) ==> e == ModbusException::IllegalDataAddress,
{
    let start: usize = addr as usize;
    let n: usize = cnt as usize;
    if start + n > area.len() {
        return Err(ModbusException::IllegalDataAddress);
    }
    let mut out: Vec<u16> = Vec::new();
    let mut k: usize = 0;
    while k < n
        invariant
            k <= n,
            n == cnt,
            start == addr,
            start + n <= area@.len(),
            store.wf(),
            out@.len() == k,
            forall|j: int| 0 <= j < k ==> word_at(store@, word_views(area@), addr + j, #[trigger] out@[j]),
        decreases n - k,
    {
        assert(word_views(area@)[addr + k] == word_view(area@[addr + k]));
        let word: u16 = match &area[start + k] {
            Some(slot) => {
                let v: Real = match value_of(store, &slot.sensor_id) {
                    Some(v) => v,
                    None => Real::from_integer(0xffff),
                };
                let words = encode_value(v, slot.value_type, slot.word_order);
                let w: u16 = if slot.word_index < words.len() {
                    words[slot.word_index]
                } else {
                    0xffff
                };
                assert(words@ == encoded(v, slot.value_type, slot.word_order));
                assert(word_at(store@, word_views(area@), addr + k, w));
                w
            },
            None => 0xffff,
        };
        out.push(word);
        k = k + 1;
    }
    Ok(out)
}

/// Why a bit cannot be written.
pub open spec fn bit_refusal(area: Seq<Option<BitView>>, address: int) -> Option<ModbusException> {
    if !(0 <= address < area.len() && area[address] is Some) {
        Some(ModbusException::IllegalDataAddress)
    } else if area[address]->0.access != Access::ReadWrite {
        Some(ModbusException::IllegalFunction)
    } else {
        None
    }
}

/// Why a word cannot be written: only values of one word can.
pub open spec fn word_refusal(area: Seq<Option<WordView>>, address: int) -> Option<ModbusException> {
    if !(0 <= address < area.len() && area[address] is Some) {
        Some(ModbusException::IllegalDataAddress)
    } else if area[address]->0.access != Access::ReadWrite || area[address]->0.value_type.width() != 1 {
        Some(ModbusException::IllegalFunction)
    } else {
        None
    }
}

/// Where a bit is written, if it can be.
pub fn write_bit(area: &Vec<Option<SlotBit>>, addr: u16, coil: bool) -> (r: Result<PendingWrite, ModbusException>)
    ensures
        r is Ok <==> bit_refusal(bit_views(area@), addr as int) is None,
        r matches Ok(w) ==> {
            let slot = bit_views(area@)[addr as int]->0;
            w.device@ == slot.device && w.sensor_id@ == slot.sensor && w.value == WriteValue::Coil(coil)
        },
        r matches Err(e) ==> Some(e) == bit_refusal(bit_views(area@), addr as int),
{
    let i: usize = addr as usize;
    if i >= area.len() {
        return Err(ModbusException::IllegalDataAddress);
    }
    assert(bit_views(area@)[i as int] == bit_view(area@[i as int]));
    match &area[i] {
        None => Err(ModbusException::IllegalDataAddress),
        Some(slot) => {
            if slot.access != Access::ReadWrite {
                return Err(ModbusException::IllegalFunction);
            }
            Ok(
                PendingWrite {
                    device: slot.device.clone(),
                    sensor_id: slot.sensor_id.clone(),
                    value: WriteValue::Coil(coil),
                },
            )
        },
    }
}

/// Where a word is written, if it can be.
pub fn write_word(area: &Vec<Option<SlotWord>>, addr: u16, word: u16) -> (r: Result<PendingWrite, ModbusException>)
    ensures
        r is Ok <==> word_refusal(word_views(area@), addr as int) is None,
        r matches Ok(w) ==> {
            let slot = word_views(area@)[addr as int]->0;
            w.device@ == slot.device && w.sensor_id@ == slot.sensor && w.value == WriteValue::Holding(word)
        },
        r matches Err(e) ==> Some(e) == word_refusal(word_views(area@), addr as int),
{
    let i: usize = addr as usize;
    if i >= area.len() {
        return Err(ModbusException::IllegalDataAddress);
    }
    assert(word_views(area@)[i as int] == word_view(area@[i as int]));
    match &area[i] {
        None => Err(ModbusException::IllegalDataAddress),
        Some(slot) => {
            if slot.access != Access::ReadWrite || slot.value_type.register_count() != 1 {
                return Err(ModbusException::IllegalFunction);
            }
            Ok(
                PendingWrite {
                    device: slot.device.clone(),
                    sensor_id: slot.sensor_id.clone(),
                    value: WriteValue::Holding(word),
                },
            )
        },
    }
}

/// The first word of a list, or 0.
pub open spec fn first_word(words: Seq<u16>) -> u16 {
    if words.len() > 0 {
        words[0]
    } else {
        0
    }
}

/// Where the first of several words is written, if it can be.
pub fn write_words(area: &Vec<Option<SlotWord>>, addr: u16, words: &Vec<u16>) -> (r: Result<
    PendingWrite,
    ModbusException,
>)
    ensures
        r is Ok <==> word_refusal(word_views(area@), addr as int) is None,
        r matches Ok(w) ==> {
            let slot = word_views(area@)[addr as int]->0;
            w.device@ == slot.device && w.sensor_id@ == slot.sensor && w.value == WriteValue::Holding(
                first_word(words@),
            )
        },
        r matches Err(e) ==> Some(e) == word_refusal(word_views(area@), addr as int),
{
    let word: u16 = if words.len() > 0 {
        words[0]
    } else {
        0
    };
    write_word(area, addr, word)
}

/// The outcome is a read of bits.
pub open spec fn answers_bits(
    store: Map<Seq<char>, crate::store::SensorState>,
    area: Seq<Option<BitView>>,
    addr: u16,
    cnt: u16,
    bits: Seq<bool>,
) -> bool {
    bits == Seq::new(cnt as nat, |k: int| bit_at(store, area, addr + k))
}

/// The words are a read of an area.
pub open spec fn answers_words(
    store: Map<Seq<char>, crate::store::SensorState>,
    area: Seq<Option<WordView>>,
    addr: u16,
    cnt: u16,
    words: Seq<u16>,
) -> bool {
    &&& addr + cnt <= area.len()
    &&& words.len() == cnt
    &&& forall|k: int| 0 <= k < cnt ==> word_at(store, area, addr + k, #[trigger] words[k])
}

/// A write is passed on to the device of the slot.
pub open spec fn forwards_word(area: Seq<Option<WordView>>, addr: u16, word: u16, w: PendingWrite) -> bool {
    &&& word_refusal(area, addr as int) is None
    &&& w.device@ == area[addr as int]->0.device
    &&& w.sensor_id@ == area[addr as int]->0.sensor
    &&& w.value == WriteValue::Holding(word)
}

/// What the server does about a request.
pub open spec fn handled(
    c: Config,
    store: Map<Seq<char>, crate::store::SensorState>,
    req: ModbusRequest,
    out: ModbusOutcome,
) -> bool {
    match req {
        ModbusRequest::ReadCoils(addr, cnt) => out matches ModbusOutcome::Answer(ModbusResponse::ReadCoils(bits))
            && answers_bits(store, coil_area(c), addr, cnt, bits@),
        ModbusRequest::ReadDiscreteInputs(addr, cnt) => out matches ModbusOutcome::Answer(
            ModbusResponse::ReadDiscreteInputs(bits),
        ) && answers_bits(store, discrete_area(c), addr, cnt, bits@),
        ModbusRequest::ReadHoldingRegisters(addr, cnt) => if addr + cnt <= holding_area(c).len() {
            out matches ModbusOutcome::Answer(ModbusResponse::ReadHoldingRegisters(words)) && answers_words(
                store,
                holding_area(c),
                addr,
                cnt,
                words@,
            )
        } else {
            out == ModbusOutcome::Refuse(ModbusException::IllegalDataAddress)
        },
        ModbusRequest::ReadInputRegisters(addr, cnt) => if addr + cnt <= input_area(c).len() {
            out matches ModbusOutcome::Answer(ModbusResponse::ReadInputRegisters(words)) && answers_words(
                store,
                input_area(c),
                addr,
                cnt,
                words@,
            )
        } else {
            out == ModbusOutcome::Refuse(ModbusException::IllegalDataAddress)
        },
        ModbusRequest::WriteSingleCoil(addr, coil) => match bit_refusal(coil_area(c), addr as int) {
            Some(e) => out == ModbusOutcome::Refuse(e),
            None => out matches ModbusOutcome::Forward(w, reply) && w.device@ == coil_area(c)[addr as int]->0.device
                && w.sensor_id@ == coil_area(c)[addr as int]->0.sensor && w.value == WriteValue::Coil(coil) && reply
                == ModbusResponse::WriteSingleCoil(addr, coil),
        },
        ModbusRequest::WriteSingleRegister(addr, word) => match word_refusal(holding_area(c), addr as int) {
            Some(e) => out == ModbusOutcome::Refuse(e),
            None => out matches ModbusOutcome::Forward(w, reply) && forwards_word(holding_area(c), addr, word, w)
                && reply == ModbusResponse::WriteSingleRegister(addr, word),
        },
        ModbusRequest::WriteMultipleRegisters(addr, words) => match word_refusal(holding_area(c), addr as int) {
            Some(e) => out == ModbusOutcome::Refuse(e),
            None => out matches ModbusOutcome::Forward(w, reply) && forwards_word(
                holding_area(c),
                addr,
                first_word(words@),
                w,
            ) && reply == ModbusResponse::WriteMultipleRegisters(addr, (words@.len() % 0x1_0000) as u16),
        },
        ModbusRequest::Other => out == ModbusOutcome::Refuse(ModbusException::IllegalFunction),
    }
}

/// Answers a request, by the configuration in force and the latest values.
pub fn handle(config: &Config, store: &MetricStore, req: &ModbusRequest) -> (out: ModbusOutcome)
    requires
        store.wf(),
    ensures
        handled(*config, store@, *req, out),
{
    let table = build_table(config);
    proof {
        assert(word_views(table.holding@).len() == table.holding@.len());
        assert(word_views(table.inputs@).len() == table.inputs@.len());
    }
    match req {
        ModbusRequest::ReadCoils(addr, cnt) => ModbusOutcome::Answer(
            ModbusResponse::ReadCoils(read_bits(store, &table.coils, *addr, *cnt)),
        ),
        ModbusRequest::ReadDiscreteInputs(addr, cnt) => ModbusOutcome::Answer(
            ModbusResponse::ReadDiscreteInputs(read_bits(store, &table.discrete_inputs, *addr, *cnt)),
        ),
        ModbusRequest::ReadHoldingRegisters(addr, cnt) => match read_words(store, &table.holding, *addr, *cnt) {
            Ok(words) => ModbusOutcome::Answer(ModbusResponse::ReadHoldingRegisters(words)),
            Err(e) => ModbusOutcome::Refuse(e),
        },
        ModbusRequest::ReadInputRegisters(addr, cnt) => match read_words(store, &table.inputs, *addr, *cnt) {
            Ok(words) => ModbusOutcome::Answer(ModbusResponse::ReadInputRegisters(words)),
            Err(e) => ModbusOutcome::Refuse(e),
        },
        ModbusRequest::WriteSingleCoil(addr, coil) => match write_bit(&table.coils, *addr, *coil) {
            Ok(w) => ModbusOutcome::Forward(w, ModbusResponse::WriteSingleCoil(*addr, *coil)),
            Err(e) => ModbusOutcome::Refuse(e),
        },
        ModbusRequest::WriteSingleRegister(addr, word) => match write_word(&table.holding, *addr, *word) {
            Ok(w) => ModbusOutcome::Forward(w, ModbusResponse::WriteSingleRegister(*addr, *word)),
            Err(e) => ModbusOutcome::Refuse(e),
        },
        ModbusRequest::WriteMultipleRegisters(addr, words) => match write_words(&table.holding, *addr, words) {
            Ok(w) => ModbusOutcome::Forward(
                w,
                ModbusResponse::WriteMultipleRegisters(*addr, (words.len() % 0x1_0000) as u16),
            ),
            Err(e) => ModbusOutcome::Refuse(e),
        },
        ModbusRequest::Other => ModbusOutcome::Refuse(ModbusException::IllegalFunction),
    }
}

/// The answer to a write that was passed on: the reply where it arrived, a
/// device failure where it did not.
pub fn answer_write(arrived: bool, reply: ModbusResponse) -> (r: Result<ModbusResponse, ModbusException>)
    ensures
        r == (if arrived {
            Ok::<ModbusResponse, ModbusException>(reply)
        } else {
            Err::<ModbusResponse, ModbusException>(ModbusException::ServerDeviceFailure)
        }),
{
    if arrived {
        Ok(reply)
    } else {
        Err(ModbusException::ServerDeviceFailure)
    }
}

// ---- stability of addresses ----

/// Configuration `b` has everything that `a` has, in the same order, and what
/// is new stands last in its list: in the list of devices, of the last
/// device's registers, of computed sensors, of simulated sensors, of controls.
pub open spec fn extends(a: Config, b: Config) -> bool {
    let n = a.devices@.len() as int;
    &&& n <= b.devices@.len()
    &&& forall|i: int| 0 <= i < n - 1 ==> #[trigger] b.devices@[i] == a.devices@[i]
    &&& n > 0 ==> b.devices@[n - 1].name@ == a.devices@[n - 1].name@ && a.devices@[n - 1].registers@.is_prefix_of(
        b.devices@[n - 1].registers@,
    )
    &&& a.computed@.is_prefix_of(b.computed@)
    &&& a.sim.sensors@.is_prefix_of(b.sim.sensors@)
    &&& a.sim.controls@.is_prefix_of(b.sim.controls@)
    &&& sim_device(a.devices@, 0) == sim_device(b.devices@, 0)
}

proof fn lemma_same_words(a: DeviceConfig, b: DeviceConfig, space: RegisterFunction, n: int)
    requires
        0 <= n <= a.registers@.len(),
        a.name@ == b.name@,
        a.registers@.is_prefix_of(b.registers@),
    ensures
        device_words(a, space, n) == device_words(b, space, n),
        device_bits(a, space, n) == device_bits(b, space, n),
    decreases n,
{
    if n > 0 {
        lemma_same_words(a, b, space, n - 1);
        assert(a.registers@[n - 1] == b.registers@[n - 1]);
    }
}

proof fn lemma_device_grows(d: DeviceConfig, space: RegisterFunction, n: int, m: int)
    requires
        0 <= n <= m,
    ensures
        device_words(d, space, n).is_prefix_of(device_words(d, space, m)),
        device_bits(d, space, n).is_prefix_of(device_bits(d, space, m)),
    decreases m - n,
{
    if n < m {
        lemma_device_grows(d, space, n, m - 1);
    }
}

proof fn lemma_same_devices(a: Seq<DeviceConfig>, b: Seq<DeviceConfig>, space: RegisterFunction, n: int)
    requires
        0 <= n <= a.len(),
        n <= b.len(),
        forall|i: int| 0 <= i < n ==> #[trigger] b[i] == a[i],
    ensures
        register_words(a, space, n) == register_words(b, space, n),
        register_bits(a, space, n) == register_bits(b, space, n),
    decreases n,
{
    if n > 0 {
        lemma_same_devices(a, b, space, n - 1);
        assert(b[n - 1] == a[n - 1]);
    }
}

proof fn lemma_devices_grow(ds: Seq<DeviceConfig>, space: RegisterFunction, n: int, m: int)
    requires
        0 <= n <= m,
    ensures
        register_words(ds, space, n).is_prefix_of(register_words(ds, space, m)),
        register_bits(ds, space, n).is_prefix_of(register_bits(ds, space, m)),
    decreases m - n,
{
    if n < m {
        lemma_devices_grow(ds, space, n, m - 1);
    }
}

proof fn lemma_registers_grow(a: Config, b: Config, space: RegisterFunction)
    requires
        extends(a, b),
    ensures
        register_words(a.devices@, space, a.devices@.len() as int).is_prefix_of(
            register_words(b.devices@, space, b.devices@.len() as int),
        ),
        register_bits(a.devices@, space, a.devices@.len() as int).is_prefix_of(
            register_bits(b.devices@, space, b.devices@.len() as int),
        ),
{
    let n = a.devices@.len() as int;
    lemma_devices_grow(b.devices@, space, n, b.devices@.len() as int);
    if n > 0 {
        let x = a.devices@[n - 1];
        let y = b.devices@[n - 1];
        lemma_same_devices(a.devices@, b.devices@, space, n - 1);
        lemma_same_words(x, y, space, x.registers@.len() as int);
        lemma_device_grows(y, space, x.registers@.len() as int, y.registers@.len() as int);
    }
}

proof fn lemma_tails_grow(a: Config, b: Config, device: Seq<char>, n: int, m: int, k: int)
    requires
        extends(a, b),
        0 <= n <= a.computed@.len(),
        0 <= m <= a.sim.sensors@.len(),
        0 <= k <= a.sim.controls@.len(),
    ensures
        computed_words(a.computed@, n) == computed_words(b.computed@, n),
        sim_words(a.sim.sensors@, device, m) == sim_words(b.sim.sensors@, device, m),
        control_words(a.sim.controls@, device, k) == control_words(b.sim.controls@, device, k),
    decreases n + m + k,
{
    if n > 0 {
        lemma_tails_grow(a, b, device, n - 1, 0, 0);
        assert(a.computed@[n - 1] == b.computed@[n - 1]);
    }
    if m > 0 {
        if n > 0 || k > 0 {
            lemma_tails_grow(a, b, device, 0, m, 0);
        } else {
            lemma_tails_grow(a, b, device, 0, m - 1, 0);
            assert(a.sim.sensors@[m - 1] == b.sim.sensors@[m - 1]);
        }
    }
    if k > 0 {
        if n > 0 || m > 0 {
            lemma_tails_grow(a, b, device, 0, 0, k);
        } else {
            lemma_tails_grow(a, b, device, 0, 0, k - 1);
            assert(a.sim.controls@[k - 1] == b.sim.controls@[k - 1]);
        }
    }
}

proof fn lemma_lists_grow(c: Config, device: Seq<char>, n: int, n2: int, m: int, m2: int, k: int, k2: int)
    requires
        0 <= n <= n2,
        0 <= m <= m2,
        0 <= k <= k2,
    ensures
        computed_words(c.computed@, n).is_prefix_of(computed_words(c.computed@, n2)),
        sim_words(c.sim.sensors@, device, m).is_prefix_of(sim_words(c.sim.sensors@, device, m2)),
        control_words(c.sim.controls@, device, k).is_prefix_of(control_words(c.sim.controls@, device, k2)),
    decreases (n2 - n) + (m2 - m) + (k2 - k),
{
    if n < n2 {
        lemma_lists_grow(c, device, n, n2 - 1, m, m, k, k);
    }
    if m < m2 {
        lemma_lists_grow(c, device, n, n, m, m2 - 1, k, k);
    }
    if k < k2 {
        lemma_lists_grow(c, device, n, n, m, m, k, k2 - 1);
    }
}

/// The words of all registers that lie in a space.
pub open spec fn all_register_words(c: Config, space: RegisterFunction) -> Seq<Option<WordView>> {
    register_words(c.devices@, space, c.devices@.len() as int)
}

/// The words of all controls that can be written.
pub open spec fn all_control_words(c: Config) -> Seq<Option<WordView>> {
    control_words(c.sim.controls@, sim_device(c.devices@, 0), c.sim.controls@.len() as int)
}

/// Appending to a configuration keeps every existing address: always for coils
/// and discrete inputs. Holding registers keep theirs unless a holding register
/// comes in before the controls; input registers, unless an input register comes
/// in before the computed and simulated sensors, or a computed sensor before the
/// simulated ones.
pub proof fn appending_keeps_addresses(a: Config, b: Config)
    requires
        extends(a, b),
    ensures
        coil_area(a).is_prefix_of(coil_area(b)),
        discrete_area(a).is_prefix_of(discrete_area(b)),
        all_register_words(a, RegisterFunction::Holding) == all_register_words(b, RegisterFunction::Holding)
            || all_control_words(a).len() == 0 ==> holding_area(a).is_prefix_of(holding_area(b)),
        (all_register_words(a, RegisterFunction::Input) == all_register_words(b, RegisterFunction::Input)
            || a.computed@.len() == 0 && a.sim.sensors@.len() == 0) && (a.computed@ == b.computed@
            || a.sim.sensors@.len() == 0) ==> input_area(a).is_prefix_of(input_area(b)),
{
    let device = sim_device(a.devices@, 0);
    lemma_registers_grow(a, b, RegisterFunction::Coil);
    lemma_registers_grow(a, b, RegisterFunction::DiscreteInput);
    lemma_registers_grow(a, b, RegisterFunction::Holding);
    lemma_registers_grow(a, b, RegisterFunction::Input);
    let n = a.computed@.len() as int;
    let m = a.sim.sensors@.len() as int;
    let k = a.sim.controls@.len() as int;
    lemma_tails_grow(a, b, device, n, m, k);
    lemma_lists_grow(
        b,
        device,
        n,
        b.computed@.len() as int,
        m,
        b.sim.sensors@.len() as int,
        k,
        b.sim.controls@.len() as int,
    );
}

proof fn lemma_sim_device(a: Seq<DeviceConfig>, b: Seq<DeviceConfig>, i: int)
    requires
        0 <= i,
        a.len() == b.len(),
        forall|j: int| 0 <= j < a.len() ==> (#[trigger] b[j]).name@ == a[j].name@ && b[j].transport == a[j].transport,
    ensures
        sim_device(a, i) == sim_device(b, i),
    decreases a.len() - i,
{
    if i < a.len() {
        assert(b[i].name@ == a[i].name@ && b[i].transport == a[i].transport);
        lemma_sim_device(a, b, i + 1);
    }
}

/// A register added at the end of the last device keeps every existing address
/// of every space: except, for a holding register, where there are controls
/// behind it, and, for an input register, where there are computed or simulated
/// sensors behind it.
pub proof fn an_added_register_keeps_addresses(
    a: Config,
    device: Seq<char>,
    new: RegisterConfig,
    pipeline: Option<crate::config::PipelineConfig>,
    b: Config,
)
    requires
        crate::registration::registered(a, device, new, pipeline, b),
        crate::registration::device_index(a.devices@, device, 0) == Some(a.devices@.len() - 1),
    ensures
        coil_area(a).is_prefix_of(coil_area(b)),
        discrete_area(a).is_prefix_of(discrete_area(b)),
        new.function != RegisterFunction::Holding || all_control_words(a).len() == 0 ==> holding_area(a).is_prefix_of(
            holding_area(b),
        ),
        new.function != RegisterFunction::Input || a.computed@.len() == 0 && a.sim.sensors@.len() == 0 ==> input_area(
            a,
        ).is_prefix_of(input_area(b)),
{
    let n = a.devices@.len() as int;
    crate::registration::lemma_device_index(a.devices@, device, 0);
    let x = a.devices@[n - 1];
    let y = b.devices@[n - 1];
    assert(a.devices@[n - 1].registers@ =~= y.registers@.take(x.registers@.len() as int));
    assert forall|j: int| 0 <= j < n implies (#[trigger] b.devices@[j]).name@ == a.devices@[j].name@
        && b.devices@[j].transport == a.devices@[j].transport by {
        if j < n - 1 {
            assert(b.devices@[j] == a.devices@[j]);
        }
    }
    lemma_sim_device(a.devices@, b.devices@, 0);
    assert(extends(a, b));
    assert forall|space: RegisterFunction| space != new.function implies #[trigger] all_register_words(a, space)
        == all_register_words(b, space) by {
        lemma_same_devices(a.devices@, b.devices@, space, n - 1);
        lemma_same_words(x, y, space, x.registers@.len() as int);
        assert(y.registers@[x.registers@.len() as int] == new);
        assert(device_words(y, space, x.registers@.len() as int) + Seq::<Option<WordView>>::empty() =~= device_words(
            y,
            space,
            x.registers@.len() as int,
        ));
    }
    appending_keeps_addresses(a, b);
}

} // verus!
