//! Which configurations are accepted, and what is said of the others.

use vstd::prelude::*;

use crate::config::{
    Access, ComputedConfig, Config, DeviceConfig, RegisterConfig, RegisterFunction, Transport, ValueType,
};
use crate::validation::FaultTexts;

verus! {

// ---- the rules ----

/// The number of addresses that a value of the type takes.
pub open spec fn span(t: ValueType) -> int {
    if t == ValueType::U32 || t == ValueType::I32 || t == ValueType::F32 {
        2
    } else {
        1
    }
}

/// The value of the register takes this address.
pub open spec fn takes(r: RegisterConfig, address: int) -> bool {
    r.address <= address < r.address + span(r.value_type)
}

/// The registers have no address in common, or stand in different spaces.
pub open spec fn apart(a: RegisterConfig, b: RegisterConfig) -> bool {
    a.function == b.function ==> forall|x: int| !(#[trigger] takes(a, x) && takes(b, x))
}

/// The register fits its space: bits are bools, only holding registers and coils
/// may be opened for writing, the count is that of the type, and the value ends
/// before the last address.
pub open spec fn fitting(r: RegisterConfig) -> bool {
    &&& ((r.function == RegisterFunction::Coil || r.function == RegisterFunction::DiscreteInput) ==> r.value_type
        == ValueType::Bool)
    &&& (r.access == Access::ReadWrite ==> r.function != RegisterFunction::Input && r.function
        != RegisterFunction::DiscreteInput)
    &&& (r.count matches Some(n) ==> n == span(r.value_type))
    &&& r.address + span(r.value_type) <= 65535
}

/// The device can be reached and polled.
pub open spec fn usable(d: DeviceConfig, controls: nat) -> bool {
    &&& 0 <= d.unit_id <= 247
    &&& (d.transport == Transport::Tcp ==> d.host@ != Seq::<char>::empty() && d.port >= 1)
    &&& (d.transport == Transport::Rtu ==> !(d.serial_port is None) && !(d.baud_rate is None))
    &&& (d.transport == Transport::Sim ==> controls >= 1)
    &&& d.poll_interval_ms >= 1
    &&& d.timeout_ms >= 1
    &&& d.reconnect_initial_ms <= d.reconnect_max_ms
    &&& (d.transport != Transport::Sim ==> d.registers@.len() >= 1)
    &&& d.registers@.len() <= 256
}

/// The devices and registers keep their rules: one to 64 devices, all usable
/// and of different names; in each, registers that fit, of different names and
/// apart from each other; and no sensor with two registers.
pub open spec fn devices_in_order(c: Config) -> bool {
    &&& 1 <= c.devices@.len() <= 64
    &&& forall|i: int|
        #![trigger c.devices@[i]]
        0 <= i < c.devices@.len() ==> {
            &&& usable(c.devices@[i], c.sim.controls@.len())
            &&& forall|j: int|
                0 <= j < c.devices@[i].registers@.len() ==> fitting(#[trigger] c.devices@[i].registers@[j])
        }
    &&& forall|i: int, k: int|
        #![trigger c.devices@[i], c.devices@[k]]
        0 <= i < k < c.devices@.len() ==> c.devices@[i].name@ != c.devices@[k].name@
    &&& forall|i: int, j: int, k: int|
        #![trigger c.devices@[i].registers@[j], c.devices@[i].registers@[k]]
        0 <= i < c.devices@.len() && 0 <= k < j < c.devices@[i].registers@.len() ==> c.devices@[i].registers@[j].name@
            != c.devices@[i].registers@[k].name@ && apart(c.devices@[i].registers@[j], c.devices@[i].registers@[k])
    &&& forall|i: int, j: int, a: int, b: int|
        #![trigger c.devices@[i].registers@[j], c.devices@[a].registers@[b]]
        0 <= i < c.devices@.len() && 0 <= j < c.devices@[i].registers@.len() && 0 <= a < c.devices@.len() && 0 <= b
            < c.devices@[a].registers@.len() && c.devices@[i].registers@[j].sensor_id@
            == c.devices@[a].registers@[b].sensor_id@ ==> i == a && j == b
}

proof fn lemma_apart(a: RegisterConfig, b: RegisterConfig)
    ensures
        apart(a, b) <==> !crate::validation::overlap(a, b),
{
    if crate::validation::overlap(a, b) {
        let x: int = if a.address < b.address {
            b.address as int
        } else {
            a.address as int
        };
        assert(takes(a, x) && takes(b, x));
    }
}

proof fn lemma_devices_in_order(c: Config)
    ensures
        devices_in_order(c) <==> crate::validity::sound_devices(c),
{
    let ds = c.devices@;
    assert forall|i: int, j: int|
        #![trigger ds[i].registers@[j]]
        0 <= i < ds.len() && 0 <= j < ds[i].registers@.len() implies (fitting(ds[i].registers@[j])
        <==> crate::validity::sound_register(ds[i].registers@[j])) by {}
    assert forall|i: int| #![trigger ds[i]] 0 <= i < ds.len() implies (usable(ds[i], c.sim.controls@.len())
        <==> crate::validity::sound_device(ds[i], c.sim.controls@.len())) by {
        assert(ds[i].host@.len() == 0 ==> ds[i].host@ =~= Seq::<char>::empty());
    }
    assert forall|a: RegisterConfig, b: RegisterConfig| #[trigger] apart(a, b) <==> !crate::validation::overlap(a, b) by {
        lemma_apart(a, b);
    }
    if devices_in_order(c) {
        assert forall|i: int| 0 <= i < ds.len() implies crate::validity::sound_device(
            #[trigger] ds[i],
            c.sim.controls@.len(),
        ) && crate::validity::sound_registers(ds[i].registers@) by {
            let rs = ds[i].registers@;
            assert forall|j: int, k: int| #![trigger rs[j], rs[k]] 0 <= k < j < rs.len() implies rs[k].name@ != rs[j].name@
                && !crate::validation::overlap(rs[j], rs[k]) by {
                assert(ds[i].registers@[j].name@ != ds[i].registers@[k].name@);
                assert(apart(rs[j], rs[k]));
            }
            assert forall|j: int| 0 <= j < rs.len() implies crate::validity::sound_register(#[trigger] rs[j]) by {
                assert(fitting(ds[i].registers@[j]));
            }
        }
    }
    if crate::validity::sound_devices(c) {
        assert forall|i: int, j: int, k: int|
            #![trigger ds[i].registers@[j], ds[i].registers@[k]]
            0 <= i < ds.len() && 0 <= k < j < ds[i].registers@.len() implies ds[i].registers@[j].name@
            != ds[i].registers@[k].name@ && apart(ds[i].registers@[j], ds[i].registers@[k]) by {
            assert(crate::validity::sound_registers(ds[i].registers@));
        }
        assert forall|i: int| #![trigger ds[i]] 0 <= i < ds.len() implies usable(ds[i], c.sim.controls@.len()) && forall|
            j: int,
        | 0 <= j < ds[i].registers@.len() ==> fitting(#[trigger] ds[i].registers@[j]) by {
            assert(crate::validity::sound_registers(ds[i].registers@));
        }
    }
}

/// A register of the gateway feeds the sensor.
pub open spec fn has_register(c: Config, id: Seq<char>) -> bool {
    exists|i: int, j: int|
        0 <= i < c.devices@.len() && 0 <= j < c.devices@[i].registers@.len() && (
        #[trigger] c.devices@[i].registers@[j]).sensor_id@ == id
}

/// The sensor is simulated.
pub open spec fn is_simulated(c: Config, id: Seq<char>) -> bool {
    exists|i: int| 0 <= i < c.sim.sensors@.len() && (#[trigger] c.sim.sensors@[i]).sensor_id@ == id
}

/// The sensor is computed.
pub open spec fn is_computed(c: Config, id: Seq<char>) -> bool {
    exists|i: int| 0 <= i < c.computed@.len() && (#[trigger] c.computed@[i]).sensor_id@ == id
}

/// A control has the name.
pub open spec fn is_control(c: Config, name: Seq<char>) -> bool {
    exists|i: int| 0 <= i < c.sim.controls@.len() && (#[trigger] c.sim.controls@[i]).name@ == name
}

pub(crate) proof fn lemma_known(c: Config, id: Seq<char>)
    ensures
        has_register(c, id) <==> crate::validation::fed(c.devices@, c.devices@.len() as int, id),
        is_simulated(c, id) <==> crate::validation::simulated(c.sim.sensors@, c.sim.sensors@.len() as int, id),
        is_computed(c, id) <==> crate::validation::computes(c.computed@, c.computed@.len() as int, id),
        is_control(c, id) <==> crate::validation::control_named(c.sim.controls@, c.sim.controls@.len() as int, id),
{
    let ds = c.devices@;
    if has_register(c, id) {
        let (i, j) = choose|i: int, j: int|
            0 <= i < c.devices@.len() && 0 <= j < c.devices@[i].registers@.len() && (
            #[trigger] c.devices@[i].registers@[j]).sensor_id@ == id;
        assert(ds[i].registers@[j].sensor_id@ == id);
        assert(crate::validation::feeds(ds[i].registers@, ds[i].registers@.len() as int, id));
    }
    if crate::validation::fed(ds, ds.len() as int, id) {
        let i = choose|i: int|
            0 <= i < ds.len() && #[trigger] crate::validation::feeds(
                ds[i].registers@,
                ds[i].registers@.len() as int,
                id,
            );
        let j = choose|j: int| 0 <= j < ds[i].registers@.len() && #[trigger] ds[i].registers@[j].sensor_id@ == id;
        assert(c.devices@[i].registers@[j].sensor_id@ == id);
    }
    if is_simulated(c, id) {
        let i = choose|i: int| 0 <= i < c.sim.sensors@.len() && (#[trigger] c.sim.sensors@[i]).sensor_id@ == id;
        assert(c.sim.sensors@[i].sensor_id@ == id);
    }
    if is_computed(c, id) {
        let i = choose|i: int| 0 <= i < c.computed@.len() && (#[trigger] c.computed@[i]).sensor_id@ == id;
        assert(c.computed@[i].sensor_id@ == id);
    }
    if is_control(c, id) {
        let i = choose|i: int| 0 <= i < c.sim.controls@.len() && (#[trigger] c.sim.controls@[i]).name@ == id;
        assert(c.sim.controls@[i].name@ == id);
    }
}

/// The pipelines keep their rules: one for a sensor, which has a register or is
/// simulated, and one to 16 stages without a fault in each.
pub open spec fn pipelines_in_order(c: Config, f: FaultTexts) -> bool {
    &&& forall|i: int|
        #![trigger c.pipelines@[i]]
        0 <= i < c.pipelines@.len() ==> {
            &&& has_register(c, c.pipelines@[i].sensor_id@) || is_simulated(c, c.pipelines@[i].sensor_id@)
            &&& 1 <= c.pipelines@[i].stages@.len() <= 16
            &&& forall|k: int|
                0 <= k < c.pipelines@[i].stages@.len() ==> crate::pipeline::stage_problem(
                    #[trigger] c.pipelines@[i].stages@[k],
                    f.stages[i][k],
                ) is None
        }
    &&& forall|i: int, k: int|
        #![trigger c.pipelines@[i], c.pipelines@[k]]
        0 <= i < k < c.pipelines@.len() ==> c.pipelines@[i].sensor_id@ != c.pipelines@[k].sensor_id@
}

proof fn lemma_pipelines_in_order(c: Config, f: FaultTexts)
    ensures
        pipelines_in_order(c, f) <==> crate::validity::sound_pipelines(c, f),
{
    assert forall|id: Seq<char>| #[trigger] crate::validation::sampled(c, id) <==> has_register(c, id) || is_simulated(
        c,
        id,
    ) by {
        lemma_known(c, id);
    }
    if pipelines_in_order(c, f) {
        assert forall|i: int| #![trigger c.pipelines@[i]] 0 <= i < c.pipelines@.len() implies crate::validation::sampled(
            c,
            c.pipelines@[i].sensor_id@,
        ) by {}
    }
}

/// Computed sensor `i` keeps its rules: it has a name and inputs, each a sensor
/// of the gateway, no register is its own, and its expression has no fault.
pub open spec fn computed_in_order(c: Config, f: FaultTexts, i: int) -> bool {
    let s = c.computed@[i];
    &&& !has_register(c, s.sensor_id@)
    &&& s.name@.len() >= 1
    &&& s.inputs@.len() >= 1
    &&& forall|k: int|
        #![trigger s.inputs@[k]]
        0 <= k < s.inputs@.len() ==> has_register(c, s.inputs@[k].1@) || is_simulated(c, s.inputs@[k].1@)
            || is_computed(c, s.inputs@[k].1@)
    &&& f.parsing[i] is None
    &&& f.binding[i] is None
}

/// Simulated sensor `i` keeps its rules: it has a name, no register and no
/// computed sensor has its id, its inputs are controls or simulated sensors, and
/// its formula has no fault.
pub open spec fn simulated_in_order(c: Config, f: FaultTexts, i: int) -> bool {
    let s = c.sim.sensors@[i];
    &&& !has_register(c, s.sensor_id@)
    &&& !is_computed(c, s.sensor_id@)
    &&& s.name@.len() >= 1
    &&& f.formulas[i] is None
    &&& forall|k: int|
        #![trigger s.inputs@[k]]
        0 <= k < s.inputs@.len() ==> is_control(c, s.inputs@[k].1@) || is_simulated(c, s.inputs@[k].1@)
}

/// No two computed sensors, no two simulated sensors and no two controls have
/// the same id or name.
pub open spec fn own_names(c: Config) -> bool {
    &&& forall|i: int, j: int|
        #![trigger c.computed@[i], c.computed@[j]]
        0 <= i < j < c.computed@.len() ==> c.computed@[i].sensor_id@ != c.computed@[j].sensor_id@
    &&& forall|i: int, j: int|
        #![trigger c.sim.sensors@[i], c.sim.sensors@[j]]
        0 <= i < j < c.sim.sensors@.len() ==> c.sim.sensors@[i].sensor_id@ != c.sim.sensors@[j].sensor_id@
    &&& forall|i: int, j: int|
        #![trigger c.sim.controls@[i], c.sim.controls@[j]]
        0 <= i < j < c.sim.controls@.len() ==> c.sim.controls@[i].name@ != c.sim.controls@[j].name@
}

/// Computed sensor `i` has a place in an order in which every computed sensor
/// comes behind those that it reads.
pub open spec fn reads_only_earlier(c: Config, order: Seq<int>) -> bool {
    &&& order.len() == c.computed@.len()
    &&& forall|i: int, k: int, j: int|
        #![trigger c.computed@[i].inputs@[k], c.computed@[j]]
        0 <= i < c.computed@.len() && 0 <= k < c.computed@[i].inputs@.len() && 0 <= j < c.computed@.len()
            && c.computed@[i].inputs@[k].1@ == c.computed@[j].sensor_id@ ==> order[j] < order[i]
}

proof fn lemma_chain_descends(c: Config, order: Seq<int>, p: Seq<int>, n: int)
    requires
        reads_only_earlier(c, order),
        crate::validation::reading_chain(c.computed@, p),
        1 <= n < p.len(),
    ensures
        order[p[n]] < order[p[0]],
    decreases n,
{
    let u = p[n - 1];
    let v = p[n];
    assert(crate::validation::reads(c.computed@, p[n - 1], p[n - 1 + 1]));
    let k = choose|k: int|
        0 <= k < c.computed@[u].inputs@.len() && #[trigger] c.computed@[u].inputs@[k].1@ == c.computed@[v].sensor_id@;
    assert(c.computed@[u].inputs@[k].1@ == c.computed@[v].sensor_id@);
    assert(order[v] < order[u]);
    if n > 1 {
        lemma_chain_descends(c, order, p, n - 1);
    }
}

/// A configuration that keeps every rule is accepted, where its computed sensors
/// can be put in an order in which each comes behind those that it reads.
pub proof fn what_keeps_the_rules_is_accepted(c: Config, f: FaultTexts, order: Seq<int>, found: Option<Seq<char>>)
    requires
        crate::validation::finding(c, f, found),
        devices_in_order(c),
        pipelines_in_order(c, f),
        own_names(c),
        forall|i: int| 0 <= i < c.computed@.len() ==> #[trigger] computed_in_order(c, f, i),
        forall|i: int| 0 <= i < c.sim.sensors@.len() ==> #[trigger] simulated_in_order(c, f, i),
        reads_only_earlier(c, order),
    ensures
        found is None,
{
    lemma_devices_in_order(c);
    lemma_pipelines_in_order(c, f);
    assert forall|i: int| 0 <= i < c.computed@.len() implies #[trigger] crate::validity::sound_computed_sensor(c, f, i) by {
        assert(computed_in_order(c, f, i));
        let s = c.computed@[i];
        lemma_known(c, s.sensor_id@);
        assert forall|k: int| 0 <= k < s.inputs@.len() implies crate::validation::readable_sensor(
            c,
            #[trigger] s.inputs@[k].1@,
        ) by {
            lemma_known(c, s.inputs@[k].1@);
        }
    }
    assert forall|i: int| 0 <= i < c.sim.sensors@.len() implies #[trigger] crate::validity::sound_sim_sensor(c, f, i) by {
        assert(simulated_in_order(c, f, i));
        let s = c.sim.sensors@[i];
        lemma_known(c, s.sensor_id@);
        assert forall|k: int| #![trigger s.inputs@[k]] 0 <= k < s.inputs@.len() implies crate::validation::control_named(
            c.sim.controls@,
            c.sim.controls@.len() as int,
            s.inputs@[k].1@,
        ) || crate::validation::simulated(c.sim.sensors@, c.sim.sensors@.len() as int, s.inputs@[k].1@) by {
            lemma_known(c, s.inputs@[k].1@);
        }
    }
    assert forall|v: int| 0 <= v < c.computed@.len() implies !#[trigger] crate::validation::circular(c.computed@, v) by {
        if crate::validation::circular(c.computed@, v) {
            let p = choose|p: Seq<int>| #[trigger]
                crate::validation::reading_chain(c.computed@, p) && p.len() >= 2 && p[0] == v && p.last() == v;
            lemma_chain_descends(c, order, p, p.len() - 1);
        }
    }
    crate::validity::validation_is_exact(c, f, found);
}

/// An accepted configuration keeps every rule.
pub proof fn what_is_accepted_keeps_the_rules(c: Config, f: FaultTexts)
    requires
        crate::validation::finding(c, f, None),
    ensures
        devices_in_order(c),
        pipelines_in_order(c, f),
        own_names(c),
        forall|i: int| 0 <= i < c.computed@.len() ==> #[trigger] computed_in_order(c, f, i),
        forall|i: int| 0 <= i < c.sim.sensors@.len() ==> #[trigger] simulated_in_order(c, f, i),
{
    crate::validity::validation_is_exact(c, f, None);
    lemma_devices_in_order(c);
    lemma_pipelines_in_order(c, f);
    assert forall|i: int| 0 <= i < c.computed@.len() implies #[trigger] computed_in_order(c, f, i) by {
        assert(crate::validity::sound_computed_sensor(c, f, i));
        let s = c.computed@[i];
        lemma_known(c, s.sensor_id@);
        assert forall|k: int| #![trigger s.inputs@[k]] 0 <= k < s.inputs@.len() implies has_register(
            c,
            s.inputs@[k].1@,
        ) || is_simulated(c, s.inputs@[k].1@) || is_computed(c, s.inputs@[k].1@) by {
            assert(crate::validation::readable_sensor(c, s.inputs@[k].1@));
            lemma_known(c, s.inputs@[k].1@);
        }
    }
    assert forall|i: int| 0 <= i < c.sim.sensors@.len() implies #[trigger] simulated_in_order(c, f, i) by {
        assert(crate::validity::sound_sim_sensor(c, f, i));
        let s = c.sim.sensors@[i];
        lemma_known(c, s.sensor_id@);
        assert forall|k: int| #![trigger s.inputs@[k]] 0 <= k < s.inputs@.len() implies is_control(
            c,
            s.inputs@[k].1@,
        ) || is_simulated(c, s.inputs@[k].1@) by {
            lemma_known(c, s.inputs@[k].1@);
        }
    }
}

/// In an accepted configuration no computed sensor reads itself, nor do two read
/// each other, nor three in a round.
pub proof fn no_computed_sensor_reads_itself(c: Config, f: FaultTexts, u: int, v: int, w: int)
    requires
        crate::validation::finding(c, f, None),
        0 <= u < c.computed@.len(),
        0 <= v < c.computed@.len(),
        0 <= w < c.computed@.len(),
    ensures
        !has_input(c.computed@[u], c.computed@[u].sensor_id@),
        !(has_input(c.computed@[u], c.computed@[v].sensor_id@) && has_input(
            c.computed@[v],
            c.computed@[u].sensor_id@,
        )),
        !(has_input(c.computed@[u], c.computed@[v].sensor_id@) && has_input(c.computed@[v], c.computed@[w].sensor_id@)
            && has_input(c.computed@[w], c.computed@[u].sensor_id@)),
{
    crate::validity::validation_is_exact(c, f, None);
    let cs = c.computed@;
    assert(!crate::validation::circular(cs, u));
    lemma_reads(cs, u, u);
    lemma_reads(cs, u, v);
    lemma_reads(cs, v, u);
    lemma_reads(cs, v, w);
    lemma_reads(cs, w, u);
    let one = seq![u, u];
    let two = seq![u, v, u];
    let three = seq![u, v, w, u];
    if crate::validation::reads(cs, u, u) {
        assert(crate::validation::reading_chain(cs, one));
        assert(one.last() == u);
    }
    if crate::validation::reads(cs, u, v) && crate::validation::reads(cs, v, u) {
        assert(crate::validation::reading_chain(cs, two));
        assert(two.last() == u);
    }
    if crate::validation::reads(cs, u, v) && crate::validation::reads(cs, v, w) && crate::validation::reads(cs, w, u) {
        assert(crate::validation::reading_chain(cs, three));
        assert(three.last() == u);
    }
}

/// The sensor is among the inputs.
pub open spec fn has_input(s: ComputedConfig, id: Seq<char>) -> bool {
    exists|k: int| 0 <= k < s.inputs@.len() && (#[trigger] s.inputs@[k]).1@ == id
}

proof fn lemma_reads(cs: Seq<ComputedConfig>, u: int, v: int)
    requires
        0 <= u < cs.len(),
        0 <= v < cs.len(),
    ensures
        has_input(cs[u], cs[v].sensor_id@) <==> crate::validation::reads(cs, u, v),
{
    if has_input(cs[u], cs[v].sensor_id@) {
        let k = choose|k: int| 0 <= k < cs[u].inputs@.len() && (#[trigger] cs[u].inputs@[k]).1@ == cs[v].sensor_id@;
        assert(cs[u].inputs@[k].1@ == cs[v].sensor_id@);
    }
}

// ---- what is said ----

/// A gateway without a device, or with more than 64, is told so first.
pub proof fn the_number_of_devices_is_told(c: Config, f: FaultTexts, found: Option<Seq<char>>)
    requires
        crate::validation::finding(c, f, found),
    ensures
        c.devices@.len() == 0 ==> found == Some("at least one [[devices]] entry is required"@),
        c.devices@.len() > 64 ==> found == Some(
            "too many devices ("@ + crate::text::decimal(c.devices@.len()) + "), max 64"@,
        ),
{
}

proof fn lemma_first_device(c: Config, i: int, k: int)
    requires
        0 <= i <= k < c.devices@.len(),
        forall|m: int|
            #![trigger c.devices@[m]]
            i <= m < k ==> crate::validation::device_problem(c, m) is None && crate::validation::registers_problem(
                c,
                m,
                0,
            ) is None,
    ensures
        crate::validation::devices_problem(c, i) == crate::validation::devices_problem(c, k),
    decreases k - i,
{
    if i < k {
        assert(c.devices@[i] == c.devices@[i]);
        lemma_first_device(c, i + 1, k);
    }
}

/// The first device that is wrong in itself is what is told, its own fault before
/// those of its registers.
pub proof fn the_first_wrong_device_is_told(c: Config, f: FaultTexts, found: Option<Seq<char>>, k: int)
    requires
        crate::validation::finding(c, f, found),
        c.devices@.len() <= 64,
        0 <= k < c.devices@.len(),
        forall|m: int|
            #![trigger c.devices@[m]]
            0 <= m < k ==> crate::validation::device_problem(c, m) is None && crate::validation::registers_problem(
                c,
                m,
                0,
            ) is None,
        crate::validation::device_problem(c, k) is Some,
    ensures
        found == crate::validation::device_problem(c, k),
{
    lemma_first_device(c, 0, k);
}

/// What is wrong with a device is said with its name, the first of these faults
/// alone: its name, its unit, its transport, its times, the number of its
/// registers.
pub proof fn faults_of_a_device_are_told(c: Config, i: int)
    requires
        0 <= i < c.devices@.len(),
    ensures
        ({
            let d = c.devices@[i];
            let found = crate::validation::device_problem(c, i);
            let named = exists|j: int| 0 <= j < i && #[trigger] c.devices@[j].name@ == d.name@;
            let prefix = "device `"@ + d.name@ + "`: "@;
            let settled = !named && d.unit_id <= 247;
            let reached = settled && usable(
                (DeviceConfig { poll_interval_ms: 1, timeout_ms: 1, reconnect_initial_ms: 0, ..d }),
                c.sim.controls@.len(),
            );
            &&& (named ==> found == Some("duplicate device name `"@ + d.name@ + "`"@))
            &&& (!named && d.unit_id > 247 ==> found == Some(
                prefix + ("unit_id "@ + crate::text::decimal(d.unit_id as nat) + " out of range (0..=247)"@),
            ))
            &&& (settled && d.transport == Transport::Tcp && d.host@.len() == 0 ==> found == Some(
                prefix + "tcp transport requires `host`"@,
            ))
            &&& (settled && d.transport == Transport::Tcp && d.host@.len() > 0 && d.port == 0 ==> found == Some(
                prefix + "tcp transport requires a valid `port`"@,
            ))
            &&& (settled && d.transport == Transport::Rtu && d.serial_port is None ==> found == Some(
                prefix + "rtu transport requires `serial_port` (e.g. \"COM3\")"@,
            ))
            &&& (settled && d.transport == Transport::Rtu && d.serial_port is Some && d.baud_rate is None ==> found
                == Some(prefix + "rtu transport requires `baud_rate`"@))
            &&& (settled && d.transport == Transport::Sim && c.sim.controls@.len() == 0 ==> found == Some(
                prefix + "sim transport requires `[sim]` controls"@,
            ))
            &&& (reached && d.poll_interval_ms == 0 ==> found == Some(prefix + "poll_interval_ms must be > 0"@))
            &&& (reached && d.poll_interval_ms > 0 && d.timeout_ms == 0 ==> found == Some(
                prefix + "timeout_ms must be > 0"@,
            ))
            &&& (reached && d.poll_interval_ms > 0 && d.timeout_ms > 0 && d.reconnect_initial_ms > d.reconnect_max_ms
                ==> found == Some(
                prefix + ("reconnect_initial_ms ("@ + crate::text::decimal(d.reconnect_initial_ms as nat)
                    + ") must be <= reconnect_max_ms ("@ + crate::text::decimal(d.reconnect_max_ms as nat) + ")"@),
            ))
            &&& (!named && usable(d, c.sim.controls@.len()) ==> found is None)
        }),
{
    let d = c.devices@[i];
    assert(d.host@.len() == 0 ==> d.host@ =~= Seq::<char>::empty());
}

/// What is wrong with a register is said with its device and its name, the
/// first of these faults alone: its name, its sensor, its type, its access, its
/// count, its end.
pub proof fn faults_of_a_register_are_told(c: Config, i: int, j: int)
    requires
        0 <= i < c.devices@.len(),
        0 <= j < c.devices@[i].registers@.len(),
    ensures
        ({
            let d = c.devices@[i];
            let r = d.registers@[j];
            let found = crate::validation::register_problem(c, i, j);
            let named = exists|k: int| 0 <= k < j && #[trigger] d.registers@[k].name@ == r.name@;
            let taken = crate::validation::fed(c.devices@, i, r.sensor_id@) || crate::validation::feeds(
                d.registers@,
                j,
                r.sensor_id@,
            );
            let own = !named && !taken;
            let prefix = "device `"@ + d.name@ + "` register `"@ + r.name@ + "`: "@;
            let bit = r.function == RegisterFunction::Coil || r.function == RegisterFunction::DiscreteInput;
            let input = r.function == RegisterFunction::Input || r.function == RegisterFunction::DiscreteInput;
            &&& (named ==> found == Some("device `"@ + d.name@ + "`: "@ + ("duplicate register name `"@ + r.name@ + "`"@)))
            &&& (!named && taken ==> found == Some(
                "duplicate sensor_id `"@ + r.sensor_id@ + "` (must be unique gateway-wide)"@,
            ))
            &&& (own && r.function == RegisterFunction::Coil && r.value_type != ValueType::Bool ==> found == Some(
                prefix + ("function "@ + "Coil"@ + " requires value_type = \"bool\""@),
            ))
            &&& (own && r.function == RegisterFunction::DiscreteInput && r.value_type != ValueType::Bool ==> found
                == Some(prefix + ("function "@ + "DiscreteInput"@ + " requires value_type = \"bool\""@)))
            &&& (own && (bit ==> r.value_type == ValueType::Bool) && input && r.access == Access::ReadWrite ==> found
                == Some(prefix + "access = \"read_write\" is only allowed for holding/coil registers"@))
            &&& (own && (bit ==> r.value_type == ValueType::Bool) && !(input && r.access == Access::ReadWrite) && (
            r.count matches Some(n) && n != span(r.value_type)) ==> found == Some(
                prefix + ("count "@ + crate::text::decimal(r.count->0 as nat) + " does not match value_type "@
                    + crate::validation::value_type_name(r.value_type) + " (expected "@ + crate::text::decimal(
                    span(r.value_type) as nat,
                ) + ")"@),
            ))
            &&& (own && fitting(r) ==> found is None)
            &&& (own && !fitting(r) ==> found is Some)
        }),
{
}

/// The name of a type is the one that is written in upper case.
pub proof fn types_are_named(t: ValueType)
    ensures
        t == ValueType::U16 ==> crate::validation::value_type_name(t) == "U16"@,
        t == ValueType::I16 ==> crate::validation::value_type_name(t) == "I16"@,
        t == ValueType::U32 ==> crate::validation::value_type_name(t) == "U32"@,
        t == ValueType::I32 ==> crate::validation::value_type_name(t) == "I32"@,
        t == ValueType::F32 ==> crate::validation::value_type_name(t) == "F32"@,
        t == ValueType::Bool ==> crate::validation::value_type_name(t) == "Bool"@,
{
}

/// What is wrong with a pipeline is said with its sensor.
pub proof fn faults_of_a_pipeline_are_told(c: Config, f: FaultTexts, i: int)
    requires
        0 <= i < c.pipelines@.len(),
    ensures
        ({
            let p = c.pipelines@[i];
            let found = crate::validation::pipeline_problem(c, f, i);
            let known = has_register(c, p.sensor_id@) || is_simulated(c, p.sensor_id@);
            let again = exists|j: int| 0 <= j < i && #[trigger] c.pipelines@[j].sensor_id@ == p.sensor_id@;
            let prefix = "pipeline for `"@ + p.sensor_id@ + "`: "@;
            &&& (!known ==> found == Some(
                "pipeline sensor_id `"@ + p.sensor_id@ + "` does not match any device register"@,
            ))
            &&& (known && again ==> found == Some(
                "duplicate pipeline for sensor_id `"@ + p.sensor_id@ + "` (only one pipeline per sensor)"@,
            ))
            &&& (known && !again && p.stages@.len() == 0 ==> found == Some(prefix + "at least one stage is required"@))
            &&& (known && !again && p.stages@.len() > 16 ==> found == Some(
                prefix + ("too many stages ("@ + crate::text::decimal(p.stages@.len()) + "), max 16"@),
            ))
            &&& (known && !again && 1 <= p.stages@.len() <= 16 && crate::pipeline::stage_problem(
                p.stages@[0],
                f.stages[i][0],
            ) is Some ==> found == Some(prefix + crate::pipeline::stage_problem(p.stages@[0], f.stages[i][0])->0))
        }),
{
    lemma_known(c, c.pipelines@[i].sensor_id@);
}

/// What is wrong with a computed sensor is said with its id.
pub proof fn faults_of_a_computed_sensor_are_told(c: Config, f: FaultTexts, i: int)
    requires
        0 <= i < c.computed@.len(),
    ensures
        ({
            let s = c.computed@[i];
            let taken = has_register(c, s.sensor_id@) || exists|j: int|
                0 <= j < i && #[trigger] c.computed@[j].sensor_id@ == s.sensor_id@;
            let prefix = "computed `"@ + s.sensor_id@ + "`: "@;
            let identity = crate::validation::identity_problem(c, i);
            let inputs = crate::validation::inputs_problem(c, i, 0);
            let formula = crate::validation::formula_problem(c, f, i);
            let known = s.inputs@.len() > 0 && (has_register(c, s.inputs@[0].1@) || is_simulated(c, s.inputs@[0].1@)
                || is_computed(c, s.inputs@[0].1@));
            &&& (taken ==> identity == Some(
                "duplicate sensor_id `"@ + s.sensor_id@ + "` (computed must not collide with registers)"@,
            ))
            &&& (!taken && s.name@.len() == 0 ==> identity == Some(prefix + "name is required"@))
            &&& (!taken && s.name@.len() > 0 && s.inputs@.len() == 0 ==> identity == Some(
                prefix + "at least one input is required"@,
            ))
            &&& (!taken && s.name@.len() > 0 && s.inputs@.len() > 0 ==> identity is None)
            &&& (s.inputs@.len() > 0 && !known ==> inputs == Some(
                prefix + ("input `"@ + s.inputs@[0].0@ + "` references unknown sensor_id `"@ + s.inputs@[0].1@ + "`"@),
            ))
            &&& (f.parsing[i] matches Some(m) ==> formula == Some(
                prefix + crate::pipeline::bad_expression(s.expression@, m),
            ))
            &&& ((f.parsing[i] is None && f.binding[i] is Some) ==> formula == Some(prefix + f.binding[i]->0))
            &&& ((f.parsing[i] is None && f.binding[i] is None) ==> formula is None)
        }),
{
    let s = c.computed@[i];
    lemma_known(c, s.sensor_id@);
    if s.inputs@.len() > 0 {
        lemma_known(c, s.inputs@[0].1@);
    }
}

/// Where computed sensors read each other in a round and nothing before is
/// wrong, one of them is named.
pub proof fn a_round_of_computed_sensors_is_told(c: Config, f: FaultTexts, found: Option<Seq<char>>, u: int)
    requires
        crate::validation::finding(c, f, found),
        crate::validation::early_problem(c, f) is None,
        0 <= u < c.computed@.len(),
        has_input(c.computed@[u], c.computed@[u].sensor_id@),
    ensures
        exists|v: int|
            0 <= v < c.computed@.len() && found == Some(
                "computed dependency cycle at `"@ + (#[trigger] c.computed@[v]).sensor_id@ + "`"@,
            ),
{
    let cs = c.computed@;
    lemma_reads(cs, u, u);
    let one = seq![u, u];
    assert(crate::validation::reading_chain(cs, one));
    assert(one.last() == u);
    assert(crate::validation::circular(cs, u));
    let v = choose|v: int|
        0 <= v < c.computed@.len() && #[trigger] crate::validation::circular(c.computed@, v) && found->0
            == crate::validation::cycle_text(c.computed@[v].sensor_id@);
    assert(c.computed@[v] == c.computed@[v]);
}

/// What is wrong with a simulated sensor is said with its id.
pub proof fn faults_of_a_simulated_sensor_are_told(c: Config, f: FaultTexts, i: int)
    requires
        0 <= i < c.sim.sensors@.len(),
    ensures
        ({
            let s = c.sim.sensors@[i];
            let taken = has_register(c, s.sensor_id@) || is_computed(c, s.sensor_id@) || exists|j: int|
                0 <= j < i && #[trigger] c.sim.sensors@[j].sensor_id@ == s.sensor_id@;
            let prefix = "sim sensor `"@ + s.sensor_id@ + "`: "@;
            let found = crate::validation::sim_sensor_problem(c, f, i);
            let targets = crate::validation::targets_problem(c, i, 0);
            &&& (taken ==> found == Some(
                "duplicate sensor_id `"@ + s.sensor_id@ + "` (sim must not collide with registers/computed)"@,
            ))
            &&& (!taken && s.name@.len() == 0 ==> found == Some(prefix + "name is required"@))
            &&& ((!taken && s.name@.len() > 0 && f.formulas[i] is Some) ==> found == Some(
                prefix + ("invalid formula `"@ + s.formula@ + "`: "@ + f.formulas[i]->0),
            ))
            &&& ((!taken && s.name@.len() > 0 && f.formulas[i] is None) ==> found is None)
            &&& (s.inputs@.len() > 0 && !is_control(c, s.inputs@[0].1@) && !is_simulated(c, s.inputs@[0].1@)
                ==> targets == Some(
                prefix + ("input `"@ + s.inputs@[0].0@ + "` references unknown target `"@ + s.inputs@[0].1@ + "`"@),
            ))
        }),
{
    let s = c.sim.sensors@[i];
    lemma_known(c, s.sensor_id@);
    if s.inputs@.len() > 0 {
        lemma_known(c, s.inputs@[0].1@);
    }
}

/// The devices are judged before the pipelines, the pipelines before the names of
/// computed sensors, those before their inputs, then rounds among them, and the
/// simulation last.
pub proof fn faults_are_told_in_order(c: Config, f: FaultTexts, found: Option<Seq<char>>)
    requires
        crate::validation::finding(c, f, found),
        1 <= c.devices@.len() <= 64,
    ensures
        ({
            let devices = crate::validation::devices_problem(c, 0);
            let pipelines = crate::validation::pipelines_problem(c, f, 0);
            let names = crate::validation::identities_problem(c, 0);
            let computed = crate::validation::computed_problem(c, f, 0);
            let controls = crate::validation::controls_problem(c, 0);
            let sensors = crate::validation::sim_sensors_problem(c, f, 0);
            &&& (devices is Some ==> found == devices)
            &&& (devices is None && pipelines is Some ==> found == pipelines)
            &&& (devices is None && pipelines is None && names is Some ==> found == names)
            &&& (devices is None && pipelines is None && names is None && computed is Some ==> found == computed)
            &&& (devices is None && pipelines is None && names is None && computed is None && found is None
                ==> controls is None && sensors is None)
            &&& (c.computed@.len() == 0 && devices is None && pipelines is None && controls is Some ==> found
                == controls)
            &&& (c.computed@.len() == 0 && devices is None && pipelines is None && controls is None ==> found
                == sensors)
        }),
{
}

proof fn lemma_first_overlap(d: DeviceConfig, j: int, i: int, k: int)
    requires
        0 <= i <= k < j < d.registers@.len(),
        forall|m: int| i <= m < k ==> apart(d.registers@[j], #[trigger] d.registers@[m]),
        !apart(d.registers@[j], d.registers@[k]),
    ensures
        crate::validation::overlap_problem(d, j, i) == Some(crate::validation::overlap_text(d, j, k)),
    decreases k - i,
{
    lemma_apart(d.registers@[j], d.registers@[i]);
    if i < k {
        assert(apart(d.registers@[j], d.registers@[i]));
        lemma_first_overlap(d, j, i + 1, k);
    }
}

/// Of two registers with a common address the later one is told, with the first
/// one that it shares an address with, and the ranges of both.
pub proof fn a_shared_address_is_told(d: DeviceConfig, j: int, k: int)
    requires
        0 <= k < j < d.registers@.len(),
        forall|m: int| 0 <= m < k ==> apart(d.registers@[j], #[trigger] d.registers@[m]),
        !apart(d.registers@[j], d.registers@[k]),
    ensures
        ({
            let r = d.registers@[j];
            let o = d.registers@[k];
            crate::validation::overlap_problem(d, j, 0) == Some(
                "device `"@ + d.name@ + "`: "@ + ("register `"@ + r.name@ + "` range "@ + ("["@ + crate::text::decimal(
                    r.address as nat,
                ) + ", "@ + crate::text::decimal((r.address + span(r.value_type)) as nat) + ")"@) + " overlaps `"@
                    + o.name@ + "` range "@ + ("["@ + crate::text::decimal(o.address as nat) + ", "@
                    + crate::text::decimal((o.address + span(o.value_type)) as nat) + ")"@)),
            )
        }),
{
    lemma_first_overlap(d, j, 0, k);
}

} // verus!
