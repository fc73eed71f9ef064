//! Acceptable configurations, stated as rules, and what follows from them.

use vstd::prelude::*;

use crate::config::{Access, Config, DeviceConfig, PipelineConfig, RegisterConfig, Transport, ValueType};
use crate::validation;
use crate::validation::FaultTexts;

verus! {

/// The transport settings that a device needs are there.
pub open spec fn reachable(d: DeviceConfig, controls: nat) -> bool {
    match d.transport {
        Transport::Tcp => d.host@.len() > 0 && d.port != 0,
        Transport::Rtu => d.serial_port is Some && d.baud_rate is Some,
        Transport::Sim => controls > 0,
    }
}

/// The settings of a device, its registers aside, are in range.
pub open spec fn sound_device(d: DeviceConfig, controls: nat) -> bool {
    &&& d.unit_id <= 247
    &&& reachable(d, controls)
    &&& d.poll_interval_ms > 0
    &&& d.timeout_ms > 0
    &&& d.reconnect_initial_ms <= d.reconnect_max_ms
    &&& d.registers@.len() > 0 || d.transport == Transport::Sim
    &&& d.registers@.len() <= 256
}

/// A register is consistent in itself.
pub open spec fn sound_register(r: RegisterConfig) -> bool {
    &&& r.function.single_bit() ==> r.value_type == ValueType::Bool
    &&& r.access == Access::ReadWrite ==> r.function.writable()
    &&& r.count_or_width() == r.value_type.width()
    &&& validation::end_of(r) <= 0xffff
}

/// The registers of a device: consistent, of distinct names, of ranges that
/// do not meet.
pub open spec fn sound_registers(rs: Seq<RegisterConfig>) -> bool {
    &&& forall|j: int| 0 <= j < rs.len() ==> sound_register(#[trigger] rs[j])
    &&& forall|j: int, k: int|
        #![trigger rs[j], rs[k]]
        0 <= k < j < rs.len() ==> rs[k].name@ != rs[j].name@ && !validation::overlap(rs[j], rs[k])
}

/// No two registers of the gateway feed the same sensor.
pub open spec fn distinct_sensors(ds: Seq<DeviceConfig>) -> bool {
    forall|i: int, j: int, a: int, b: int|
        #![trigger ds[i].registers@[j], ds[a].registers@[b]]
        0 <= i < ds.len() && 0 <= j < ds[i].registers@.len() && 0 <= a < ds.len() && 0 <= b < ds[a].registers@.len()
            && (i != a || j != b) ==> ds[i].registers@[j].sensor_id@ != ds[a].registers@[b].sensor_id@
}

/// The devices obey their rules.
pub open spec fn sound_devices(c: Config) -> bool {
    let ds = c.devices@;
    &&& 1 <= ds.len() <= 64
    &&& forall|i: int, j: int| #![trigger ds[i], ds[j]] 0 <= i < j < ds.len() ==> ds[i].name@ != ds[j].name@
    &&& forall|i: int|
        0 <= i < ds.len() ==> sound_device(#[trigger] ds[i], c.sim.controls@.len()) && sound_registers(ds[i].registers@)
    &&& distinct_sensors(ds)
}

/// The pipelines obey their rules.
pub open spec fn sound_pipelines(c: Config, f: FaultTexts) -> bool {
    let ps = c.pipelines@;
    &&& forall|i: int, j: int| #![trigger ps[i], ps[j]] 0 <= i < j < ps.len() ==> ps[i].sensor_id@ != ps[j].sensor_id@
    &&& forall|i: int|
        #![trigger ps[i]]
        0 <= i < ps.len() ==> {
            &&& validation::sampled(c, ps[i].sensor_id@)
            &&& 1 <= ps[i].stages@.len() <= 16
            &&& forall|k: int|
                0 <= k < ps[i].stages@.len() ==> crate::pipeline::stage_problem(
                    #[trigger] ps[i].stages@[k],
                    f.stages[i][k],
                ) is None
        }
}

/// A computed sensor is complete, and its inputs and expression are known.
pub open spec fn sound_computed_sensor(c: Config, f: FaultTexts, i: int) -> bool {
    let s = c.computed@[i];
    &&& !validation::fed(c.devices@, c.devices@.len() as int, s.sensor_id@)
    &&& s.name@.len() > 0
    &&& s.inputs@.len() > 0
    &&& forall|k: int| 0 <= k < s.inputs@.len() ==> validation::readable_sensor(c, #[trigger] s.inputs@[k].1@)
    &&& f.parsing[i] is None
    &&& f.binding[i] is None
}

/// The computed sensors obey their rules: none reads itself.
pub open spec fn sound_computed(c: Config, f: FaultTexts) -> bool {
    let cs = c.computed@;
    &&& forall|i: int, j: int| #![trigger cs[i], cs[j]] 0 <= i < j < cs.len() ==> cs[i].sensor_id@ != cs[j].sensor_id@
    &&& forall|i: int| 0 <= i < cs.len() ==> #[trigger] sound_computed_sensor(c, f, i)
    &&& validation::cycle_free(cs)
}

/// A simulated sensor is complete, and its formula and inputs are known.
pub open spec fn sound_sim_sensor(c: Config, f: FaultTexts, i: int) -> bool {
    let s = c.sim.sensors@[i];
    &&& !validation::fed(c.devices@, c.devices@.len() as int, s.sensor_id@)
    &&& !validation::computes(c.computed@, c.computed@.len() as int, s.sensor_id@)
    &&& s.name@.len() > 0
    &&& f.formulas[i] is None
    &&& forall|k: int|
        #![trigger s.inputs@[k]]
        0 <= k < s.inputs@.len() ==> validation::control_named(c.sim.controls@, c.sim.controls@.len() as int, s.inputs@[k].1@)
            || validation::simulated(c.sim.sensors@, c.sim.sensors@.len() as int, s.inputs@[k].1@)
}

/// The simulation obeys its rules.
pub open spec fn sound_sim(c: Config, f: FaultTexts) -> bool {
    let ks = c.sim.controls@;
    let ss = c.sim.sensors@;
    &&& forall|i: int, j: int| #![trigger ks[i], ks[j]] 0 <= i < j < ks.len() ==> ks[i].name@ != ks[j].name@
    &&& forall|i: int, j: int| #![trigger ss[i], ss[j]] 0 <= i < j < ss.len() ==> ss[i].sensor_id@ != ss[j].sensor_id@
    &&& forall|i: int| 0 <= i < ss.len() ==> #[trigger] sound_sim_sensor(c, f, i)
}

/// Every rule of a configuration holds.
pub open spec fn acceptable(c: Config, f: FaultTexts) -> bool {
    &&& sound_devices(c)
    &&& sound_pipelines(c, f)
    &&& sound_computed(c, f)
    &&& sound_sim(c, f)
}

proof fn lemma_overlaps(d: DeviceConfig, j: int, k: int)
    requires
        0 <= k,
    ensures
        validation::overlap_problem(d, j, k) is None <==> forall|m: int|
            k <= m < j ==> !validation::overlap(d.registers@[j], #[trigger] d.registers@[m]),
    decreases j - k,
{
    if k < j {
        lemma_overlaps(d, j, k + 1);
        assert(d.registers@[k] == d.registers@[k]);
    }
}

proof fn lemma_registers(c: Config, i: int, j: int)
    requires
        0 <= j,
    ensures
        validation::registers_problem(c, i, j) is None <==> forall|m: int|
            #![trigger c.devices@[i].registers@[m]]
            j <= m < c.devices@[i].registers@.len() ==> validation::register_problem(c, i, m) is None && validation::overlap_problem(
                c.devices@[i],
                m,
                0,
            ) is None,
    decreases c.devices@[i].registers@.len() - j,
{
    if j < c.devices@[i].registers@.len() {
        lemma_registers(c, i, j + 1);
        assert(c.devices@[i].registers@[j] == c.devices@[i].registers@[j]);
    }
}

proof fn lemma_devices(c: Config, i: int)
    requires
        0 <= i,
    ensures
        validation::devices_problem(c, i) is None <==> forall|m: int|
            #![trigger c.devices@[m]]
            i <= m < c.devices@.len() ==> validation::device_problem(c, m) is None && validation::registers_problem(c, m, 0) is None,
    decreases c.devices@.len() - i,
{
    if i < c.devices@.len() {
        lemma_devices(c, i + 1);
        assert(c.devices@[i] == c.devices@[i]);
    }
}

proof fn lemma_device_rules(c: Config)
    ensures
        early_devices(c) <==> sound_devices(c),
{
    let ds = c.devices@;
    lemma_devices(c, 0);
    assert forall|i: int| #![trigger ds[i]] 0 <= i < ds.len() implies (validation::registers_problem(c, i, 0) is None <==> (forall|
        m: int,
    |
        #![trigger ds[i].registers@[m]]
        0 <= m < ds[i].registers@.len() ==> validation::register_problem(c, i, m) is None && (forall|k: int|
            0 <= k < m ==> !validation::overlap(ds[i].registers@[m], #[trigger] ds[i].registers@[k])))) by {
        lemma_registers(c, i, 0);
        assert forall|m: int| validation::overlap_problem(ds[i], m, 0) is None <==> forall|k: int|
            0 <= k < m ==> !validation::overlap(#[trigger] ds[i].registers@[m], #[trigger] ds[i].registers@[k]) by {
            lemma_overlaps(ds[i], m, 0);
        }
    }
    if early_devices(c) {
        assert forall|i: int, j: int| #![trigger ds[i], ds[j]] 0 <= i < j < ds.len() implies ds[i].name@ != ds[j].name@ by {
            assert(!validation::device_named(ds, j, ds[j].name@));
        }
        assert forall|i: int| 0 <= i < ds.len() implies sound_device(#[trigger] ds[i], c.sim.controls@.len())
            && sound_registers(ds[i].registers@) by {
            assert(validation::device_problem(c, i) is None);
            assert(validation::registers_problem(c, i, 0) is None);
            let rs = ds[i].registers@;
            assert forall|j: int| 0 <= j < rs.len() implies sound_register(#[trigger] rs[j]) by {
                assert(validation::register_problem(c, i, j) is None);
            }
            assert forall|j: int, k: int| #![trigger rs[j], rs[k]] 0 <= k < j < rs.len() implies rs[k].name@ != rs[j].name@
                && !validation::overlap(rs[j], rs[k]) by {
                assert(validation::register_problem(c, i, j) is None);
                assert(!validation::register_named(rs, j, rs[j].name@));
            }
        }
        assert forall|i: int, j: int, a: int, b: int|
            #![trigger ds[i].registers@[j], ds[a].registers@[b]]
            0 <= i < ds.len() && 0 <= j < ds[i].registers@.len() && 0 <= a < ds.len() && 0 <= b
                < ds[a].registers@.len() && (i != a || j != b) implies ds[i].registers@[j].sensor_id@
            != ds[a].registers@[b].sensor_id@ by {
            assert(validation::registers_problem(c, i, 0) is None && validation::registers_problem(c, a, 0) is None);
            assert(validation::register_problem(c, i, j) is None && validation::register_problem(c, a, b) is None);
            if i < a {
                if ds[i].registers@[j].sensor_id@ == ds[a].registers@[b].sensor_id@ {
                    assert(validation::feeds(ds[i].registers@, ds[i].registers@.len() as int, ds[a].registers@[b].sensor_id@));
                    assert(validation::fed(ds, a, ds[a].registers@[b].sensor_id@));
                }
            } else if a < i {
                if ds[i].registers@[j].sensor_id@ == ds[a].registers@[b].sensor_id@ {
                    assert(validation::feeds(ds[a].registers@, ds[a].registers@.len() as int, ds[i].registers@[j].sensor_id@));
                    assert(validation::fed(ds, i, ds[i].registers@[j].sensor_id@));
                }
            } else if j < b {
                assert(!validation::feeds(ds[a].registers@, b, ds[a].registers@[b].sensor_id@));
            } else {
                assert(!validation::feeds(ds[i].registers@, j, ds[i].registers@[j].sensor_id@));
            }
        }
    }
    if sound_devices(c) {
        assert forall|m: int| #![trigger ds[m]] 0 <= m < ds.len() implies validation::device_problem(c, m) is None && validation::registers_problem(
            c,
            m,
            0,
        ) is None by {
            assert(sound_device(ds[m], c.sim.controls@.len()));
            assert(!validation::device_named(ds, m, ds[m].name@));
            let rs = ds[m].registers@;
            assert forall|j: int| #![trigger rs[j]] 0 <= j < rs.len() implies validation::register_problem(c, m, j) is None by {
                assert(sound_register(rs[j]));
                assert(!validation::register_named(rs, j, rs[j].name@));
                if validation::feeds(rs, j, rs[j].sensor_id@) {
                    let k = choose|k: int| 0 <= k < j && #[trigger] rs[k].sensor_id@ == rs[j].sensor_id@;
                    assert(ds[m].registers@[k].sensor_id@ != ds[m].registers@[j].sensor_id@);
                }
                if validation::fed(ds, m, rs[j].sensor_id@) {
                    let a = choose|a: int|
                        0 <= a < m && #[trigger] validation::feeds(
                            ds[a].registers@,
                            ds[a].registers@.len() as int,
                            rs[j].sensor_id@,
                        );
                    let k = choose|k: int|
                        0 <= k < ds[a].registers@.len() && #[trigger] ds[a].registers@[k].sensor_id@
                            == rs[j].sensor_id@;
                    assert(ds[a].registers@[k].sensor_id@ != ds[m].registers@[j].sensor_id@);
                }
            }
        }
    }
}

/// The part of validation that concerns devices finds nothing.
spec fn early_devices(c: Config) -> bool {
    1 <= c.devices@.len() <= 64 && validation::devices_problem(c, 0) is None
}

proof fn lemma_stages(p: PipelineConfig, faults: Seq<Option<Seq<char>>>, k: int)
    requires
        0 <= k,
    ensures
        validation::stages_problem(p, faults, k) is None <==> forall|m: int|
            k <= m < p.stages@.len() ==> crate::pipeline::stage_problem(#[trigger] p.stages@[m], faults[m]) is None,
    decreases p.stages@.len() - k,
{
    if k < p.stages@.len() {
        lemma_stages(p, faults, k + 1);
        assert(p.stages@[k] == p.stages@[k]);
    }
}

proof fn lemma_pipelines(c: Config, f: FaultTexts, i: int)
    requires
        0 <= i,
    ensures
        validation::pipelines_problem(c, f, i) is None <==> forall|m: int|
            #![trigger c.pipelines@[m]]
            i <= m < c.pipelines@.len() ==> validation::pipeline_problem(c, f, m) is None,
    decreases c.pipelines@.len() - i,
{
    if i < c.pipelines@.len() {
        lemma_pipelines(c, f, i + 1);
        assert(c.pipelines@[i] == c.pipelines@[i]);
    }
}

proof fn lemma_pipeline_rules(c: Config, f: FaultTexts)
    ensures
        validation::pipelines_problem(c, f, 0) is None <==> sound_pipelines(c, f),
{
    let ps = c.pipelines@;
    lemma_pipelines(c, f, 0);
    assert forall|i: int| #![trigger ps[i]] 0 <= i < ps.len() implies (validation::stages_problem(ps[i], f.stages[i], 0) is None <==> (
    forall|k: int|
        0 <= k < ps[i].stages@.len() ==> crate::pipeline::stage_problem(#[trigger] ps[i].stages@[k], f.stages[i][k])
            is None)) by {
        lemma_stages(ps[i], f.stages[i], 0);
    }
    if validation::pipelines_problem(c, f, 0) is None {
        assert forall|i: int, j: int| #![trigger ps[i], ps[j]] 0 <= i < j < ps.len() implies ps[i].sensor_id@
            != ps[j].sensor_id@ by {
            assert(validation::pipeline_problem(c, f, j) is None);
            assert(!validation::piped(ps, j, ps[j].sensor_id@));
        }
    }
    if sound_pipelines(c, f) {
        assert forall|m: int| #![trigger ps[m]] 0 <= m < ps.len() implies validation::pipeline_problem(c, f, m) is None by {
            assert(!validation::piped(ps, m, ps[m].sensor_id@));
        }
    }
}

proof fn lemma_identities(c: Config, i: int)
    requires
        0 <= i,
    ensures
        validation::identities_problem(c, i) is None <==> forall|m: int|
            #![trigger c.computed@[m]]
            i <= m < c.computed@.len() ==> validation::identity_problem(c, m) is None,
    decreases c.computed@.len() - i,
{
    if i < c.computed@.len() {
        lemma_identities(c, i + 1);
        assert(c.computed@[i] == c.computed@[i]);
    }
}

proof fn lemma_inputs(c: Config, i: int, k: int)
    requires
        0 <= k,
    ensures
        validation::inputs_problem(c, i, k) is None <==> forall|m: int|
            k <= m < c.computed@[i].inputs@.len() ==> validation::readable_sensor(c, #[trigger] c.computed@[i].inputs@[m].1@),
    decreases c.computed@[i].inputs@.len() - k,
{
    if k < c.computed@[i].inputs@.len() {
        lemma_inputs(c, i, k + 1);
        assert(c.computed@[i].inputs@[k].1@ == c.computed@[i].inputs@[k].1@);
    }
}

proof fn lemma_computed(c: Config, f: FaultTexts, i: int)
    requires
        0 <= i,
    ensures
        validation::computed_problem(c, f, i) is None <==> forall|m: int|
            #![trigger c.computed@[m]]
            i <= m < c.computed@.len() ==> validation::inputs_problem(c, m, 0) is None && f.parsing[m] is None && f.binding[m]
                is None,
    decreases c.computed@.len() - i,
{
    if i < c.computed@.len() {
        lemma_computed(c, f, i + 1);
        assert(c.computed@[i] == c.computed@[i]);
    }
}

proof fn lemma_computed_rules(c: Config, f: FaultTexts)
    ensures
        validation::identities_problem(c, 0) is None && validation::computed_problem(c, f, 0) is None && validation::cycle_free(c.computed@)
            <==> sound_computed(c, f),
{
    let cs = c.computed@;
    lemma_identities(c, 0);
    lemma_computed(c, f, 0);
    assert forall|m: int| #![trigger cs[m]] 0 <= m < cs.len() implies (validation::inputs_problem(c, m, 0) is None <==> forall|k: int|
        0 <= k < cs[m].inputs@.len() ==> validation::readable_sensor(c, #[trigger] cs[m].inputs@[k].1@)) by {
        lemma_inputs(c, m, 0);
    }
    if validation::identities_problem(c, 0) is None && validation::computed_problem(c, f, 0) is None && validation::cycle_free(cs) {
        assert forall|i: int, j: int| #![trigger cs[i], cs[j]] 0 <= i < j < cs.len() implies cs[i].sensor_id@
            != cs[j].sensor_id@ by {
            assert(validation::identity_problem(c, j) is None);
            assert(!validation::computes(cs, j, cs[j].sensor_id@));
        }
        assert forall|i: int| 0 <= i < cs.len() implies #[trigger] sound_computed_sensor(c, f, i) by {
            assert(cs[i] == cs[i]);
        }
    }
    if sound_computed(c, f) {
        assert forall|m: int| #![trigger cs[m]] 0 <= m < cs.len() implies validation::identity_problem(c, m) is None && validation::inputs_problem(
            c,
            m,
            0,
        ) is None && f.parsing[m] is None && f.binding[m] is None by {
            assert(sound_computed_sensor(c, f, m));
            assert(!validation::computes(cs, m, cs[m].sensor_id@));
        }
    }
}

proof fn lemma_controls(c: Config, i: int)
    requires
        0 <= i,
    ensures
        validation::controls_problem(c, i) is None <==> forall|m: int|
            #![trigger c.sim.controls@[m]]
            i <= m < c.sim.controls@.len() ==> !validation::control_named(c.sim.controls@, m, c.sim.controls@[m].name@),
    decreases c.sim.controls@.len() - i,
{
    if i < c.sim.controls@.len() {
        lemma_controls(c, i + 1);
        assert(c.sim.controls@[i] == c.sim.controls@[i]);
    }
}

proof fn lemma_targets(c: Config, i: int, k: int)
    requires
        0 <= k,
    ensures
        validation::targets_problem(c, i, k) is None <==> forall|m: int|
            #![trigger c.sim.sensors@[i].inputs@[m]]
            k <= m < c.sim.sensors@[i].inputs@.len() ==> validation::control_named(
                c.sim.controls@,
                c.sim.controls@.len() as int,
                c.sim.sensors@[i].inputs@[m].1@,
            ) || validation::simulated(c.sim.sensors@, c.sim.sensors@.len() as int, c.sim.sensors@[i].inputs@[m].1@),
    decreases c.sim.sensors@[i].inputs@.len() - k,
{
    if k < c.sim.sensors@[i].inputs@.len() {
        lemma_targets(c, i, k + 1);
        assert(c.sim.sensors@[i].inputs@[k] == c.sim.sensors@[i].inputs@[k]);
    }
}

proof fn lemma_sim_sensors(c: Config, f: FaultTexts, i: int)
    requires
        0 <= i,
    ensures
        validation::sim_sensors_problem(c, f, i) is None <==> forall|m: int|
            #![trigger c.sim.sensors@[m]]
            i <= m < c.sim.sensors@.len() ==> validation::sim_sensor_problem(c, f, m) is None && validation::targets_problem(c, m, 0) is None,
    decreases c.sim.sensors@.len() - i,
{
    if i < c.sim.sensors@.len() {
        lemma_sim_sensors(c, f, i + 1);
        assert(c.sim.sensors@[i] == c.sim.sensors@[i]);
    }
}

proof fn lemma_sim_rules(c: Config, f: FaultTexts)
    ensures
        validation::late_problem(c, f) is None <==> sound_sim(c, f),
{
    let ks = c.sim.controls@;
    let ss = c.sim.sensors@;
    lemma_controls(c, 0);
    lemma_sim_sensors(c, f, 0);
    assert forall|m: int| #![trigger ss[m]] 0 <= m < ss.len() implies (validation::targets_problem(c, m, 0) is None <==> forall|k: int|
        #![trigger ss[m].inputs@[k]]
        0 <= k < ss[m].inputs@.len() ==> validation::control_named(ks, ks.len() as int, ss[m].inputs@[k].1@) || validation::simulated(
            ss,
            ss.len() as int,
            ss[m].inputs@[k].1@,
        )) by {
        lemma_targets(c, m, 0);
    }
    if validation::late_problem(c, f) is None {
        assert forall|i: int, j: int| #![trigger ks[i], ks[j]] 0 <= i < j < ks.len() implies ks[i].name@ != ks[j].name@ by {
            assert(!validation::control_named(ks, j, ks[j].name@));
        }
        assert forall|i: int, j: int| #![trigger ss[i], ss[j]] 0 <= i < j < ss.len() implies ss[i].sensor_id@
            != ss[j].sensor_id@ by {
            assert(validation::sim_sensor_problem(c, f, j) is None);
            assert(!validation::simulated(ss, j, ss[j].sensor_id@));
        }
        assert forall|i: int| 0 <= i < ss.len() implies #[trigger] sound_sim_sensor(c, f, i) by {
            assert(ss[i] == ss[i]);
        }
    }
    if sound_sim(c, f) {
        assert forall|m: int| #![trigger ks[m]] 0 <= m < ks.len() implies !validation::control_named(ks, m, ks[m].name@) by {}
        assert forall|m: int| #![trigger ss[m]] 0 <= m < ss.len() implies validation::sim_sensor_problem(c, f, m) is None
            && validation::targets_problem(c, m, 0) is None by {
            assert(sound_sim_sensor(c, f, m));
            assert(!validation::simulated(ss, m, ss[m].sensor_id@));
        }
    }
}

/// Validation passes a configuration exactly where every rule holds.
pub proof fn validation_is_exact(c: Config, f: FaultTexts, found: Option<Seq<char>>)
    requires
        validation::finding(c, f, found),
    ensures
        found is None <==> acceptable(c, f),
{
    lemma_device_rules(c);
    lemma_pipeline_rules(c, f);
    lemma_computed_rules(c, f);
    lemma_sim_rules(c, f);
}

/// The parser's answers, with a mark for every blank expression.
pub open spec fn marked_faults(c: Config, mark: Option<Seq<char>>) -> FaultTexts {
    FaultTexts {
        stages: Seq::new(
            c.pipelines@.len(),
            |i: int|
                Seq::new(
                    c.pipelines@[i].stages@.len(),
                    |k: int| validation::stage_answer(c.pipelines@[i].stages@[k], mark),
                ),
        ),
        parsing: Seq::new(c.computed@.len(), |i: int| validation::text_answer(c.computed@[i].expression@, mark)),
        binding: Seq::new(c.computed@.len(), |i: int| validation::binding_answer(c.computed@[i], mark)),
        formulas: Seq::new(c.sim.sensors@.len(), |i: int| validation::text_answer(c.sim.sensors@[i].formula@, mark)),
    }
}

/// A configuration that validation passes, without a blank expression deciding
/// it, has no blank expression.
pub proof fn an_accepted_configuration_is_readable(c: Config)
    requires
        validation::decided(c),
        acceptable(c, validation::faults_of(c)),
    ensures
        validation::readable(c),
{
    let g = validation::faults_of(c);
    let f = marked_faults(c, Some("x"@));
    assert(validation::agrees(c, g));
    assert(validation::agrees(c, f));
    assert(validation::same_finding(c, f, g));
    if validation::early_problem(c, g) is Some {
        validation_is_exact(c, g, validation::early_problem(c, g));
    }
    assert(validation::cycle_free(c.computed@));
    if validation::late_problem(c, g) is Some {
        validation_is_exact(c, g, validation::late_problem(c, g));
    }
    validation_is_exact(c, f, None);
    assert forall|i: int, k: int|
        #![trigger c.pipelines@[i].stages@[k]]
        0 <= i < c.pipelines@.len() && 0 <= k < c.pipelines@[i].stages@.len() implies crate::pipeline::stage_readable(
        c.pipelines@[i].stages@[k],
    ) by {
        assert(crate::pipeline::stage_problem(c.pipelines@[i].stages@[k], f.stages[i][k]) is None);
    }
    assert forall|i: int| 0 <= i < c.computed@.len() implies !crate::expression::blank(
        #[trigger] c.computed@[i].expression@,
    ) by {
        assert(sound_computed_sensor(c, f, i));
    }
    assert forall|i: int| 0 <= i < c.sim.sensors@.len() implies !crate::expression::blank(
        #[trigger] c.sim.sensors@[i].formula@,
    ) by {
        assert(sound_sim_sensor(c, f, i));
    }
}

} // verus!
