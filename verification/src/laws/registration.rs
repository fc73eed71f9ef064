//! Registers that are added to a running gateway, and configurations that
//! replace others.

use vstd::prelude::*;

use crate::config::{
    Access, Config, DeviceConfig, PipelineConfig, RegisterConfig, RegisterFunction, ValueType,
};
use crate::config_handle::ConfigHandle;

verus! {

/// The addresses that a register is read from: as many as it says, or as its
/// type takes.
pub open spec fn read_from(r: RegisterConfig, address: int) -> bool {
    r.address <= address < r.address + (match r.count {
        Some(n) => n as int,
        None => crate::laws::validation::span(r.value_type),
    })
}

/// Two registers of one space are read from a common address, below the last one.
pub open spec fn meet(a: RegisterConfig, b: RegisterConfig) -> bool {
    a.function == b.function && exists|x: int| x < 65535 && #[trigger] read_from(a, x) && read_from(b, x)
}

proof fn lemma_meet(old_one: RegisterConfig, new: RegisterConfig)
    requires
        crate::registration::read_end(new) <= 0xffff,
        new.count is None || new.count->0 > 0,
        old_one.count is None || old_one.count->0 > 0,
    ensures
        meet(old_one, new) <==> (old_one.function == new.function && new.address < crate::registration::present_end(
            old_one,
        ) && old_one.address < crate::registration::read_end(new)),
{
    if old_one.function == new.function && new.address < crate::registration::present_end(old_one) && old_one.address
        < crate::registration::read_end(new) {
        let x: int = if new.address < old_one.address {
            old_one.address as int
        } else {
            new.address as int
        };
        assert(read_from(old_one, x) && read_from(new, x));
    }
}

/// A register meets none of those of the device exactly where no address is read
/// for it and for another one; else the first that it meets is named, with both
/// ranges.
pub proof fn a_new_register_meets_no_other(rs: Seq<RegisterConfig>, new: RegisterConfig, i: int)
    requires
        0 <= i <= rs.len(),
        crate::registration::read_end(new) <= 0xffff,
        new.count is None || new.count->0 > 0,
        forall|k: int| 0 <= k < rs.len() ==> (#[trigger] rs[k]).count is None || rs[k].count->0 > 0,
    ensures
        crate::registration::meeting_problem(rs, new, i) is None <==> forall|k: int|
            i <= k < rs.len() ==> !meet(#[trigger] rs[k], new),
        forall|k: int|
            i <= k < rs.len() && meet(#[trigger] rs[k], new) && (forall|j: int|
                i <= j < k ==> !meet(#[trigger] rs[j], new)) ==> crate::registration::meeting_problem(rs, new, i)
                == Some(
                "register range "@ + ("["@ + crate::text::decimal(new.address as nat) + ", "@ + crate::text::decimal(
                    crate::registration::read_end(new) as nat,
                ) + ")"@) + " overlaps `"@ + rs[k].name@ + "` range "@ + ("["@ + crate::text::decimal(
                    rs[k].address as nat,
                ) + ", "@ + crate::text::decimal(crate::registration::present_end(rs[k]) as nat) + ")"@),
            ),
    decreases rs.len() - i,
{
    if i < rs.len() {
        a_new_register_meets_no_other(rs, new, i + 1);
        lemma_meet(rs[i], new);
        assert(rs[i] == rs[i]);
    }
}

/// What is wrong with an addition is said, the first of these faults alone: the
/// sensor, the device, the addresses, the pipeline.
pub proof fn faults_of_an_addition_are_told(
    c: Config,
    device: Seq<char>,
    new: RegisterConfig,
    pipeline: Option<PipelineConfig>,
    faults: Seq<Option<Seq<char>>>,
    k: int,
)
    requires
        0 <= k <= c.devices@.len(),
        forall|j: int| 0 <= j < k ==> (#[trigger] c.devices@[j]).name@ != device,
        k < c.devices@.len() ==> c.devices@[k].name@ == device,
    ensures
        ({
            let found = crate::registration::addition_problem(c, device, new, pipeline, faults);
            let taken = crate::laws::validation::has_register(c, new.sensor_id@);
            let there = !taken && k < c.devices@.len();
            let end = new.address + (match new.count {
                Some(n) => n as int,
                None => crate::laws::validation::span(new.value_type),
            });
            let placed = there && end <= 65535 && crate::registration::meeting_problem(
                c.devices@[k].registers@,
                new,
                0,
            ) is None;
            &&& (taken ==> found == Some(
                "duplicate sensor_id `"@ + new.sensor_id@ + "` (must be unique gateway-wide)"@,
            ))
            &&& (!taken && k == c.devices@.len() ==> found == Some("device `"@ + device + "` not found"@))
            &&& (there && end > 65535 ==> found == Some("register address overflow"@))
            &&& ((placed && pipeline is Some && pipeline->0.sensor_id@ != new.sensor_id@) ==> found == Some(
                "pipeline sensor_id `"@ + pipeline->0.sensor_id@ + "` must match register sensor_id `"@ + new.sensor_id@
                    + "`"@,
            ))
            &&& ((placed && pipeline is Some && pipeline->0.sensor_id@ == new.sensor_id@ && pipeline->0.stages@.len()
                == 0) ==> found == Some("pipeline needs at least one stage"@))
            &&& ((placed && pipeline is Some && pipeline->0.sensor_id@ == new.sensor_id@ && pipeline->0.stages@.len() > 0
                && crate::pipeline::stage_problem(pipeline->0.stages@[0], faults[0]) is Some) ==> found == Some(
                "pipeline stage: "@ + crate::pipeline::stage_problem(pipeline->0.stages@[0], faults[0])->0,
            ))
        }),
{
    crate::laws::validation::lemma_known(c, new.sensor_id@);
    lemma_device_at(c.devices@, device, k, 0);
}

/// What is wrong with a register or a pipeline beside those that are there is said
/// with the device, the first of these faults alone: the number of registers, the
/// name, the space, the count, the pipelines, the ids of other sensors.
pub proof fn further_faults_of_an_addition_are_told(
    c: Config,
    d: DeviceConfig,
    new: RegisterConfig,
    pipeline: Option<PipelineConfig>,
)
    ensures
        ({
            let found = crate::registration::remaining_problem(c, d, new, pipeline);
            let prefix = "device `"@ + d.name@ + "`: "@;
            let register = "device `"@ + d.name@ + "` register `"@ + new.name@ + "`: "@;
            let named = exists|j: int| 0 <= j < d.registers@.len() && #[trigger] d.registers@[j].name@ == new.name@;
            let bit = new.function == RegisterFunction::Coil || new.function == RegisterFunction::DiscreteInput;
            let input = new.function == RegisterFunction::Input || new.function == RegisterFunction::DiscreteInput;
            let room = d.registers@.len() < 256 && !named;
            let typed = room && (bit ==> new.value_type == ValueType::Bool);
            let open = typed && !(input && new.access == Access::ReadWrite);
            let counted = open && (new.count matches Some(n) ==> n == crate::laws::validation::span(new.value_type));
            let again = pipeline is Some && exists|i: int|
                0 <= i < c.pipelines@.len() && #[trigger] c.pipelines@[i].sensor_id@ == pipeline->0.sensor_id@;
            let long = pipeline is Some && pipeline->0.stages@.len() > 16;
            let piped = counted && !again && !long;
            &&& (d.registers@.len() >= 256 ==> found == Some(
                prefix + ("too many registers ("@ + crate::text::decimal((d.registers@.len() + 1) as nat)
                    + "), max 256"@),
            ))
            &&& (d.registers@.len() < 256 && named ==> found == Some(
                prefix + ("duplicate register name `"@ + new.name@ + "`"@),
            ))
            &&& (room && bit && new.value_type != ValueType::Bool ==> found == Some(
                register + ("function "@ + crate::validation::function_name(new.function)
                    + " requires value_type = \"bool\""@),
            ))
            &&& (typed && input && new.access == Access::ReadWrite ==> found == Some(
                register + "access = \"read_write\" is only allowed for holding/coil registers"@,
            ))
            &&& ((open && (new.count matches Some(n) && n != crate::laws::validation::span(new.value_type))) ==> found
                == Some(
                register + ("count "@ + crate::text::decimal(new.count->0 as nat) + " does not match value_type "@
                    + crate::validation::value_type_name(new.value_type) + " (expected "@ + crate::text::decimal(
                    crate::laws::validation::span(new.value_type) as nat,
                ) + ")"@),
            ))
            &&& (counted && again ==> found == Some(
                "duplicate pipeline for sensor_id `"@ + pipeline->0.sensor_id@ + "` (only one pipeline per sensor)"@,
            ))
            &&& (counted && !again && long ==> found == Some(
                "pipeline for `"@ + pipeline->0.sensor_id@ + "`: "@ + ("too many stages ("@ + crate::text::decimal(
                    pipeline->0.stages@.len(),
                ) + "), max 16"@),
            ))
            &&& (piped && crate::laws::validation::is_computed(c, new.sensor_id@) ==> found == Some(
                "duplicate sensor_id `"@ + new.sensor_id@ + "` (computed must not collide with registers)"@,
            ))
            &&& (piped && !crate::laws::validation::is_computed(c, new.sensor_id@)
                && crate::laws::validation::is_simulated(c, new.sensor_id@) ==> found == Some(
                "duplicate sensor_id `"@ + new.sensor_id@ + "` (sim must not collide with registers/computed)"@,
            ))
            &&& (piped && !crate::laws::validation::is_computed(c, new.sensor_id@)
                && !crate::laws::validation::is_simulated(c, new.sensor_id@) ==> found is None)
        }),
{
    crate::laws::validation::lemma_known(c, new.sensor_id@);
}

/// What passes is in order: the device is there, its registers stay 256 at most
/// and of different names, the register fits its space, and no sensor of the
/// gateway has its id.
pub proof fn a_passed_addition_is_in_order(
    c: Config,
    device: Seq<char>,
    new: RegisterConfig,
    pipeline: Option<PipelineConfig>,
    faults: Seq<Option<Seq<char>>>,
)
    requires
        crate::registration::addition_problem(c, device, new, pipeline, faults) is None,
    ensures
        exists|k: int| #![trigger c.devices@[k]]
            {
                &&& 0 <= k < c.devices@.len()
                &&& c.devices@[k].name@ == device
                &&& c.devices@[k].registers@.len() < 256
                &&& forall|j: int|
                    0 <= j < c.devices@[k].registers@.len() ==> (#[trigger] c.devices@[k].registers@[j]).name@ != new.name@
            },
        crate::laws::validation::fitting(new),
        !crate::laws::validation::has_register(c, new.sensor_id@),
        !crate::laws::validation::is_computed(c, new.sensor_id@),
        !crate::laws::validation::is_simulated(c, new.sensor_id@),
        pipeline matches Some(p) ==> p.sensor_id@ == new.sensor_id@ && 1 <= p.stages@.len() <= 16,
        pipeline is Some ==> forall|i: int|
            0 <= i < c.pipelines@.len() ==> (#[trigger] c.pipelines@[i]).sensor_id@ != new.sensor_id@,
{
    crate::laws::validation::lemma_known(c, new.sensor_id@);
    crate::registration::lemma_device_index(c.devices@, device, 0);
    let k = crate::registration::device_index(c.devices@, device, 0)->0;
    let rs = c.devices@[k].registers@;
    assert forall|j: int| 0 <= j < rs.len() implies (#[trigger] rs[j]).name@ != new.name@ by {
        assert(!crate::validation::register_named(rs, rs.len() as int, new.name@));
    }
    if let Some(p) = pipeline {
        assert forall|i: int| 0 <= i < c.pipelines@.len() implies (#[trigger] c.pipelines@[i]).sensor_id@
            != new.sensor_id@ by {
            assert(!crate::validation::piped(c.pipelines@, c.pipelines@.len() as int, p.sensor_id@));
            assert(c.pipelines@[i].sensor_id@ != p.sensor_id@);
        }
    }
    assert(c.devices@[k] == c.devices@[k]);
}

proof fn lemma_device_at(devices: Seq<DeviceConfig>, name: Seq<char>, k: int, i: int)
    requires
        0 <= i <= k <= devices.len(),
        forall|j: int| i <= j < k ==> (#[trigger] devices[j]).name@ != name,
        k < devices.len() ==> devices[k].name@ == name,
    ensures
        crate::registration::device_index(devices, name, i) == (if k < devices.len() {
            Some(k)
        } else {
            None
        }),
    decreases k - i,
{
    if i < k {
        lemma_device_at(devices, name, k, i + 1);
    }
}

/// An added register is the last of its device, as it was given, and an added
/// pipeline the last of the pipelines. Nothing else of the configuration changes.
pub proof fn an_added_register_stands_last(
    a: Config,
    device: Seq<char>,
    new: RegisterConfig,
    pipeline: Option<PipelineConfig>,
    b: Config,
    k: int,
)
    requires
        crate::registration::registered(a, device, new, pipeline, b),
        0 <= k < a.devices@.len(),
        a.devices@[k].name@ == device,
        forall|j: int| 0 <= j < k ==> (#[trigger] a.devices@[j]).name@ != device,
    ensures
        b.devices@.len() == a.devices@.len(),
        b.devices@[k].registers@.len() == a.devices@[k].registers@.len() + 1,
        b.devices@[k].registers@.last() == new,
        b.devices@[k].registers@.drop_last() == a.devices@[k].registers@,
        b.devices@[k].name == a.devices@[k].name,
        b.devices@[k].host == a.devices@[k].host,
        b.devices@[k].port == a.devices@[k].port,
        b.devices@[k].transport == a.devices@[k].transport,
        b.devices@[k].unit_id == a.devices@[k].unit_id,
        b.devices@[k].poll_interval_ms == a.devices@[k].poll_interval_ms,
        forall|i: int| 0 <= i < a.devices@.len() && i != k ==> #[trigger] b.devices@[i] == a.devices@[i],
        pipeline is None ==> b.pipelines@ == a.pipelines@,
        pipeline matches Some(p) ==> b.pipelines@.len() == a.pipelines@.len() + 1 && b.pipelines@.last() == p
            && b.pipelines@.drop_last() == a.pipelines@,
        b.computed == a.computed,
        b.sim == a.sim,
        b.general == a.general,
        b.endpoints == a.endpoints,
{
    lemma_device_at(a.devices@, device, k, 0);
    assert(b.devices@[k].registers@.drop_last() =~= a.devices@[k].registers@);
    if let Some(p) = pipeline {
        assert(b.pipelines@.drop_last() =~= a.pipelines@);
    }
}

/// A configuration that is put in force is the one that is read, one revision
/// later; the file and whether it can be changed stay.
pub proof fn a_new_configuration_is_read(before: ConfigHandle, candidate: Config, after: ConfigHandle)
    requires
        crate::config_handle::in_force(before, candidate, after),
        before.changes() < u64::MAX,
    ensures
        after.current() == candidate,
        after.changes() == before.changes() + 1,
        after.file() == before.file(),
        after.changeable(),
{
}

/// An update makes its change to a copy of what is in force. Where the change
/// fails, its message comes back and nothing changes; a changed copy that breaks a
/// rule changes nothing either; one that keeps them is in force.
pub proof fn an_update_takes_effect_or_none<F: FnOnce(Config) -> Result<Config, String>>(
    f: F,
    before: ConfigHandle,
    after: ConfigHandle,
    r: Result<(), String>,
)
    requires
        crate::config_handle::updated(f, before, after, r),
        before.changes() < u64::MAX,
    ensures
        r is Err ==> after == before,
        r is Ok ==> after.changes() == before.changes() + 1 && after.file() == before.file() && (exists|
            c: Config,
        |
            #![trigger crate::copying::same_config(before.current(), c)]
            crate::copying::same_config(before.current(), c) && f.ensures((c,), Ok(after.current())))
            && crate::laws::validation::devices_in_order(after.current()),
{
    let (c, out) = choose|c: Config, out: Result<Config, String>|
        {
            &&& #[trigger] crate::config_handle::made(f, before, c, out)
            &&& match out {
                Err(m) => r == Err::<(), String>(m) && after == before,
                Ok(d) => {
                    &&& crate::validation::finding(d, crate::validation::faults_of(d), crate::validation::verdict(r))
                    &&& r is Ok <==> crate::validity::acceptable(d, crate::validation::faults_of(d))
                    &&& r is Err ==> after == before
                    &&& r is Ok ==> crate::config_handle::in_force(before, d, after)
                },
            }
        };
    if r is Ok {
        let d = out->Ok_0;
        assert(crate::copying::same_config(before.current(), c));
        crate::laws::validation::what_is_accepted_keeps_the_rules(d, crate::validation::faults_of(d));
    }
}

/// A handle begins at revision zero with the configuration, the file and the
/// permission that it is given.
pub proof fn a_handle_begins_with_its_configuration(
    config: Config,
    path: String,
    mutable: bool,
    h: ConfigHandle,
    read: &Config,
    revision: u64,
    file: &str,
    changeable: bool,
)
    requires
        call_ensures(ConfigHandle::new, (config, path, mutable), h),
        call_ensures(ConfigHandle::read, (&h,), read),
        call_ensures(ConfigHandle::revision, (&h,), revision),
        call_ensures(ConfigHandle::path, (&h,), file),
        call_ensures(ConfigHandle::is_mutable, (&h,), changeable),
    ensures
        *read == config,
        revision == 0,
        file@ == path@,
        changeable == mutable,
{
}

} // verus!
