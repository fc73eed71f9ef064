//! The running configuration and its revision.

use vstd::prelude::*;

use crate::config::{Config, PipelineConfig, RegisterConfig};
use crate::copying::copy_config;
use crate::registration;
use crate::validation;
use crate::validity;

verus! {

/// The configuration in force. Development builds may change it; release
/// builds hold it fixed.
pub struct ConfigHandle {
    config: Config,
    /// Grows by one with every change.
    revision: u64,
    /// The file that the configuration came from.
    path: String,
    mutable: bool,
}

impl ConfigHandle {
    pub closed spec fn current(&self) -> Config {
        self.config
    }

    pub closed spec fn changes(&self) -> u64 {
        self.revision
    }

    pub closed spec fn file(&self) -> Seq<char> {
        self.path@
    }

    pub closed spec fn changeable(&self) -> bool {
        self.mutable
    }

    /// A handle on a configuration, at revision 0.
    pub fn new(config: Config, path: String, mutable: bool) -> (r: Self)
        ensures
            r.current() == config,
            r.changes() == 0,
            r.file() == path@,
            r.changeable() == mutable,
    {
        ConfigHandle { config, revision: 0, path, mutable }
    }

    /// Whether the configuration can change while the process runs.
    pub fn is_mutable(&self) -> (r: bool)
        ensures
            r == self.changeable(),
    {
        self.mutable
    }

    /// The configuration in force.
    pub fn read(&self) -> (r: &Config)
        ensures
            *r == self.current(),
    {
        &self.config
    }

    /// The number of changes so far.
    pub fn revision(&self) -> (r: u64)
        ensures
            r == self.changes(),
    {
        self.revision
    }

    /// The file that the configuration came from.
    pub fn path(&self) -> (r: &str)
        ensures
            r@ == self.file(),
    {
        self.path.as_str()
    }

    /// Puts a changed configuration in force if validation passes it, given
    /// what the parser has against its expressions.
    pub fn replace_given(&mut self, candidate: Config, faults: &validation::Faults) -> (r: Result<(), String>)
        requires
            old(self).changeable(),
            validation::answers(candidate, faults@),
        ensures
            validation::finding(candidate, faults@, validation::verdict(r)),
            r is Err ==> *final(self) == *old(self),
            r is Ok ==> {
                &&& final(self).current() == candidate
                &&& final(self).changes() == crate::store::next_write(old(self).changes())
                &&& final(self).file() == old(self).file()
                &&& final(self).changeable()
            },
    {
        match candidate.validate_given(faults) {
            Ok(()) => {
                self.config = candidate;
                self.revision = self.revision.wrapping_add(1);
                Ok(())
            },
            Err(m) => Err(m),
        }
    }

    /// Puts a changed configuration in force if validation passes it. A
    /// refused one changes neither the configuration nor its revision.
    pub fn replace(&mut self, candidate: Config) -> (r: Result<(), String>)
        requires
            old(self).changeable(),
            validation::decided(candidate),
        ensures
            validation::finding(candidate, validation::faults_of(candidate), validation::verdict(r)),
            r is Ok <==> validity::acceptable(candidate, validation::faults_of(candidate)),
            r is Err ==> *final(self) == *old(self),
            r is Ok ==> in_force(*old(self), candidate, *final(self)),
    {
        let faults = candidate.inspect();
        let ghost c = candidate;
        proof {
            assert(validation::agrees(c, validation::faults_of(c)));
            assert(validation::same_finding(c, faults@, validation::faults_of(c)));
        }
        let r = self.replace_given(candidate, &faults);
        proof {
            validity::validation_is_exact(c, validation::faults_of(c), validation::verdict(r));
            if r is Ok {
                validity::an_accepted_configuration_is_readable(c);
            }
        }
        r
    }

    /// Makes a change to a copy of the configuration, and puts the changed copy
    /// in force if the change succeeds and validation passes it. Otherwise
    /// neither the configuration nor its revision changes.
    pub fn update<F: FnOnce(Config) -> Result<Config, String>>(&mut self, f: F) -> (r: Result<(), String>)
        requires
            old(self).changeable(),
            forall|c: Config| #[trigger] crate::copying::same_config(old(self).current(), c) ==> f.requires((c,)),
            forall|c: Config, d: Config|
                crate::copying::same_config(old(self).current(), c) && #[trigger] f.ensures((c,), Ok(d)) ==> validation::decided(d),
        ensures
            updated(f, *old(self), *final(self), r),
    {
        let c = copy_config(&self.config);
        let ghost given = c;
        let changed = f(c);
        let ghost out = changed;
        assert(made(f, *old(self), given, out));
        match changed {
            Ok(d) => self.replace(d),
            Err(m) => Err(m),
        }
    }

    /// Adds a register to a device, and a pipeline for it where one is given. A
    /// refused addition changes neither the configuration nor its revision.
    pub fn add_register(
        &mut self,
        device: &str,
        register: RegisterConfig,
        pipeline: Option<PipelineConfig>,
    ) -> (r: Result<(), String>)
        requires
            old(self).changeable(),
            forall|c: Config| #[trigger]
                crate::copying::same_config(old(self).current(), c) ==> registration::addition_decided(c, device@, register, pipeline),
            forall|c: Config, d: Config|
                crate::copying::same_config(old(self).current(), c) && #[trigger] registration::registered(
                    c,
                    device@,
                    register,
                    pipeline,
                    d,
                ) ==> validation::decided(d),
        ensures
            r is Err ==> *final(self) == *old(self),
            exists|c: Config|
                {
                    &&& #[trigger] crate::copying::same_config(old(self).current(), c)
                    &&& match registration::addition_problem(
                        c,
                        device@,
                        register,
                        pipeline,
                        registration::pipeline_faults(pipeline),
                    ) {
                        Some(m) => r matches Err(e) && e@ == m,
                        None => exists|d: Config| #[trigger]
                            registration::registered(c, device@, register, pipeline, d) && validation::finding(
                                d,
                                validation::faults_of(d),
                                validation::verdict(r),
                            ) && (r is Ok ==> in_force(*old(self), d, *final(self))),
                    }
                },
    {
        let mut c = copy_config(&self.config);
        let ghost given = c;
        assert(crate::copying::same_config(old(self).current(), given));
        match c.add_register(device, register, pipeline) {
            Ok(()) => {
                let ghost d = c;
                assert(registration::registered(given, device@, register, pipeline, d));
                self.replace(c)
            },
            Err(m) => Err(m),
        }
    }
}

/// The configuration is in force, one revision later.
pub open spec fn in_force(before: ConfigHandle, candidate: Config, after: ConfigHandle) -> bool {
    &&& validation::readable(candidate)
    &&& validity::acceptable(candidate, validation::faults_of(candidate))
    &&& after.current() == candidate
    &&& after.changes() == crate::store::next_write(before.changes())
    &&& after.file() == before.file()
    &&& after.changeable()
}

/// The change was made to a copy of the configuration, and came to this.
pub open spec fn made<F: FnOnce(Config) -> Result<Config, String>>(
    f: F,
    before: ConfigHandle,
    c: Config,
    out: Result<Config, String>,
) -> bool {
    crate::copying::same_config(before.current(), c) && f.ensures((c,), out)
}

/// What an update comes to: the change is made once, to a copy of the
/// configuration. Where it fails, or leaves a configuration that validation does
/// not pass, nothing changes; otherwise the changed copy is in force.
pub open spec fn updated<F: FnOnce(Config) -> Result<Config, String>>(
    f: F,
    before: ConfigHandle,
    after: ConfigHandle,
    r: Result<(), String>,
) -> bool {
    exists|c: Config, out: Result<Config, String>|
        {
            &&& #[trigger] made(f, before, c, out)
            &&& match out {
                Err(m) => r == Err::<(), String>(m) && after == before,
                Ok(d) => {
                    &&& validation::finding(d, validation::faults_of(d), validation::verdict(r))
                    &&& r is Ok <==> validity::acceptable(d, validation::faults_of(d))
                    &&& r is Err ==> after == before
                    &&& r is Ok ==> in_force(before, d, after)
                },
            }
        }
}

/// A register can be added to a configuration without blank expressions where its
/// pipeline has none.
pub proof fn a_readable_addition_can_be_made(
    current: Config,
    device: Seq<char>,
    register: RegisterConfig,
    pipeline: Option<PipelineConfig>,
)
    requires
        validation::readable(current),
        registration::pipeline_readable(pipeline),
    ensures
        forall|c: Config| #[trigger]
            crate::copying::same_config(current, c) ==> registration::addition_decided(c, device, register, pipeline),
        forall|c: Config, d: Config|
            crate::copying::same_config(current, c) && #[trigger] registration::registered(
                c,
                device,
                register,
                pipeline,
                d,
            ) ==> validation::decided(d),
{
    assert forall|c: Config| #[trigger] crate::copying::same_config(current, c) implies registration::addition_decided(
        c,
        device,
        register,
        pipeline,
    ) by {
        registration::a_readable_addition_is_decided(c, device, register, pipeline);
    }
    assert forall|c: Config, d: Config|
        crate::copying::same_config(current, c) && #[trigger] registration::registered(
            c,
            device,
            register,
            pipeline,
            d,
        ) implies validation::decided(d) by {
        assert forall|i: int, k: int|
            #![trigger d.pipelines@[i].stages@[k]]
            0 <= i < d.pipelines@.len() && 0 <= k < d.pipelines@[i].stages@.len() implies crate::pipeline::stage_readable(
            d.pipelines@[i].stages@[k],
        ) by {
            if i < c.pipelines@.len() {
                assert(d.pipelines@[i] == c.pipelines@[i]);
                assert(crate::copying::same_pipeline(current.pipelines@[i], c.pipelines@[i]));
                assert(crate::pipeline::stage_readable(current.pipelines@[i].stages@[k]));
            }
        }
        assert forall|i: int| 0 <= i < d.computed@.len() implies !crate::expression::blank(
            #[trigger] d.computed@[i].expression@,
        ) by {
            assert(crate::computed::same_computed(current.computed@[i], c.computed@[i]));
            assert(!crate::expression::blank(current.computed@[i].expression@));
        }
        assert forall|i: int| 0 <= i < d.sim.sensors@.len() implies !crate::expression::blank(
            #[trigger] d.sim.sensors@[i].formula@,
        ) by {
            assert(crate::copying::same_sim_sensor(current.sim.sensors@[i], c.sim.sensors@[i]));
            assert(!crate::expression::blank(current.sim.sensors@[i].formula@));
        }
        validation::a_readable_configuration_is_decided(d);
    }
}

} // verus!
