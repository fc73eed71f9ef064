//! Whether a configuration can be worked with: its expressions can be handed to
//! the parser, which takes no text of white space alone, and its inputs are
//! mappings.

use vstd::prelude::*;

use crate::config::{Config, PipelineConfig, StageConfig};
use crate::evaluation::has_distinct_variables;
use crate::expression::is_blank;
use crate::sim::model::{Area, SimConfig, Storage};
use crate::text::same_string;

verus! {

/// Whether the stage's expression, where it has one, is not blank.
pub fn stage_is_readable(stage: &StageConfig) -> (r: bool)
    ensures
        r == crate::pipeline::stage_readable(*stage),
{
    match stage {
        StageConfig::Math { expression } => !is_blank(expression.as_str()),
        _ => true,
    }
}

/// Whether no expression of the pipeline is blank.
pub fn pipeline_is_readable(pipeline: &PipelineConfig) -> (r: bool)
    ensures
        r == crate::registration::stages_readable(*pipeline),
{
    let mut k: usize = 0;
    while k < pipeline.stages.len()
        invariant
            k <= pipeline.stages@.len(),
            forall|j: int| 0 <= j < k ==> crate::pipeline::stage_readable(#[trigger] pipeline.stages@[j]),
        decreases pipeline.stages@.len() - k,
    {
        if !stage_is_readable(&pipeline.stages[k]) {
            assert(!crate::pipeline::stage_readable(pipeline.stages@[k as int]));
            return false;
        }
        k = k + 1;
    }
    true
}

impl Config {
    /// Whether no expression of the configuration is blank.
    pub fn is_readable(&self) -> (r: bool)
        ensures
            r == crate::validation::readable(*self),
    {
        let mut i: usize = 0;
        while i < self.pipelines.len()
            invariant
                i <= self.pipelines@.len(),
                forall|j: int| 0 <= j < i ==> crate::registration::stages_readable(#[trigger] self.pipelines@[j]),
            decreases self.pipelines@.len() - i,
        {
            if !pipeline_is_readable(&self.pipelines[i]) {
                let ghost p = self.pipelines@[i as int];
                assert(exists|k: int|
                    0 <= k < p.stages@.len() && !crate::pipeline::stage_readable(
                        #[trigger] self.pipelines@[i as int].stages@[k],
                    ));
                return false;
            }
            i = i + 1;
        }
        let mut i: usize = 0;
        while i < self.computed.len()
            invariant
                i <= self.computed@.len(),
                forall|j: int| 0 <= j < i ==> !crate::expression::blank(#[trigger] self.computed@[j].expression@),
            decreases self.computed@.len() - i,
        {
            if is_blank(self.computed[i].expression.as_str()) {
                assert(crate::expression::blank(self.computed@[i as int].expression@));
                return false;
            }
            i = i + 1;
        }
        let mut i: usize = 0;
        while i < self.sim.sensors.len()
            invariant
                i <= self.sim.sensors@.len(),
                forall|j: int| 0 <= j < i ==> !crate::expression::blank(#[trigger] self.sim.sensors@[j].formula@),
            decreases self.sim.sensors@.len() - i,
        {
            if is_blank(self.sim.sensors[i].formula.as_str()) {
                assert(crate::expression::blank(self.sim.sensors@[i as int].formula@));
                return false;
            }
            i = i + 1;
        }
        true
    }
}

impl Config {
    /// Whether the inputs of every computed sensor are a mapping.
    pub fn has_mapped_computed(&self) -> (r: bool)
        ensures
            r == crate::computed::mapped_computed(self.computed@),
    {
        let mut i: usize = 0;
        while i < self.computed.len()
            invariant
                i <= self.computed@.len(),
                forall|j: int|
                    0 <= j < i ==> crate::evaluation::distinct_variables((#[trigger] self.computed@[j]).inputs@),
            decreases self.computed@.len() - i,
        {
            if !has_distinct_variables(&self.computed[i].inputs) {
                assert(!crate::evaluation::distinct_variables(self.computed@[i as int].inputs@));
                return false;
            }
            i = i + 1;
        }
        true
    }

    /// Whether every simulated sensor has its own id, and its inputs are a
    /// mapping.
    pub fn has_sound_sensors(&self) -> (r: bool)
        ensures
            r == crate::simulation::sound_sensors(self.sim.sensors@),
    {
        let sensors = &self.sim.sensors;
        let mut j: usize = 0;
        while j < sensors.len()
            invariant
                j <= sensors@.len(),
                *sensors == self.sim.sensors,
                forall|a: int, b: int|
                    #![trigger sensors@[a], sensors@[b]]
                    0 <= a < b < j ==> sensors@[a].sensor_id@ != sensors@[b].sensor_id@,
                forall|a: int|
                    0 <= a < j ==> crate::evaluation::distinct_variables((#[trigger] sensors@[a]).inputs@),
            decreases sensors@.len() - j,
        {
            if !has_distinct_variables(&sensors[j].inputs) {
                assert(!crate::evaluation::distinct_variables(sensors@[j as int].inputs@));
                return false;
            }
            let mut i: usize = 0;
            while i < j
                invariant
                    i <= j < sensors@.len(),
                    *sensors == self.sim.sensors,
                    forall|a: int| 0 <= a < i ==> (#[trigger] sensors@[a]).sensor_id@ != sensors@[j as int].sensor_id@,
                decreases j - i,
            {
                if same_string(&sensors[i].sensor_id, &sensors[j].sensor_id) {
                    assert(sensors@[i as int].sensor_id@ == sensors@[j as int].sensor_id@);
                    return false;
                }
                i = i + 1;
            }
            j = j + 1;
        }
        true
    }
}

impl SimConfig {
    /// Whether every sensor has its own id, and its inputs are a mapping.
    pub fn has_sound_sensors(&self) -> (r: bool)
        ensures
            r == crate::sim::model::sound_sensors(self.all_sensors()),
    {
        let list = self.iter_sensors();
        let mut j: usize = 0;
        while j < list.len()
            invariant
                j <= list@.len(),
                crate::sim::model::refers(list@, self.all_sensors()),
                forall|a: int, b: int|
                    #![trigger self.all_sensors()[a], self.all_sensors()[b]]
                    0 <= a < b < j ==> self.all_sensors()[a].sensor_id@ != self.all_sensors()[b].sensor_id@,
                forall|a: int|
                    0 <= a < j ==> crate::evaluation::distinct_variables((#[trigger] self.all_sensors()[a]).inputs@),
            decreases list@.len() - j,
        {
            assert(*list@[j as int] == self.all_sensors()[j as int]);
            if !has_distinct_variables(&list[j].inputs) {
                return false;
            }
            let mut i: usize = 0;
            while i < j
                invariant
                    i <= j < list@.len(),
                    crate::sim::model::refers(list@, self.all_sensors()),
                    forall|a: int|
                        0 <= a < i ==> (#[trigger] self.all_sensors()[a]).sensor_id@
                            != self.all_sensors()[j as int].sensor_id@,
                decreases j - i,
            {
                assert(*list@[i as int] == self.all_sensors()[i as int]);
                assert(*list@[j as int] == self.all_sensors()[j as int]);
                if same_string(&list[i].sensor_id, &list[j].sensor_id) {
                    return false;
                }
                i = i + 1;
            }
            j = j + 1;
        }
        true
    }

    /// Whether no formula is blank.
    pub fn is_readable(&self) -> (r: bool)
        ensures
            r == crate::sim::rules::readable(*self),
    {
        let list = self.iter_sensors();
        let mut i: usize = 0;
        while i < list.len()
            invariant
                i <= list@.len(),
                crate::sim::model::refers(list@, self.all_sensors()),
                forall|j: int|
                    0 <= j < i ==> !crate::expression::blank((#[trigger] self.all_sensors()[j]).formula@),
            decreases list@.len() - i,
        {
            assert(*list@[i as int] == self.all_sensors()[i as int]);
            if is_blank(list[i].formula.as_str()) {
                return false;
            }
            i = i + 1;
        }
        true
    }

    /// Whether no encoding that is in use is blank.
    pub fn is_encodable(&self) -> (r: bool)
        ensures
            r == crate::sim::registers::encodable(*self),
    {
        let list = self.iter_sensors();
        let mut i: usize = 0;
        while i < list.len()
            invariant
                i <= list@.len(),
                crate::sim::model::refers(list@, self.all_sensors()),
                forall|j: int|
                    0 <= j < i && crate::sim::registers::stores_integer(#[trigger] self.all_sensors()[j]) ==> (
                    self.all_sensors()[j].encode matches Some(e) ==> !crate::expression::blank(e@)),
            decreases list@.len() - i,
        {
            let s = list[i];
            assert(*s == self.all_sensors()[i as int]);
            if s.storage == Storage::U16 && s.area != Area::Coils {
                if let Some(e) = &s.encode {
                    if is_blank(e.as_str()) {
                        assert(crate::sim::registers::stores_integer(self.all_sensors()[i as int]));
                        return false;
                    }
                }
            }
            i = i + 1;
        }
        true
    }

    /// Whether the settings are small enough for every address to be counted.
    pub fn is_addressable(&self) -> (r: bool)
        ensures
            r == crate::sim::registers::addressable(*self),
    {
        let items: u128 = self.controls.len() as u128 + self.iter_sensors().len() as u128;
        2 * items + 0x1_0001 <= usize::MAX as u128
    }
}

} // verus!
