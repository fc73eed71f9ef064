//! Adding a register to a running configuration.

use vstd::prelude::*;

use crate::config::{Access, Config, DeviceConfig, PipelineConfig, RegisterConfig, ValueType};
use crate::text::{decimal_text, join3, join5, same_text};
use crate::validation;
use crate::validity;

verus! {

/// The device of this name: the first one, from device `i` on.
pub open spec fn device_index(devices: Seq<DeviceConfig>, name: Seq<char>, i: int) -> Option<int>
    decreases devices.len() - i,
{
    if i >= devices.len() {
        None
    } else if devices[i].name@ == name {
        Some(i)
    } else {
        device_index(devices, name, i + 1)
    }
}

/// The first address past a register by the count that it reads.
pub open spec fn read_end(r: RegisterConfig) -> int {
    r.address + r.count_or_width()
}

/// The first address past a register that is already there, at most the last
/// address.
pub open spec fn present_end(r: RegisterConfig) -> int {
    if read_end(r) > 0xffff {
        0xffff
    } else {
        read_end(r)
    }
}

/// The first register, from `k` on, whose range the new register meets.
pub open spec fn meeting_problem(rs: Seq<RegisterConfig>, new: RegisterConfig, k: int) -> Option<Seq<char>>
    decreases rs.len() - k,
{
    if k >= rs.len() {
        None
    } else if rs[k].function == new.function && new.address < present_end(rs[k]) && rs[k].address < read_end(new) {
        Some(
            "register range "@ + validation::range_text(new.address as int, read_end(new)) + " overlaps `"@ + rs[k].name@
                + "` range "@ + validation::range_text(rs[k].address as int, present_end(rs[k])),
        )
    } else {
        meeting_problem(rs, new, k + 1)
    }
}

/// The first problem with a stage of the new pipeline, from stage `k` on.
pub open spec fn new_stages_problem(p: PipelineConfig, faults: Seq<Option<Seq<char>>>, k: int) -> Option<Seq<char>>
    decreases p.stages@.len() - k,
{
    if k >= p.stages@.len() {
        None
    } else {
        match crate::pipeline::stage_problem(p.stages@[k], faults[k]) {
            Some(m) => Some("pipeline stage: "@ + m),
            None => new_stages_problem(p, faults, k + 1),
        }
    }
}

/// What is wrong with the pipeline that comes with a register.
pub open spec fn new_pipeline_problem(
    new: RegisterConfig,
    pipeline: Option<PipelineConfig>,
    faults: Seq<Option<Seq<char>>>,
) -> Option<Seq<char>> {
    match pipeline {
        None => None,
        Some(p) => if p.sensor_id@ != new.sensor_id@ {
            Some(
                "pipeline sensor_id `"@ + p.sensor_id@ + "` must match register sensor_id `"@ + new.sensor_id@ + "`"@,
            )
        } else if p.stages@.len() == 0 {
            Some("pipeline needs at least one stage"@)
        } else {
            new_stages_problem(p, faults, 0)
        },
    }
}

/// The rules of validation that the new register has still to meet.
pub open spec fn remaining_problem(
    c: Config,
    d: DeviceConfig,
    new: RegisterConfig,
    pipeline: Option<PipelineConfig>,
) -> Option<Seq<char>> {
    if d.registers@.len() >= 256 {
        Some(
            validation::device_text(
                d.name@,
                "too many registers ("@ + crate::text::decimal((d.registers@.len() + 1) as nat) + "), max 256"@,
            ),
        )
    } else if validation::register_named(d.registers@, d.registers@.len() as int, new.name@) {
        Some(validation::device_text(d.name@, "duplicate register name `"@ + new.name@ + "`"@))
    } else if new.function.single_bit() && new.value_type != ValueType::Bool {
        Some(
            validation::register_text(
                d.name@,
                new.name@,
                "function "@ + validation::function_name(new.function) + " requires value_type = \"bool\""@,
            ),
        )
    } else if new.access == Access::ReadWrite && !new.function.writable() {
        Some(
            validation::register_text(
                d.name@,
                new.name@,
                "access = \"read_write\" is only allowed for holding/coil registers"@,
            ),
        )
    } else if new.count_or_width() != new.value_type.width() {
        Some(
            validation::register_text(
                d.name@,
                new.name@,
                "count "@ + crate::text::decimal(new.count_or_width() as nat) + " does not match value_type "@
                    + validation::value_type_name(new.value_type) + " (expected "@ + crate::text::decimal(
                    new.value_type.width() as nat,
                ) + ")"@,
            ),
        )
    } else if pipeline is Some && validation::piped(c.pipelines@, c.pipelines@.len() as int, pipeline->0.sensor_id@) {
        Some(
            "duplicate pipeline for sensor_id `"@ + pipeline->0.sensor_id@ + "` (only one pipeline per sensor)"@,
        )
    } else if pipeline is Some && pipeline->0.stages@.len() > 16 {
        Some(
            validation::pipeline_text(
                pipeline->0.sensor_id@,
                "too many stages ("@ + crate::text::decimal(pipeline->0.stages@.len()) + "), max 16"@,
            ),
        )
    } else if validation::computes(c.computed@, c.computed@.len() as int, new.sensor_id@) {
        Some("duplicate sensor_id `"@ + new.sensor_id@ + "` (computed must not collide with registers)"@)
    } else if validation::simulated(c.sim.sensors@, c.sim.sensors@.len() as int, new.sensor_id@) {
        Some("duplicate sensor_id `"@ + new.sensor_id@ + "` (sim must not collide with registers/computed)"@)
    } else {
        None
    }
}

/// What is wrong with adding the register, given what the parser has against
/// the stages of its pipeline.
pub open spec fn addition_problem(
    c: Config,
    device: Seq<char>,
    new: RegisterConfig,
    pipeline: Option<PipelineConfig>,
    faults: Seq<Option<Seq<char>>>,
) -> Option<Seq<char>> {
    if validation::fed(c.devices@, c.devices@.len() as int, new.sensor_id@) {
        Some("duplicate sensor_id `"@ + new.sensor_id@ + "` (must be unique gateway-wide)"@)
    } else {
        match device_index(c.devices@, device, 0) {
            None => Some("device `"@ + device + "` not found"@),
            Some(i) => {
                let d = c.devices@[i];
                if read_end(new) > 0xffff {
                    Some("register address overflow"@)
                } else if meeting_problem(d.registers@, new, 0) is Some {
                    meeting_problem(d.registers@, new, 0)
                } else if new_pipeline_problem(new, pipeline, faults) is Some {
                    new_pipeline_problem(new, pipeline, faults)
                } else {
                    remaining_problem(c, d, new, pipeline)
                }
            },
        }
    }
}

/// Device `b` is device `a` with one more register.
pub open spec fn with_register(a: DeviceConfig, new: RegisterConfig, b: DeviceConfig) -> bool {
    &&& b.registers@ == a.registers@.push(new)
    &&& b == (DeviceConfig { registers: b.registers, ..a })
}

/// Configuration `b` is `a` with the register on its device, and with its
/// pipeline.
pub open spec fn registered(
    a: Config,
    device: Seq<char>,
    new: RegisterConfig,
    pipeline: Option<PipelineConfig>,
    b: Config,
) -> bool {
    match device_index(a.devices@, device, 0) {
        None => false,
        Some(k) => {
            &&& b == (Config { devices: b.devices, pipelines: b.pipelines, ..a })
            &&& b.devices@.len() == a.devices@.len()
            &&& forall|i: int| 0 <= i < a.devices@.len() && i != k ==> #[trigger] b.devices@[i] == a.devices@[i]
            &&& with_register(a.devices@[k], new, b.devices@[k])
            &&& b.pipelines@ == match pipeline {
                Some(p) => a.pipelines@.push(p),
                None => a.pipelines@,
            }
        },
    }
}

/// No expression of the stages is blank.
pub open spec fn stages_readable(p: PipelineConfig) -> bool {
    forall|k: int| 0 <= k < p.stages@.len() ==> crate::pipeline::stage_readable(#[trigger] p.stages@[k])
}

/// No expression of the pipeline, where there is one, is blank.
pub open spec fn pipeline_readable(pipeline: Option<PipelineConfig>) -> bool {
    match pipeline {
        Some(p) => stages_readable(p),
        None => true,
    }
}

/// What the parser has against the stages of the pipeline.
pub open spec fn pipeline_faults(pipeline: Option<PipelineConfig>) -> Seq<Option<Seq<char>>> {
    match pipeline {
        Some(p) => p.stages@.map_values(|s: crate::config::StageConfig| crate::pipeline::stage_fault(s)),
        None => Seq::empty(),
    }
}

/// The answers agree with the parser on every stage whose expression is not
/// blank.
pub open spec fn pipeline_agrees(pipeline: Option<PipelineConfig>, f: Seq<Option<Seq<char>>>) -> bool {
    match pipeline {
        Some(p) => {
            &&& f.len() == p.stages@.len()
            &&& forall|k: int|
                0 <= k < f.len() && crate::pipeline::stage_readable(p.stages@[k]) ==> #[trigger] f[k]
                    == crate::pipeline::stage_fault(p.stages@[k])
        },
        None => true,
    }
}

/// Adding the register reaches no blank expression of its pipeline: whether it is
/// refused, and why, does not hang on an answer about one.
pub open spec fn addition_decided(
    c: Config,
    device: Seq<char>,
    new: RegisterConfig,
    pipeline: Option<PipelineConfig>,
) -> bool {
    forall|f: Seq<Option<Seq<char>>>, g: Seq<Option<Seq<char>>>|
        #[trigger] pipeline_agrees(pipeline, f) && #[trigger] pipeline_agrees(pipeline, g) ==> addition_problem(
            c,
            device,
            new,
            pipeline,
            f,
        ) == addition_problem(c, device, new, pipeline, g)
}

/// Adding a register whose pipeline has no blank expression reaches none.
pub proof fn a_readable_addition_is_decided(
    c: Config,
    device: Seq<char>,
    new: RegisterConfig,
    pipeline: Option<PipelineConfig>,
)
    requires
        pipeline_readable(pipeline),
    ensures
        addition_decided(c, device, new, pipeline),
{
    assert forall|f: Seq<Option<Seq<char>>>, g: Seq<Option<Seq<char>>>|
        #[trigger] pipeline_agrees(pipeline, f) && #[trigger] pipeline_agrees(pipeline, g) implies addition_problem(
        c,
        device,
        new,
        pipeline,
        f,
    ) == addition_problem(c, device, new, pipeline, g) by {
        if let Some(p) = pipeline {
            assert forall|k: int| 0 <= k < f.len() implies f[k] == g[k] by {
                assert(crate::pipeline::stage_readable(p.stages@[k]));
            }
            assert(f =~= g);
        }
    }
}

fn find_device(devices: &Vec<DeviceConfig>, name: &str) -> (r: Option<usize>)
    ensures
        r is Some <==> device_index(devices@, name@, 0) is Some,
        r matches Some(i) ==> i < devices@.len() && device_index(devices@, name@, 0) == Some(i as int),
{
    let mut i: usize = 0;
    while i < devices.len()
        invariant
            i <= devices@.len(),
            device_index(devices@, name@, 0) == device_index(devices@, name@, i as int),
        decreases devices@.len() - i,
    {
        if same_text(devices[i].name.as_str(), name) {
            return Some(i);
        }
        i = i + 1;
    }
    None
}

fn check_meeting(rs: &Vec<RegisterConfig>, new: &RegisterConfig, end: u16) -> (r: Result<(), String>)
    requires
        end == read_end(*new),
    ensures
        validation::verdict(r) == meeting_problem(rs@, *new, 0),
{
    let mut k: usize = 0;
    while k < rs.len()
        invariant
            k <= rs@.len(),
            end == read_end(*new),
            meeting_problem(rs@, *new, 0) == meeting_problem(rs@, *new, k as int),
        decreases rs@.len() - k,
    {
        let other = &rs[k];
        if other.function == new.function {
            let other_end: u16 = other.address.saturating_add(other.effective_count());
            if new.address < other_end && other.address < end {
                let a = validation::range_message(new.address, end);
                let b = validation::range_message(other.address, other_end);
                let mut m = join5("register range ", a.as_str(), " overlaps `", other.name.as_str(), "` range ");
                m.append(b.as_str());
                return Err(m);
            }
        }
        k = k + 1;
    }
    Ok(())
}

fn check_new_pipeline(
    new: &RegisterConfig,
    pipeline: &Option<PipelineConfig>,
    faults: &Vec<Option<String>>,
) -> (r: Result<(), String>)
    requires
        pipeline matches Some(p) ==> faults@.len() == p.stages@.len(),
    ensures
        validation::verdict(r) == new_pipeline_problem(*new, *pipeline, validation::optional_texts(faults@)),
{
    match pipeline {
        None => Ok(()),
        Some(p) => {
            if !crate::text::same_string(&p.sensor_id, &new.sensor_id) {
                return Err(
                    join5(
                        "pipeline sensor_id `",
                        p.sensor_id.as_str(),
                        "` must match register sensor_id `",
                        new.sensor_id.as_str(),
                        "`",
                    ),
                );
            }
            if p.stages.len() == 0 {
                return Err("pipeline needs at least one stage".to_owned());
            }
            let ghost f = validation::optional_texts(faults@);
            assert(new_pipeline_problem(*new, *pipeline, f) == new_stages_problem(*p, f, 0));
            let mut k: usize = 0;
            while k < p.stages.len()
                invariant
                    k <= p.stages@.len(),
                    faults@.len() == p.stages@.len(),
                    f == validation::optional_texts(faults@),
                    new_pipeline_problem(*new, *pipeline, f) == new_stages_problem(*p, f, 0),
                    new_stages_problem(*p, f, 0) == new_stages_problem(*p, f, k as int),
                decreases p.stages@.len() - k,
            {
                match crate::pipeline::validate_stage_given(&p.stages[k], &faults[k]) {
                    Ok(()) => {},
                    Err(m) => {
                        return Err(crate::text::join2("pipeline stage: ", m.as_str()));
                    },
                }
                k = k + 1;
            }
            Ok(())
        },
    }
}

fn check_remaining(c: &Config, i: usize, new: &RegisterConfig, pipeline: &Option<PipelineConfig>) -> (r: Result<(), String>)
    requires
        i < c.devices@.len(),
    ensures
        validation::verdict(r) == remaining_problem(*c, c.devices@[i as int], *new, *pipeline),
{
    let d = &c.devices[i];
    let n: usize = d.registers.len();
    if n >= 256 {
        let t = decimal_text(n as u128 + 1);
        let what = join3("too many registers (", t.as_str(), "), max 256");
        return Err(validation::device_message(&d.name, what.as_str()));
    }
    if validation::find_register_named(&d.registers, n, &new.name) {
        let what = join3("duplicate register name `", new.name.as_str(), "`");
        return Err(validation::device_message(&d.name, what.as_str()));
    }
    if new.function.is_bit() && new.value_type != ValueType::Bool {
        let what = join3("function ", validation::function_label(new.function), " requires value_type = \"bool\"");
        return Err(validation::register_message(&d.name, &new.name, what.as_str()));
    }
    if new.access == Access::ReadWrite && !new.function.is_writable() {
        return Err(
            validation::register_message(
                &d.name,
                &new.name,
                "access = \"read_write\" is only allowed for holding/coil registers",
            ),
        );
    }
    let width: u16 = new.value_type.register_count();
    let count: u16 = new.effective_count();
    if count != width {
        let a = decimal_text(count as u128);
        let b = decimal_text(width as u128);
        let mut what = join5(
            "count ",
            a.as_str(),
            " does not match value_type ",
            validation::value_type_label(new.value_type),
            " (expected ",
        );
        what.append(b.as_str());
        what.append(")");
        return Err(validation::register_message(&d.name, &new.name, what.as_str()));
    }
    match pipeline {
        Some(p) => {
            if validation::find_piped(&c.pipelines, c.pipelines.len(), &p.sensor_id) {
                return Err(
                    join3(
                        "duplicate pipeline for sensor_id `",
                        p.sensor_id.as_str(),
                        "` (only one pipeline per sensor)",
                    ),
                );
            }
            if p.stages.len() > 16 {
                let t = decimal_text(p.stages.len() as u128);
                let what = join3("too many stages (", t.as_str(), "), max 16");
                return Err(validation::pipeline_message(&p.sensor_id, what.as_str()));
            }
        },
        None => {},
    }
    if validation::find_computes(&c.computed, c.computed.len(), &new.sensor_id) {
        return Err(
            join3(
                "duplicate sensor_id `",
                new.sensor_id.as_str(),
                "` (computed must not collide with registers)",
            ),
        );
    }
    if validation::find_simulated(&c.sim.sensors, c.sim.sensors.len(), &new.sensor_id) {
        return Err(
            join3(
                "duplicate sensor_id `",
                new.sensor_id.as_str(),
                "` (sim must not collide with registers/computed)",
            ),
        );
    }
    Ok(())
}

/// What the parser has against the stages of the pipeline.
proof fn lemma_new_stages_clear(
    p: PipelineConfig,
    a: Seq<Option<Seq<char>>>,
    b: Seq<Option<Seq<char>>>,
    x: Seq<char>,
    y: Seq<char>,
    k: int,
)
    requires
        0 <= k,
        validation::stages_answered(p, a, Some(x)),
        validation::stages_answered(p, b, Some(y)),
    ensures
        new_stages_problem(p, a, k) is None <==> new_stages_problem(p, b, k) is None,
    decreases p.stages@.len() - k,
{
    if k < p.stages@.len() {
        assert(a[k] == validation::stage_answer(p.stages@[k], Some(x)));
        assert(b[k] == validation::stage_answer(p.stages@[k], Some(y)));
        lemma_new_stages_clear(p, a, b, x, y, k + 1);
    }
}

proof fn lemma_new_stages_decide(
    p: PipelineConfig,
    a: Seq<Option<Seq<char>>>,
    b: Seq<Option<Seq<char>>>,
    g: Seq<Option<Seq<char>>>,
    x: Seq<char>,
    y: Seq<char>,
    k: int,
)
    requires
        0 <= k,
        x.len() == 1,
        y.len() == 1,
        x[0] != y[0],
        validation::stages_answered(p, a, Some(x)),
        validation::stages_answered(p, b, Some(y)),
        pipeline_agrees(Some(p), g),
        new_stages_problem(p, a, k) == new_stages_problem(p, b, k),
    ensures
        new_stages_problem(p, g, k) == new_stages_problem(p, a, k),
    decreases p.stages@.len() - k,
{
    if k < p.stages@.len() {
        let s = p.stages@[k];
        assert(a[k] == validation::stage_answer(s, Some(x)) && b[k] == validation::stage_answer(s, Some(y)));
        if !crate::pipeline::stage_readable(s) {
            let text = s->expression@;
            let head = "pipeline stage: "@ + ("invalid expression `"@ + text + "`: "@);
            assert((head + x).last() == x[0] && (head + y).last() == y[0]);
            assert("pipeline stage: "@ + crate::pipeline::bad_expression(text, x) =~= head + x);
            assert("pipeline stage: "@ + crate::pipeline::bad_expression(text, y) =~= head + y);
        } else {
            assert(g[k] == crate::pipeline::stage_fault(s));
            if crate::pipeline::stage_problem(s, a[k]) is None {
                lemma_new_stages_decide(p, a, b, g, x, y, k + 1);
            }
        }
    }
}

proof fn lemma_addition_decides(
    c: Config,
    device: Seq<char>,
    new: RegisterConfig,
    pipeline: Option<PipelineConfig>,
    a: Seq<Option<Seq<char>>>,
    b: Seq<Option<Seq<char>>>,
    x: Seq<char>,
    y: Seq<char>,
)
    requires
        x.len() == 1,
        y.len() == 1,
        x[0] != y[0],
        pipeline matches Some(p) ==> validation::stages_answered(p, a, Some(x)) && validation::stages_answered(
            p,
            b,
            Some(y),
        ),
        addition_problem(c, device, new, pipeline, a) == addition_problem(c, device, new, pipeline, b),
    ensures
        addition_decided(c, device, new, pipeline),
{
    assert forall|g: Seq<Option<Seq<char>>>| #[trigger] pipeline_agrees(pipeline, g) implies addition_problem(
        c,
        device,
        new,
        pipeline,
        g,
    ) == addition_problem(c, device, new, pipeline, a) by {
        if let Some(p) = pipeline {
            lemma_new_stages_clear(p, a, b, x, y, 0);
            if new_stages_problem(p, a, 0) == new_stages_problem(p, b, 0) {
                lemma_new_stages_decide(p, a, b, g, x, y, 0);
            }
        }
    }
}

fn inspect_pipeline(pipeline: &Option<PipelineConfig>, mark: &Option<String>) -> (r: Vec<Option<String>>)
    ensures
        pipeline_agrees(*pipeline, validation::optional_texts(r@)),
        pipeline matches Some(p) ==> r@.len() == p.stages@.len() && validation::stages_answered(
            *p,
            validation::optional_texts(r@),
            crate::expression::text_of(*mark),
        ),
{
    let mut r: Vec<Option<String>> = Vec::new();
    match pipeline {
        Some(p) => {
            let mut k: usize = 0;
            while k < p.stages.len()
                invariant
                    k <= p.stages@.len(),
                    r@.len() == k,
                    forall|a: int|
                        0 <= a < k ==> crate::expression::text_of(#[trigger] r@[a]) == validation::stage_answer(
                            p.stages@[a],
                            crate::expression::text_of(*mark),
                        ),
                decreases p.stages@.len() - k,
            {
                r.push(crate::pipeline::parse_stage_marked(&p.stages[k], mark));
                k = k + 1;
            }
            proof {
                let f = validation::optional_texts(r@);
                assert forall|a: int| 0 <= a < f.len() implies #[trigger] f[a] == validation::stage_answer(
                    p.stages@[a],
                    crate::expression::text_of(*mark),
                ) by {
                    assert(f[a] == crate::expression::text_of(r@[a]));
                }
            }
        },
        None => {},
    }
    r
}

impl Config {
    /// What is wrong with adding a register to a device, given what the parser
    /// has against the stages of its pipeline.
    fn check_addition(
        &self,
        device_name: &str,
        register: &RegisterConfig,
        pipeline: &Option<PipelineConfig>,
        faults: &Vec<Option<String>>,
    ) -> (r: Result<(), String>)
        requires
            pipeline matches Some(p) ==> faults@.len() == p.stages@.len(),
        ensures
            validation::verdict(r) == addition_problem(
                *self,
                device_name@,
                *register,
                *pipeline,
                validation::optional_texts(faults@),
            ),
    {
        if validation::find_fed_before(&self.devices, self.devices.len(), &register.sensor_id) {
            return Err(
                join3("duplicate sensor_id `", register.sensor_id.as_str(), "` (must be unique gateway-wide)"),
            );
        }
        let k: usize = match find_device(&self.devices, device_name) {
            Some(i) => i,
            None => {
                return Err(join3("device `", device_name, "` not found"));
            },
        };
        let end: u16 = match register.address.checked_add(register.effective_count()) {
            Some(e) => e,
            None => {
                return Err("register address overflow".to_owned());
            },
        };
        match check_meeting(&self.devices[k].registers, register, end) {
            Ok(()) => {},
            Err(m) => {
                return Err(m);
            },
        }
        match check_new_pipeline(register, pipeline, faults) {
            Ok(()) => {},
            Err(m) => {
                return Err(m);
            },
        }
        check_remaining(self, k, register, pipeline)
    }

    /// Adds a register to a device, and a pipeline for it where one is given,
    /// provided what the parser has against the stages of that pipeline. A
    /// refused addition changes nothing.
    pub fn add_register_given(
        &mut self,
        device_name: &str,
        register: RegisterConfig,
        pipeline: Option<PipelineConfig>,
        faults: &Vec<Option<String>>,
    ) -> (r: Result<(), String>)
        requires
            pipeline matches Some(p) ==> faults@.len() == p.stages@.len(),
        ensures
            validation::verdict(r) == addition_problem(
                *old(self),
                device_name@,
                register,
                pipeline,
                validation::optional_texts(faults@),
            ),
            r is Err ==> *final(self) == *old(self),
            r is Ok ==> registered(*old(self), device_name@, register, pipeline, *final(self)),
    {
        match self.check_addition(device_name, &register, &pipeline, faults) {
            Ok(()) => {},
            Err(m) => {
                return Err(m);
            },
        }
        match find_device(&self.devices, device_name) {
            Some(k) => {
                self.devices[k].registers.push(register);
                match pipeline {
                    Some(p) => {
                        self.pipelines.push(p);
                    },
                    None => {},
                }
                Ok(())
            },
            None => vstd::pervasive::unreached(),
        }
    }

    /// Whether adding the register reaches no blank expression of its pipeline.
    pub fn is_addition_decided(
        &self,
        device_name: &str,
        register: &RegisterConfig,
        pipeline: &Option<PipelineConfig>,
    ) -> (r: bool)
        ensures
            r == addition_decided(*self, device_name@, *register, *pipeline),
    {
        let x = "x".to_owned();
        let y = "y".to_owned();
        proof {
            reveal_strlit("x");
            reveal_strlit("y");
        }
        let ghost (mx, my) = (x@, y@);
        let a = inspect_pipeline(pipeline, &Some(x));
        let b = inspect_pipeline(pipeline, &Some(y));
        let ghost (fa, fb) = (validation::optional_texts(a@), validation::optional_texts(b@));
        let same = match (
            self.check_addition(device_name, register, pipeline, &a),
            self.check_addition(device_name, register, pipeline, &b),
        ) {
            (Ok(()), Ok(())) => true,
            (Err(m), Err(n)) => crate::text::same_string(&m, &n),
            _ => false,
        };
        proof {
            assert(same == (addition_problem(*self, device_name@, *register, *pipeline, fa) == addition_problem(
                *self,
                device_name@,
                *register,
                *pipeline,
                fb,
            )));
            assert(pipeline_agrees(*pipeline, fa) && pipeline_agrees(*pipeline, fb));
            if same {
                lemma_addition_decides(*self, device_name@, *register, *pipeline, fa, fb, mx, my);
            }
        }
        same
    }

    /// Adds a register to a device, and a pipeline for it where one is given,
    /// by the rules of [`Config::validate`]. A refused addition changes
    /// nothing. No blank expression may be reached before the addition is
    /// refused.
    pub fn add_register(
        &mut self,
        device_name: &str,
        register: RegisterConfig,
        pipeline: Option<PipelineConfig>,
    ) -> (r: Result<(), String>)
        requires
            addition_decided(*old(self), device_name@, register, pipeline),
        ensures
            validation::verdict(r) == addition_problem(
                *old(self),
                device_name@,
                register,
                pipeline,
                pipeline_faults(pipeline),
            ),
            r is Err ==> *final(self) == *old(self),
            r is Ok ==> registered(*old(self), device_name@, register, pipeline, *final(self)),
    {
        let faults = inspect_pipeline(&pipeline, &None);
        assert(pipeline_agrees(pipeline, pipeline_faults(pipeline)));
        self.add_register_given(device_name, register, pipeline, &faults)
    }
}

pub(crate) proof fn lemma_device_index(devices: Seq<DeviceConfig>, name: Seq<char>, i: int)
    requires
        0 <= i,
    ensures
        device_index(devices, name, i) matches Some(k) ==> i <= k < devices.len() && devices[k].name@ == name,
    decreases devices.len() - i,
{
    if i < devices.len() {
        lemma_device_index(devices, name, i + 1);
    }
}

proof fn lemma_meeting(rs: Seq<RegisterConfig>, new: RegisterConfig, k: int)
    requires
        0 <= k,
        meeting_problem(rs, new, k) is None,
    ensures
        forall|m: int|
            #![trigger rs[m]]
            k <= m < rs.len() ==> !(rs[m].function == new.function && new.address < present_end(rs[m]) && rs[m].address
                < read_end(new)),
    decreases rs.len() - k,
{
    if k < rs.len() {
        lemma_meeting(rs, new, k + 1);
    }
}

proof fn lemma_new_stages(p: PipelineConfig, faults: Seq<Option<Seq<char>>>, k: int)
    requires
        0 <= k,
        new_stages_problem(p, faults, k) is None,
    ensures
        forall|m: int|
            k <= m < p.stages@.len() ==> crate::pipeline::stage_problem(#[trigger] p.stages@[m], faults[m]) is None,
    decreases p.stages@.len() - k,
{
    if k < p.stages@.len() {
        lemma_new_stages(p, faults, k + 1);
    }
}

/// The sensors that registers feed are the old ones and the new one.
proof fn lemma_fed(a: Config, device: Seq<char>, new: RegisterConfig, pipeline: Option<PipelineConfig>, b: Config, id: Seq<char>)
    requires
        registered(a, device, new, pipeline, b),
    ensures
        validation::fed(b.devices@, b.devices@.len() as int, id) <==> validation::fed(
            a.devices@,
            a.devices@.len() as int,
            id,
        ) || id == new.sensor_id@,
{
    lemma_device_index(a.devices@, device, 0);
    let k = device_index(a.devices@, device, 0)->0;
    let n = a.devices@.len() as int;
    let rs = a.devices@[k].registers@;
    let ts = b.devices@[k].registers@;
    if validation::fed(b.devices@, n, id) {
        let i = choose|i: int|
            0 <= i < n && #[trigger] validation::feeds(b.devices@[i].registers@, b.devices@[i].registers@.len() as int, id);
        if i != k {
            assert(b.devices@[i] == a.devices@[i]);
            assert(validation::feeds(a.devices@[i].registers@, a.devices@[i].registers@.len() as int, id));
        } else {
            let j = choose|j: int| 0 <= j < ts.len() && #[trigger] ts[j].sensor_id@ == id;
            if j < rs.len() {
                assert(rs[j] == ts[j]);
                assert(validation::feeds(a.devices@[k].registers@, a.devices@[k].registers@.len() as int, id));
            }
        }
    }
    if validation::fed(a.devices@, n, id) {
        let i = choose|i: int|
            0 <= i < n && #[trigger] validation::feeds(a.devices@[i].registers@, a.devices@[i].registers@.len() as int, id);
        if i == k {
            let j = choose|j: int| 0 <= j < rs.len() && #[trigger] rs[j].sensor_id@ == id;
            assert(ts[j] == rs[j]);
        } else {
            assert(b.devices@[i] == a.devices@[i]);
        }
        assert(validation::feeds(b.devices@[i].registers@, b.devices@[i].registers@.len() as int, id));
    }
    if id == new.sensor_id@ {
        assert(ts[rs.len() as int].sensor_id@ == id);
        assert(validation::feeds(b.devices@[k].registers@, b.devices@[k].registers@.len() as int, id));
    }
}

/// The devices keep their rules.
proof fn lemma_devices_kept(
    a: Config,
    device: Seq<char>,
    new: RegisterConfig,
    pipeline: Option<PipelineConfig>,
    b: Config,
)
    requires
        validity::sound_devices(a),
        addition_problem(a, device, new, pipeline, pipeline_faults(pipeline)) is None,
        registered(a, device, new, pipeline, b),
    ensures
        validity::sound_devices(b),
{
    lemma_device_index(a.devices@, device, 0);
    let k = device_index(a.devices@, device, 0)->0;
    let da = a.devices@;
    let db = b.devices@;
    let rs = da[k].registers@;
    let ts = db[k].registers@;
    lemma_meeting(rs, new, 0);
    assert(validity::sound_device(da[k], a.sim.controls@.len()) && validity::sound_registers(rs));
    assert forall|i: int, j: int| #![trigger db[i], db[j]] 0 <= i < j < db.len() implies db[i].name@ != db[j].name@ by {
        assert(db[i].name@ == da[i].name@ && db[j].name@ == da[j].name@);
    }
    assert(validity::sound_registers(ts)) by {
        assert forall|j: int| 0 <= j < ts.len() implies validity::sound_register(#[trigger] ts[j]) by {
            if j < rs.len() {
                assert(ts[j] == rs[j]);
            }
        }
        assert forall|j: int, m: int| #![trigger ts[j], ts[m]] 0 <= m < j < ts.len() implies ts[m].name@ != ts[j].name@
            && !validation::overlap(ts[j], ts[m]) by {
            assert(ts[m] == rs[m]);
            if j < rs.len() {
                assert(ts[j] == rs[j]);
            } else {
                assert(ts[j] == new);
                assert(validity::sound_register(rs[m]));
                assert(!validation::register_named(rs, rs.len() as int, new.name@));
            }
        }
    }
    assert forall|i: int| 0 <= i < db.len() implies validity::sound_device(#[trigger] db[i], b.sim.controls@.len())
        && validity::sound_registers(db[i].registers@) by {
        if i != k {
            assert(db[i] == da[i]);
        }
    }
    assert forall|i: int, j: int, x: int, y: int|
        #![trigger db[i].registers@[j], db[x].registers@[y]]
        0 <= i < db.len() && 0 <= j < db[i].registers@.len() && 0 <= x < db.len() && 0 <= y < db[x].registers@.len()
            && (i != x || j != y) implies db[i].registers@[j].sensor_id@ != db[x].registers@[y].sensor_id@ by {
        lemma_register_origin(a, device, new, pipeline, b, i, j);
        lemma_register_origin(a, device, new, pipeline, b, x, y);
    }
}

/// A register of the new configuration is an old one in its old place, or the
/// new one, whose sensor no old one feeds.
proof fn lemma_register_origin(
    a: Config,
    device: Seq<char>,
    new: RegisterConfig,
    pipeline: Option<PipelineConfig>,
    b: Config,
    i: int,
    j: int,
)
    requires
        addition_problem(a, device, new, pipeline, pipeline_faults(pipeline)) is None,
        registered(a, device, new, pipeline, b),
        0 <= i < b.devices@.len(),
        0 <= j < b.devices@[i].registers@.len(),
    ensures
        ({
            let k = device_index(a.devices@, device, 0)->0;
            if i == k && j == a.devices@[k].registers@.len() {
                b.devices@[i].registers@[j] == new
            } else {
                &&& j < a.devices@[i].registers@.len()
                &&& b.devices@[i].registers@[j] == a.devices@[i].registers@[j]
                &&& a.devices@[i].registers@[j].sensor_id@ != new.sensor_id@
            }
        }),
{
    lemma_device_index(a.devices@, device, 0);
    let k = device_index(a.devices@, device, 0)->0;
    if i != k {
        assert(b.devices@[i] == a.devices@[i]);
    }
    if !(i == k && j == a.devices@[k].registers@.len()) {
        if a.devices@[i].registers@[j].sensor_id@ == new.sensor_id@ {
            assert(validation::feeds(
                a.devices@[i].registers@,
                a.devices@[i].registers@.len() as int,
                new.sensor_id@,
            ));
        }
    }
}

/// A configuration that keeps every rule keeps them when a register is added.
pub proof fn addition_keeps_the_rules(
    a: Config,
    device: Seq<char>,
    new: RegisterConfig,
    pipeline: Option<PipelineConfig>,
    b: Config,
)
    requires
        validity::acceptable(a, validation::faults_of(a)),
        addition_problem(a, device, new, pipeline, pipeline_faults(pipeline)) is None,
        registered(a, device, new, pipeline, b),
    ensures
        validity::acceptable(b, validation::faults_of(b)),
{
    let fa = validation::faults_of(a);
    let fb = validation::faults_of(b);
    lemma_devices_kept(a, device, new, pipeline, b);
    assert forall|id: Seq<char>|
        #![trigger validation::fed(b.devices@, b.devices@.len() as int, id)]
        validation::fed(b.devices@, b.devices@.len() as int, id) <==> validation::fed(
            a.devices@,
            a.devices@.len() as int,
            id,
        ) || id == new.sensor_id@ by {
        lemma_fed(a, device, new, pipeline, b, id);
    }
    assert forall|id: Seq<char>| validation::sampled(a, id) implies #[trigger] validation::sampled(b, id) by {
        assert(validation::fed(b.devices@, b.devices@.len() as int, id) || validation::simulated(
            b.sim.sensors@,
            b.sim.sensors@.len() as int,
            id,
        ));
    }
    let pa = a.pipelines@;
    let pb = b.pipelines@;
    assert(validity::sound_pipelines(b, fb)) by {
        if pipeline is Some {
            lemma_new_stages(pipeline->0, pipeline_faults(pipeline), 0);
            assert(validation::fed(b.devices@, b.devices@.len() as int, new.sensor_id@));
            assert(validation::sampled(b, new.sensor_id@));
        }
        assert forall|i: int, j: int| #![trigger pb[i], pb[j]] 0 <= i < j < pb.len() implies pb[i].sensor_id@
            != pb[j].sensor_id@ by {
            assert(pb[i] == pa[i]);
            if j < pa.len() {
                assert(pb[j] == pa[j]);
            } else {
                assert(!validation::piped(pa, pa.len() as int, pb[j].sensor_id@));
            }
        }
        assert forall|i: int| #![trigger pb[i]] 0 <= i < pb.len() implies {
            &&& validation::sampled(b, pb[i].sensor_id@)
            &&& 1 <= pb[i].stages@.len() <= 16
            &&& forall|k: int|
                0 <= k < pb[i].stages@.len() ==> crate::pipeline::stage_problem(
                    #[trigger] pb[i].stages@[k],
                    fb.stages[i][k],
                ) is None
        } by {
            if i < pa.len() {
                assert(pb[i] == pa[i]);
                assert(fb.stages[i] == fa.stages[i]);
                assert(validation::sampled(a, pa[i].sensor_id@));
            } else {
                assert(fb.stages[i] == pipeline_faults(pipeline));
            }
        }
    }
    assert(validity::sound_computed(b, fb)) by {
        assert forall|i: int| 0 <= i < b.computed@.len() implies #[trigger] validity::sound_computed_sensor(b, fb, i) by {
            assert(validity::sound_computed_sensor(a, fa, i));
            let s = b.computed@[i];
            assert(fa.parsing[i] == fb.parsing[i] && fa.binding[i] == fb.binding[i]);
            assert forall|k: int| 0 <= k < s.inputs@.len() implies validation::readable_sensor(
                b,
                #[trigger] s.inputs@[k].1@,
            ) by {
                assert(validation::readable_sensor(a, s.inputs@[k].1@));
                assert(validation::sampled(a, s.inputs@[k].1@) ==> validation::sampled(b, s.inputs@[k].1@));
            }
            if s.sensor_id@ == new.sensor_id@ {
                assert(validation::computes(a.computed@, a.computed@.len() as int, new.sensor_id@));
            }
        }
    }
    assert(validity::sound_sim(b, fb)) by {
        assert forall|i: int| 0 <= i < b.sim.sensors@.len() implies #[trigger] validity::sound_sim_sensor(b, fb, i) by {
            assert(validity::sound_sim_sensor(a, fa, i));
            assert(fa.formulas[i] == fb.formulas[i]);
            if b.sim.sensors@[i].sensor_id@ == new.sensor_id@ {
                assert(validation::simulated(a.sim.sensors@, a.sim.sensors@.len() as int, new.sensor_id@));
            }
        }
    }
}

} // verus!
