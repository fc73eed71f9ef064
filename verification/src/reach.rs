//! Whether validation reaches a blank expression, which the parser does not
//! take.

use vstd::prelude::*;

use crate::config::{Config, PipelineConfig};
use crate::text::same_string;
use crate::validation;
use crate::validation::FaultTexts;

verus! {

/// Two texts with different last characters differ.
proof fn lemma_ends_differ(a: Seq<char>, b: Seq<char>, x: Seq<char>, y: Seq<char>)
    requires
        x.len() == 1,
        y.len() == 1,
        x[0] != y[0],
    ensures
        a + x != b + y,
{
    assert((a + x).last() == x[0]);
    assert((b + y).last() == y[0]);
}

proof fn lemma_stages(
    p: PipelineConfig,
    a: Seq<Option<Seq<char>>>,
    b: Seq<Option<Seq<char>>>,
    g: Seq<Option<Seq<char>>>,
    x: Seq<char>,
    y: Seq<char>,
    k: int,
)
    requires
        0 <= k,
        x.len() == 1,
        y.len() == 1,
        x[0] != y[0],
        validation::stages_answered(p, a, Some(x)),
        validation::stages_answered(p, b, Some(y)),
        forall|m: int|
            0 <= m < p.stages@.len() && crate::pipeline::stage_readable(p.stages@[m]) ==> #[trigger] g[m]
                == crate::pipeline::stage_fault(p.stages@[m]),
        validation::stages_problem(p, a, k) == validation::stages_problem(p, b, k),
    ensures
        validation::stages_problem(p, g, k) == validation::stages_problem(p, a, k),
    decreases p.stages@.len() - k,
{
    if k < p.stages@.len() {
        let s = p.stages@[k];
        assert(a[k] == validation::stage_answer(s, Some(x)) && b[k] == validation::stage_answer(s, Some(y)));
        if !crate::pipeline::stage_readable(s) {
            let text = s->expression@;
            let head = "pipeline for `"@ + p.sensor_id@ + "`: "@;
            let body = "invalid expression `"@ + text + "`: "@;
            lemma_ends_differ(head + body, head + body, x, y);
            assert(validation::pipeline_text(p.sensor_id@, crate::pipeline::bad_expression(text, x)) =~= head + body + x);
            assert(validation::pipeline_text(p.sensor_id@, crate::pipeline::bad_expression(text, y)) =~= head + body + y);
        } else {
            assert(g[k] == crate::pipeline::stage_fault(s));
            if crate::pipeline::stage_problem(s, a[k]) is None {
                lemma_stages(p, a, b, g, x, y, k + 1);
            }
        }
    }
}

proof fn lemma_pipelines(c: Config, a: FaultTexts, b: FaultTexts, g: FaultTexts, x: Seq<char>, y: Seq<char>, i: int)
    requires
        0 <= i,
        x.len() == 1,
        y.len() == 1,
        x[0] != y[0],
        validation::marked(c, a, Some(x)),
        validation::marked(c, b, Some(y)),
        validation::agrees(c, g),
        validation::pipelines_problem(c, a, i) == validation::pipelines_problem(c, b, i),
    ensures
        validation::pipelines_problem(c, g, i) == validation::pipelines_problem(c, a, i),
    decreases c.pipelines@.len() - i,
{
    if i < c.pipelines@.len() {
        let p = c.pipelines@[i];
        assert(validation::stages_answered(p, a.stages[i], Some(x)));
        assert(validation::stages_answered(p, b.stages[i], Some(y)));
        assert forall|m: int| 0 <= m < p.stages@.len() && crate::pipeline::stage_readable(p.stages@[m]) implies #[trigger] g.stages[i][m]
            == crate::pipeline::stage_fault(p.stages@[m]) by {
            assert(g.stages[i][m] == validation::faults_of(c).stages[i][m]);
        }
        lemma_same_when_clear(p, a.stages[i], b.stages[i], x, y, 0);
        if validation::stages_problem(p, a.stages[i], 0) == validation::stages_problem(p, b.stages[i], 0) {
            lemma_stages(p, a.stages[i], b.stages[i], g.stages[i], x, y, 0);
        }
        if validation::pipeline_problem(c, a, i) is None {
            lemma_pipelines(c, a, b, g, x, y, i + 1);
        }
    }
}

/// A pipeline has a problem by one mark exactly where it has one by the other.
proof fn lemma_same_when_clear(
    p: PipelineConfig,
    a: Seq<Option<Seq<char>>>,
    b: Seq<Option<Seq<char>>>,
    x: Seq<char>,
    y: Seq<char>,
    k: int,
)
    requires
        0 <= k,
        validation::stages_answered(p, a, Some(x)),
        validation::stages_answered(p, b, Some(y)),
    ensures
        validation::stages_problem(p, a, k) is None <==> validation::stages_problem(p, b, k) is None,
    decreases p.stages@.len() - k,
{
    if k < p.stages@.len() {
        assert(a[k] == validation::stage_answer(p.stages@[k], Some(x)));
        assert(b[k] == validation::stage_answer(p.stages@[k], Some(y)));
        lemma_same_when_clear(p, a, b, x, y, k + 1);
    }
}

proof fn lemma_computed(c: Config, a: FaultTexts, b: FaultTexts, g: FaultTexts, x: Seq<char>, y: Seq<char>, i: int)
    requires
        0 <= i,
        x.len() == 1,
        y.len() == 1,
        x[0] != y[0],
        validation::marked(c, a, Some(x)),
        validation::marked(c, b, Some(y)),
        validation::agrees(c, g),
        validation::computed_problem(c, a, i) == validation::computed_problem(c, b, i),
    ensures
        validation::computed_problem(c, g, i) == validation::computed_problem(c, a, i),
    decreases c.computed@.len() - i,
{
    if i < c.computed@.len() && validation::inputs_problem(c, i, 0) is None {
        let s = c.computed@[i];
        assert(a.parsing[i] == validation::text_answer(s.expression@, Some(x)));
        assert(b.parsing[i] == validation::text_answer(s.expression@, Some(y)));
        assert(a.binding[i] == validation::binding_answer(s, Some(x)));
        assert(b.binding[i] == validation::binding_answer(s, Some(y)));
        if crate::expression::blank(s.expression@) {
            let head = "computed `"@ + s.sensor_id@ + "`: "@;
            let body = "invalid expression `"@ + s.expression@ + "`: "@;
            lemma_ends_differ(head + body, head + body, x, y);
            assert(validation::computed_text(s.sensor_id@, crate::pipeline::bad_expression(s.expression@, x)) =~= head
                + body + x);
            assert(validation::computed_text(s.sensor_id@, crate::pipeline::bad_expression(s.expression@, y)) =~= head
                + body + y);
        } else {
            assert(g.parsing[i] == validation::faults_of(c).parsing[i]);
            assert(g.binding[i] == validation::faults_of(c).binding[i]);
            if validation::formula_problem(c, a, i) is None {
                lemma_computed(c, a, b, g, x, y, i + 1);
            }
        }
    }
}

proof fn lemma_sim(c: Config, a: FaultTexts, b: FaultTexts, g: FaultTexts, x: Seq<char>, y: Seq<char>, i: int)
    requires
        0 <= i,
        x.len() == 1,
        y.len() == 1,
        x[0] != y[0],
        validation::marked(c, a, Some(x)),
        validation::marked(c, b, Some(y)),
        validation::agrees(c, g),
        validation::sim_sensors_problem(c, a, i) == validation::sim_sensors_problem(c, b, i),
    ensures
        validation::sim_sensors_problem(c, g, i) == validation::sim_sensors_problem(c, a, i),
    decreases c.sim.sensors@.len() - i,
{
    if i < c.sim.sensors@.len() {
        let s = c.sim.sensors@[i];
        assert(a.formulas[i] == validation::text_answer(s.formula@, Some(x)));
        assert(b.formulas[i] == validation::text_answer(s.formula@, Some(y)));
        if crate::expression::blank(s.formula@) {
            let head = "sim sensor `"@ + s.sensor_id@ + "`: "@;
            let body = "invalid formula `"@ + s.formula@ + "`: "@;
            lemma_ends_differ(head + body, head + body, x, y);
            assert(validation::sim_text(s.sensor_id@, body + x) =~= head + body + x);
            assert(validation::sim_text(s.sensor_id@, body + y) =~= head + body + y);
        } else {
            assert(g.formulas[i] == validation::faults_of(c).formulas[i]);
        }
        if validation::sim_sensor_problem(c, a, i) is None && validation::sim_sensor_problem(c, b, i) is None
            && validation::targets_problem(c, i, 0) is None {
            lemma_sim(c, a, b, g, x, y, i + 1);
        }
    }
}

/// Where validation finds the same by two marks for blank expressions, it
/// reaches none.
proof fn lemma_decides(c: Config, a: FaultTexts, b: FaultTexts, x: Seq<char>, y: Seq<char>)
    requires
        x.len() == 1,
        y.len() == 1,
        x[0] != y[0],
        validation::marked(c, a, Some(x)),
        validation::marked(c, b, Some(y)),
        validation::same_finding(c, a, b),
    ensures
        validation::decided(c),
{
    assert forall|g: FaultTexts| #[trigger] validation::agrees(c, g) implies validation::same_finding(c, g, a) by {
        if 1 <= c.devices@.len() <= 64 && validation::devices_problem(c, 0) is None {
            lemma_all_clear(c, a, b, x, y, 0);
            if validation::pipelines_problem(c, a, 0) == validation::pipelines_problem(c, b, 0) {
                lemma_pipelines(c, a, b, g, x, y, 0);
            }
            if validation::pipelines_problem(c, a, 0) is None && validation::identities_problem(c, 0) is None {
                lemma_computed(c, a, b, g, x, y, 0);
            }
        }
        if validation::early_problem(c, a) is None && validation::cycle_free(c.computed@)
            && validation::controls_problem(c, 0) is None {
            lemma_sim(c, a, b, g, x, y, 0);
        }
    }
    assert forall|f: FaultTexts, g: FaultTexts|
        #[trigger] validation::agrees(c, f) && #[trigger] validation::agrees(c, g) implies validation::same_finding(
        c,
        f,
        g,
    ) by {
        assert(validation::same_finding(c, f, a));
        assert(validation::same_finding(c, g, a));
    }
}

proof fn lemma_all_clear(c: Config, a: FaultTexts, b: FaultTexts, x: Seq<char>, y: Seq<char>, i: int)
    requires
        0 <= i,
        validation::marked(c, a, Some(x)),
        validation::marked(c, b, Some(y)),
    ensures
        validation::pipelines_problem(c, a, i) is None <==> validation::pipelines_problem(c, b, i) is None,
    decreases c.pipelines@.len() - i,
{
    if i < c.pipelines@.len() {
        let p = c.pipelines@[i];
        assert(validation::stages_answered(p, a.stages[i], Some(x)));
        assert(validation::stages_answered(p, b.stages[i], Some(y)));
        lemma_same_when_clear(p, a.stages[i], b.stages[i], x, y, 0);
        lemma_all_clear(c, a, b, x, y, i + 1);
    }
}

fn same_message(a: &Option<String>, b: &Option<String>) -> (r: bool)
    ensures
        r == (crate::expression::text_of(*a) == crate::expression::text_of(*b)),
{
    match (a, b) {
        (Some(x), Some(y)) => same_string(x, y),
        (None, None) => true,
        _ => false,
    }
}

impl Config {
    /// Whether validation reaches no blank expression.
    pub fn is_decided(&self) -> (r: bool)
        ensures
            r == validation::decided(*self),
    {
        let x = "x".to_owned();
        let y = "y".to_owned();
        proof {
            reveal_strlit("x");
            reveal_strlit("y");
        }
        let ghost (mx, my) = (x@, y@);
        let a = self.inspect_marked(&Some(x));
        let b = self.inspect_marked(&Some(y));
        let first = self.early_finding(&a);
        let second = self.early_finding(&b);
        if !same_message(&first, &second) {
            assert(!validation::same_finding(*self, a@, b@));
            return false;
        }
        if first.is_none() && self.has_no_cycle() {
            let first = self.late_finding(&a);
            let second = self.late_finding(&b);
            if !same_message(&first, &second) {
                assert(!validation::same_finding(*self, a@, b@));
                return false;
            }
        }
        proof {
            lemma_decides(*self, a@, b@, mx, my);
        }
        true
    }
}

} // verus!
