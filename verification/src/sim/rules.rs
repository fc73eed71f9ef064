//! Validation of the simulator's settings.

use vstd::prelude::*;

use crate::sim::layout::find_collision;
use crate::sim::model::{list_area, Area, SimConfig, SimControl, SimSensor};
use crate::text::{decimal_text, join3, join5, same_string};
use crate::validation::sim_message;

verus! {

/// One of the first `n` controls has this name.
pub open spec fn control_named(controls: Seq<SimControl>, n: int, name: Seq<char>) -> bool {
    exists|k: int| 0 <= k < n && (#[trigger] controls[k]).name@ == name
}

/// One of the first `n` sensors has this id.
pub open spec fn sensor_named(all: Seq<SimSensor>, n: int, id: Seq<char>) -> bool {
    exists|k: int| 0 <= k < n && (#[trigger] all[k]).sensor_id@ == id
}

/// The first control, from `i` on, whose name an earlier one has.
pub open spec fn controls_problem(controls: Seq<SimControl>, i: int) -> Option<Seq<char>>
    decreases controls.len() - i,
{
    if i >= controls.len() {
        None
    } else if control_named(controls, i, controls[i].name@) {
        Some("duplicate sim control `"@ + controls[i].name@ + "`"@)
    } else {
        controls_problem(controls, i + 1)
    }
}

/// The first sensor, from `i` on, whose id an earlier one has.
pub open spec fn ids_problem(all: Seq<SimSensor>, i: int) -> Option<Seq<char>>
    decreases all.len() - i,
{
    if i >= all.len() {
        None
    } else if sensor_named(all, i, all[i].sensor_id@) {
        Some("duplicate sim sensor_id `"@ + all[i].sensor_id@ + "`"@)
    } else {
        ids_problem(all, i + 1)
    }
}

/// There is a control or a sensor of this name.
pub open spec fn known_target(c: SimConfig, target: Seq<char>) -> bool {
    control_named(c.controls@, c.controls@.len() as int, target) || sensor_named(
        c.all_sensors(),
        c.all_sensors().len() as int,
        target,
    )
}

/// The first input of a sensor, from `k` on, that maps to neither a control nor
/// a sensor.
pub open spec fn targets_problem(c: SimConfig, s: SimSensor, k: int) -> Option<Seq<char>>
    decreases s.inputs@.len() - k,
{
    if k >= s.inputs@.len() {
        None
    } else if !known_target(c, s.inputs@[k].1@) {
        Some(
            crate::validation::sim_text(
                s.sensor_id@,
                "input `"@ + s.inputs@[k].0@ + "` references unknown target `"@ + s.inputs@[k].1@ + "`"@,
            ),
        )
    } else {
        targets_problem(c, s, k + 1)
    }
}

/// What is wrong with a sensor, given what the parser has against its formula.
pub open spec fn sensor_problem(c: SimConfig, s: SimSensor, fault: Option<Seq<char>>) -> Option<Seq<char>> {
    if s.name@.len() == 0 {
        Some(crate::validation::sim_text(s.sensor_id@, "name is required"@))
    } else if let Some(m) = fault {
        Some(crate::validation::sim_text(s.sensor_id@, "invalid formula `"@ + s.formula@ + "`: "@ + m))
    } else {
        targets_problem(c, s, 0)
    }
}

/// The first problem with a sensor, from `i` on.
pub open spec fn sensors_problem(c: SimConfig, faults: Seq<Option<Seq<char>>>, i: int) -> Option<Seq<char>>
    decreases c.all_sensors().len() - i,
{
    if i >= c.all_sensors().len() {
        None
    } else if sensor_problem(c, c.all_sensors()[i], faults[i]) is Some {
        sensor_problem(c, c.all_sensors()[i], faults[i])
    } else {
        sensors_problem(c, faults, i + 1)
    }
}

pub open spec fn area_name(area: Area) -> Seq<char> {
    match area {
        Area::Input => "input"@,
        Area::Holding => "holding"@,
        Area::Coils => "coils"@,
    }
}

/// The first item of an area whose address clashes with that of an earlier one.
pub open spec fn area_problem(c: SimConfig, area: Area) -> Option<Seq<char>> {
    match crate::sim::layout::collision(c.spans(area), 0) {
        None => None,
        Some(p) => Some(
            "sim "@ + area_name(area) + " address "@ + crate::text::decimal(
                c.spans(area)[p.1].address->0 as nat,
            ) + (" of `"@ + c.label(area, p.1) + "` overlaps `"@ + c.label(area, p.0) + "`"@),
        ),
    }
}

/// The first problem of the settings, given what the parser has against the
/// formula of every sensor.
pub open spec fn problem(c: SimConfig, faults: Seq<Option<Seq<char>>>) -> Option<Seq<char>> {
    if controls_problem(c.controls@, 0) is Some {
        controls_problem(c.controls@, 0)
    } else if ids_problem(c.all_sensors(), 0) is Some {
        ids_problem(c.all_sensors(), 0)
    } else if sensors_problem(c, faults, 0) is Some {
        sensors_problem(c, faults, 0)
    } else if area_problem(c, Area::Holding) is Some {
        area_problem(c, Area::Holding)
    } else if area_problem(c, Area::Input) is Some {
        area_problem(c, Area::Input)
    } else {
        area_problem(c, Area::Coils)
    }
}

/// No formula is blank.
pub open spec fn readable(c: SimConfig) -> bool {
    forall|i: int|
        0 <= i < c.all_sensors().len() ==> !crate::expression::blank((#[trigger] c.all_sensors()[i]).formula@)
}

/// What the parser has against the formula of every sensor.
pub open spec fn faults_of(c: SimConfig) -> Seq<Option<Seq<char>>> {
    c.all_sensors().map_values(|s: SimSensor| crate::expression::parse_fault(s.formula@))
}

/// The answers agree with the parser on every formula that is not blank.
pub open spec fn agrees(c: SimConfig, f: Seq<Option<Seq<char>>>) -> bool {
    &&& f.len() == c.all_sensors().len()
    &&& forall|i: int|
        0 <= i < f.len() && !crate::expression::blank(c.all_sensors()[i].formula@) ==> #[trigger] f[i]
            == crate::expression::parse_fault(c.all_sensors()[i].formula@)
}

/// Validation reaches no blank formula: what it finds does not hang on an answer
/// about one.
pub open spec fn decided(c: SimConfig) -> bool {
    forall|f: Seq<Option<Seq<char>>>, g: Seq<Option<Seq<char>>>|
        #[trigger] agrees(c, f) && #[trigger] agrees(c, g) ==> problem(c, f) == problem(c, g)
}

/// The answers are the parser's, with the mark for every blank formula.
pub open spec fn marked(c: SimConfig, f: Seq<Option<Seq<char>>>, mark: Option<Seq<char>>) -> bool {
    &&& f.len() == c.all_sensors().len()
    &&& forall|i: int|
        0 <= i < f.len() ==> #[trigger] f[i] == crate::validation::text_answer(c.all_sensors()[i].formula@, mark)
}

proof fn lemma_agreeing_when_readable(c: SimConfig, f: Seq<Option<Seq<char>>>)
    requires
        readable(c),
        agrees(c, f),
    ensures
        f == faults_of(c),
{
    assert forall|i: int| 0 <= i < f.len() implies f[i] == faults_of(c)[i] by {
        assert(!crate::expression::blank(c.all_sensors()[i].formula@));
    }
    assert(f =~= faults_of(c));
}

/// Validation of settings without blank formulas reaches none.
pub proof fn readable_settings_are_decided(c: SimConfig)
    requires
        readable(c),
    ensures
        decided(c),
{
    assert forall|f: Seq<Option<Seq<char>>>, g: Seq<Option<Seq<char>>>|
        #[trigger] agrees(c, f) && #[trigger] agrees(c, g) implies problem(c, f) == problem(c, g) by {
        lemma_agreeing_when_readable(c, f);
        lemma_agreeing_when_readable(c, g);
    }
}

proof fn lemma_sensors_clear(c: SimConfig, a: Seq<Option<Seq<char>>>, b: Seq<Option<Seq<char>>>, x: Seq<char>, y: Seq<char>, i: int)
    requires
        0 <= i,
        marked(c, a, Some(x)),
        marked(c, b, Some(y)),
    ensures
        sensors_problem(c, a, i) is None <==> sensors_problem(c, b, i) is None,
    decreases c.all_sensors().len() - i,
{
    if i < c.all_sensors().len() {
        assert(a[i] == crate::validation::text_answer(c.all_sensors()[i].formula@, Some(x)));
        assert(b[i] == crate::validation::text_answer(c.all_sensors()[i].formula@, Some(y)));
        lemma_sensors_clear(c, a, b, x, y, i + 1);
    }
}

proof fn lemma_sensors_decide(
    c: SimConfig,
    a: Seq<Option<Seq<char>>>,
    b: Seq<Option<Seq<char>>>,
    g: Seq<Option<Seq<char>>>,
    x: Seq<char>,
    y: Seq<char>,
    i: int,
)
    requires
        0 <= i,
        x.len() == 1,
        y.len() == 1,
        x[0] != y[0],
        marked(c, a, Some(x)),
        marked(c, b, Some(y)),
        agrees(c, g),
        sensors_problem(c, a, i) == sensors_problem(c, b, i),
    ensures
        sensors_problem(c, g, i) == sensors_problem(c, a, i),
    decreases c.all_sensors().len() - i,
{
    if i < c.all_sensors().len() {
        let s = c.all_sensors()[i];
        assert(a[i] == crate::validation::text_answer(s.formula@, Some(x)));
        assert(b[i] == crate::validation::text_answer(s.formula@, Some(y)));
        if crate::expression::blank(s.formula@) {
            let head = "sim sensor `"@ + s.sensor_id@ + "`: "@;
            let body = "invalid formula `"@ + s.formula@ + "`: "@;
            assert((head + body + x).last() == x[0] && (head + body + y).last() == y[0]);
            assert(crate::validation::sim_text(s.sensor_id@, body + x) =~= head + body + x);
            assert(crate::validation::sim_text(s.sensor_id@, body + y) =~= head + body + y);
        } else {
            assert(g[i] == crate::expression::parse_fault(s.formula@));
        }
        if sensor_problem(c, s, a[i]) is None && sensor_problem(c, s, b[i]) is None {
            lemma_sensors_decide(c, a, b, g, x, y, i + 1);
        }
    }
}

proof fn lemma_decides(c: SimConfig, a: Seq<Option<Seq<char>>>, b: Seq<Option<Seq<char>>>, x: Seq<char>, y: Seq<char>)
    requires
        x.len() == 1,
        y.len() == 1,
        x[0] != y[0],
        marked(c, a, Some(x)),
        marked(c, b, Some(y)),
        problem(c, a) == problem(c, b),
    ensures
        decided(c),
{
    assert forall|g: Seq<Option<Seq<char>>>| #[trigger] agrees(c, g) implies problem(c, g) == problem(c, a) by {
        lemma_sensors_clear(c, a, b, x, y, 0);
        if controls_problem(c.controls@, 0) is None && ids_problem(c.all_sensors(), 0) is None {
            lemma_sensors_decide(c, a, b, g, x, y, 0);
        }
    }
}

fn find_control_named(controls: &Vec<SimControl>, n: usize, name: &String) -> (r: bool)
    requires
        n <= controls@.len(),
    ensures
        r == control_named(controls@, n as int, name@),
{
    let mut k: usize = 0;
    while k < n
        invariant
            k <= n <= controls@.len(),
            !control_named(controls@, k as int, name@),
        decreases n - k,
    {
        if same_string(&controls[k].name, name) {
            assert(controls@[k as int].name@ == name@);
            return true;
        }
        k = k + 1;
    }
    false
}

fn find_sensor_named(list: &Vec<&SimSensor>, n: usize, id: &String, Ghost(all): Ghost<Seq<SimSensor>>) -> (r: bool)
    requires
        n <= list@.len(),
        crate::sim::model::refers(list@, all),
    ensures
        r == sensor_named(all, n as int, id@),
{
    let mut k: usize = 0;
    while k < n
        invariant
            k <= n <= list@.len(),
            crate::sim::model::refers(list@, all),
            !sensor_named(all, k as int, id@),
        decreases n - k,
    {
        assert(*list@[k as int] == all[k as int]);
        if same_string(&list[k].sensor_id, id) {
            assert(all[k as int].sensor_id@ == id@);
            return true;
        }
        k = k + 1;
    }
    false
}

fn check_controls(c: &SimConfig) -> (r: Result<(), String>)
    ensures
        crate::validation::verdict(r) == controls_problem(c.controls@, 0),
{
    let mut i: usize = 0;
    while i < c.controls.len()
        invariant
            i <= c.controls@.len(),
            controls_problem(c.controls@, 0) == controls_problem(c.controls@, i as int),
        decreases c.controls@.len() - i,
    {
        if find_control_named(&c.controls, i, &c.controls[i].name) {
            return Err(join3("duplicate sim control `", c.controls[i].name.as_str(), "`"));
        }
        i = i + 1;
    }
    Ok(())
}

fn check_ids(list: &Vec<&SimSensor>, Ghost(all): Ghost<Seq<SimSensor>>) -> (r: Result<(), String>)
    requires
        crate::sim::model::refers(list@, all),
    ensures
        crate::validation::verdict(r) == ids_problem(all, 0),
{
    let mut i: usize = 0;
    while i < list.len()
        invariant
            i <= list@.len(),
            crate::sim::model::refers(list@, all),
            ids_problem(all, 0) == ids_problem(all, i as int),
        decreases list@.len() - i,
    {
        assert(*list@[i as int] == all[i as int]);
        if find_sensor_named(list, i, &list[i].sensor_id, Ghost(all)) {
            return Err(join3("duplicate sim sensor_id `", list[i].sensor_id.as_str(), "`"));
        }
        i = i + 1;
    }
    Ok(())
}

fn check_targets(c: &SimConfig, list: &Vec<&SimSensor>, s: &SimSensor) -> (r: Result<(), String>)
    requires
        crate::sim::model::refers(list@, c.all_sensors()),
    ensures
        crate::validation::verdict(r) == targets_problem(*c, *s, 0),
{
    let mut k: usize = 0;
    while k < s.inputs.len()
        invariant
            k <= s.inputs@.len(),
            crate::sim::model::refers(list@, c.all_sensors()),
            targets_problem(*c, *s, 0) == targets_problem(*c, *s, k as int),
        decreases s.inputs@.len() - k,
    {
        let target = &s.inputs[k].1;
        if !find_control_named(&c.controls, c.controls.len(), target) && !find_sensor_named(
            list,
            list.len(),
            target,
            Ghost(c.all_sensors()),
        ) {
            let what = join5(
                "input `",
                s.inputs[k].0.as_str(),
                "` references unknown target `",
                target.as_str(),
                "`",
            );
            return Err(sim_message(&s.sensor_id, what.as_str()));
        }
        k = k + 1;
    }
    Ok(())
}

fn check_sensors(c: &SimConfig, list: &Vec<&SimSensor>, faults: &Vec<Option<String>>) -> (r: Result<(), String>)
    requires
        crate::sim::model::refers(list@, c.all_sensors()),
        faults@.len() == list@.len(),
    ensures
        crate::validation::verdict(r) == sensors_problem(*c, crate::validation::optional_texts(faults@), 0),
{
    let mut i: usize = 0;
    while i < list.len()
        invariant
            i <= list@.len(),
            crate::sim::model::refers(list@, c.all_sensors()),
            faults@.len() == list@.len(),
            sensors_problem(*c, crate::validation::optional_texts(faults@), 0) == sensors_problem(
                *c,
                crate::validation::optional_texts(faults@),
                i as int,
            ),
        decreases list@.len() - i,
    {
        let s = list[i];
        assert(*s == c.all_sensors()[i as int]);
        assert(crate::validation::optional_texts(faults@)[i as int] == crate::expression::text_of(
            faults@[i as int],
        ));
        if s.name.as_str().unicode_len() == 0 {
            return Err(sim_message(&s.sensor_id, "name is required"));
        }
        if let Some(m) = &faults[i] {
            let mut what = join3("invalid formula `", s.formula.as_str(), "`: ");
            what.append(m.as_str());
            return Err(sim_message(&s.sensor_id, what.as_str()));
        }
        match check_targets(c, list, s) {
            Err(e) => {
                return Err(e);
            },
            Ok(()) => {},
        }
        i = i + 1;
    }
    Ok(())
}

fn area_label(area: Area) -> (r: &'static str)
    ensures
        r@ == area_name(area),
{
    match area {
        Area::Input => "input",
        Area::Holding => "holding",
        Area::Coils => "coils",
    }
}

fn item_label<'a>(c: &'a SimConfig, list: &Vec<&'a SimSensor>, chosen: &Vec<usize>, area: Area, item: usize) -> (r: &'a str)
    requires
        crate::sim::model::refers(list@, c.all_sensors()),
        chosen@.map_values(|k: usize| k as int) == c.area_sensors(area),
        forall|k: int| 0 <= k < chosen@.len() ==> #[trigger] chosen@[k] < list@.len(),
        item < c.area_controls(area).len() + chosen@.len(),
    ensures
        r@ == c.label(area, item as int),
{
    let n: usize = match area {
        Area::Holding => c.controls.len(),
        _ => 0,
    };
    if item < n {
        c.controls[item].name.as_str()
    } else {
        let k: usize = chosen[item - n];
        assert(c.area_sensors(area)[item - n] == chosen@[item - n] as int);
        list[k].sensor_id.as_str()
    }
}

fn check_area(c: &SimConfig, list: &Vec<&SimSensor>, area: Area) -> (r: Result<(), String>)
    requires
        crate::sim::model::refers(list@, c.all_sensors()),
    ensures
        crate::validation::verdict(r) == area_problem(*c, area),
{
    let chosen = list_area(list, area, Ghost(c.all_sensors()));
    let spans = c.list_spans(area, list, &chosen);
    match find_collision(&spans) {
        None => Ok(()),
        Some((i, j)) => {
            let at: u128 = match spans[j].address {
                Some(x) => x as u128,
                None => 0,
            };
            let a = item_label(c, list, &chosen, area, i);
            let b = item_label(c, list, &chosen, area, j);
            let mut m = join3("sim ", area_label(area), " address ");
            m.append(decimal_text(at).as_str());
            m.append(join5(" of `", b, "` overlaps `", a, "`").as_str());
            Err(m)
        },
    }
}

impl SimConfig {
    /// What the parser has against the formula of every sensor; the mark, in its
    /// place, for a blank one.
    pub fn inspect_marked(&self, mark: &Option<String>) -> (faults: Vec<Option<String>>)
        ensures
            agrees(*self, crate::validation::optional_texts(faults@)),
            marked(
                *self,
                crate::validation::optional_texts(faults@),
                crate::expression::text_of(*mark),
            ),
    {
        let list = self.iter_sensors();
        let mut faults: Vec<Option<String>> = Vec::new();
        let mut i: usize = 0;
        while i < list.len()
            invariant
                i <= list@.len(),
                crate::sim::model::refers(list@, self.all_sensors()),
                faults@.len() == i,
                forall|k: int|
                    0 <= k < i ==> crate::expression::text_of(#[trigger] faults@[k])
                        == crate::validation::text_answer(
                        self.all_sensors()[k].formula@,
                        crate::expression::text_of(*mark),
                    ),
            decreases list@.len() - i,
        {
            assert(*list@[i as int] == self.all_sensors()[i as int]);
            faults.push(crate::expression::check_marked(list[i].formula.as_str(), mark));
            i = i + 1;
        }
        proof {
            let f = crate::validation::optional_texts(faults@);
            assert forall|k: int| 0 <= k < f.len() implies #[trigger] f[k] == crate::validation::text_answer(
                self.all_sensors()[k].formula@,
                crate::expression::text_of(*mark),
            ) by {
                assert(f[k] == crate::expression::text_of(faults@[k]));
            }
        }
        faults
    }

    /// What the parser has against the formula of every sensor; nothing for a
    /// blank one.
    pub fn inspect(&self) -> (faults: Vec<Option<String>>)
        ensures
            agrees(*self, crate::validation::optional_texts(faults@)),
            readable(*self) ==> crate::validation::optional_texts(faults@) == faults_of(*self),
    {
        let faults = self.inspect_marked(&None);
        proof {
            if readable(*self) {
                lemma_agreeing_when_readable(*self, crate::validation::optional_texts(faults@));
            }
        }
        faults
    }

    /// Checks the settings, given what the parser has against the formula of
    /// every sensor.
    pub fn validate_given(&self, faults: &Vec<Option<String>>) -> (r: Result<(), String>)
        requires
            faults@.len() == self.all_sensors().len(),
        ensures
            crate::validation::verdict(r) == problem(*self, crate::validation::optional_texts(faults@)),
    {
        let list = self.iter_sensors();
        match check_controls(self) {
            Err(e) => {
                return Err(e);
            },
            Ok(()) => {},
        }
        match check_ids(&list, Ghost(self.all_sensors())) {
            Err(e) => {
                return Err(e);
            },
            Ok(()) => {},
        }
        match check_sensors(self, &list, faults) {
            Err(e) => {
                return Err(e);
            },
            Ok(()) => {},
        }
        match check_area(self, &list, Area::Holding) {
            Err(e) => {
                return Err(e);
            },
            Ok(()) => {},
        }
        match check_area(self, &list, Area::Input) {
            Err(e) => {
                return Err(e);
            },
            Ok(()) => {},
        }
        check_area(self, &list, Area::Coils)
    }

    /// Checks the settings: unique names and ids, formulas that parse, inputs
    /// with known targets, and addresses that do not overlap. No blank formula
    /// may be reached before a problem is found.
    pub fn validate(&self) -> (r: Result<(), String>)
        requires
            decided(*self),
        ensures
            crate::validation::verdict(r) == problem(*self, faults_of(*self)),
    {
        let faults = self.inspect();
        proof {
            assert(crate::validation::optional_texts(faults@).len() == faults@.len());
            assert(agrees(*self, faults_of(*self)));
        }
        self.validate_given(&faults)
    }

    /// Whether validation reaches no blank formula.
    pub fn is_decided(&self) -> (r: bool)
        ensures
            r == decided(*self),
    {
        let x = "x".to_owned();
        let y = "y".to_owned();
        proof {
            reveal_strlit("x");
            reveal_strlit("y");
        }
        let ghost (mx, my) = (x@, y@);
        let a = self.inspect_marked(&Some(x));
        let b = self.inspect_marked(&Some(y));
        let ghost (fa, fb) = (crate::validation::optional_texts(a@), crate::validation::optional_texts(b@));
        assert(fa.len() == a@.len() && fb.len() == b@.len());
        let same = match (self.validate_given(&a), self.validate_given(&b)) {
            (Ok(()), Ok(())) => true,
            (Err(m), Err(n)) => same_string(&m, &n),
            _ => false,
        };
        proof {
            assert(same == (problem(*self, fa) == problem(*self, fb)));
            if same {
                lemma_decides(*self, fa, fb, mx, my);
            }
        }
        same
    }
}

// ---- what validation guarantees ----

/// The rules that settings keep.
pub open spec fn sound(c: SimConfig, faults: Seq<Option<Seq<char>>>) -> bool {
    &&& forall|i: int, j: int|
        0 <= i < j < c.controls@.len() ==> (#[trigger] c.controls@[i]).name@ != (#[trigger] c.controls@[j]).name@
    &&& forall|i: int, j: int|
        0 <= i < j < c.all_sensors().len() ==> (#[trigger] c.all_sensors()[i]).sensor_id@ != (
        #[trigger] c.all_sensors()[j]).sensor_id@
    &&& forall|i: int|
        0 <= i < c.all_sensors().len() ==> (#[trigger] c.all_sensors()[i]).name@.len() > 0 && faults[i] is None
    &&& forall|i: int, k: int|
        0 <= i < c.all_sensors().len() && 0 <= k < c.all_sensors()[i].inputs@.len() ==> known_target(
            c,
            (#[trigger] c.all_sensors()[i].inputs@[k]).1@,
        )
    &&& forall|area: Area| crate::sim::layout::explicit_disjoint(#[trigger] c.spans(area))
}

proof fn lemma_controls(controls: Seq<SimControl>, i: int)
    requires
        0 <= i,
    ensures
        controls_problem(controls, i) is None <==> forall|j: int|
            i <= j < controls.len() ==> !control_named(controls, j, (#[trigger] controls[j]).name@),
    decreases controls.len() - i,
{
    if i < controls.len() {
        lemma_controls(controls, i + 1);
    }
}

proof fn lemma_ids(all: Seq<SimSensor>, i: int)
    requires
        0 <= i,
    ensures
        ids_problem(all, i) is None <==> forall|j: int|
            i <= j < all.len() ==> !sensor_named(all, j, (#[trigger] all[j]).sensor_id@),
    decreases all.len() - i,
{
    if i < all.len() {
        lemma_ids(all, i + 1);
    }
}

proof fn lemma_targets(c: SimConfig, s: SimSensor, k: int)
    requires
        0 <= k,
    ensures
        targets_problem(c, s, k) is None <==> forall|j: int|
            k <= j < s.inputs@.len() ==> known_target(c, (#[trigger] s.inputs@[j]).1@),
    decreases s.inputs@.len() - k,
{
    if k < s.inputs@.len() {
        lemma_targets(c, s, k + 1);
    }
}

proof fn lemma_sensors(c: SimConfig, faults: Seq<Option<Seq<char>>>, i: int)
    requires
        0 <= i,
    ensures
        sensors_problem(c, faults, i) is None <==> forall|j: int|
            i <= j < c.all_sensors().len() ==> sensor_problem(c, #[trigger] c.all_sensors()[j], faults[j]) is None,
    decreases c.all_sensors().len() - i,
{
    if i < c.all_sensors().len() {
        lemma_sensors(c, faults, i + 1);
    }
}

/// Validation accepts exactly the settings that keep the rules.
pub proof fn accepted_settings_are_sound(c: SimConfig, faults: Seq<Option<Seq<char>>>)
    ensures
        problem(c, faults) is None <==> sound(c, faults),
{
    let all = c.all_sensors();
    lemma_controls(c.controls@, 0);
    lemma_ids(all, 0);
    lemma_sensors(c, faults, 0);
    assert forall|area: Area| crate::sim::layout::explicit_disjoint(#[trigger] c.spans(area)) <==> area_problem(c, area) is None by {
        crate::sim::layout::collisions_are_found(c.spans(area));
    }
    assert forall|i: int| 0 <= i < all.len() implies (targets_problem(c, #[trigger] all[i], 0) is None <==> forall|j: int|
        0 <= j < all[i].inputs@.len() ==> known_target(c, (#[trigger] all[i].inputs@[j]).1@)) by {
        lemma_targets(c, all[i], 0);
    }
    if problem(c, faults) is None {
        assert forall|i: int, j: int| 0 <= i < j < c.controls@.len() implies (#[trigger] c.controls@[i]).name@ != (
        #[trigger] c.controls@[j]).name@ by {
            assert(!control_named(c.controls@, j, c.controls@[j].name@));
        }
        assert forall|i: int, j: int| 0 <= i < j < all.len() implies (#[trigger] all[i]).sensor_id@ != (
        #[trigger] all[j]).sensor_id@ by {
            assert(!sensor_named(all, j, all[j].sensor_id@));
        }
        assert forall|i: int| 0 <= i < all.len() implies (#[trigger] all[i]).name@.len() > 0 && faults[i] is None by {
            assert(sensor_problem(c, all[i], faults[i]) is None);
        }
        assert forall|i: int, k: int| 0 <= i < all.len() && 0 <= k < all[i].inputs@.len() implies known_target(
            c,
            (#[trigger] all[i].inputs@[k]).1@,
        ) by {
            assert(sensor_problem(c, all[i], faults[i]) is None);
        }
        assert forall|area: Area| crate::sim::layout::explicit_disjoint(#[trigger] c.spans(area)) by {
            assert(area_problem(c, area) is None);
        }
    }
    if sound(c, faults) {
        assert forall|j: int| 0 <= j < all.len() implies sensor_problem(c, #[trigger] all[j], faults[j]) is None by {
            assert(all[j].name@.len() > 0);
            assert(targets_problem(c, all[j], 0) is None);
        }
        assert(crate::sim::layout::explicit_disjoint(c.spans(Area::Holding)));
        assert(crate::sim::layout::explicit_disjoint(c.spans(Area::Input)));
        assert(crate::sim::layout::explicit_disjoint(c.spans(Area::Coils)));
    }
}

} // verus!
