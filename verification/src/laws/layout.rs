//! Where the items of the simulator stand, and which settings it accepts.

use vstd::prelude::*;

use crate::sim::layout::{starts, Placement, Span};
use crate::sim::model::{Area, SimConfig, SimSensor, Storage};

verus! {

// ---- placement ----

/// The number of addresses that an item takes.
pub open spec fn breadth(s: Span) -> int {
    if s.wide {
        2
    } else {
        1
    }
}

/// An item with an address stands there.
pub proof fn an_item_stands_at_its_address(how: Placement, spans: &Vec<Span>, r: Vec<u128>, i: int)
    requires
        call_ensures(starts, (how, spans), r),
        0 <= i < spans@.len(),
    ensures
        r@.len() == spans@.len(),
        spans@[i].address matches Some(a) ==> r@[i] == a,
{
}

/// Placed in turn, an item without an address stands behind the one before it, the
/// first one at the beginning.
pub proof fn items_follow_each_other(spans: &Vec<Span>, r: Vec<u128>, i: int)
    requires
        call_ensures(starts, (Placement::InTurn, spans), r),
        0 <= i < spans@.len(),
        spans@[i].address is None,
    ensures
        i == 0 ==> r@[i] == 0,
        i > 0 ==> r@[i] == r@[i - 1] + breadth(spans@[i - 1]),
{
}

proof fn lemma_reach(spans: Seq<Span>, n: int)
    requires
        0 <= n <= spans.len(),
    ensures
        crate::sim::layout::explicit_reach(spans, n) >= 0,
        crate::sim::layout::appended(spans, n) >= 0,
        forall|i: int|
            0 <= i < n && (#[trigger] spans[i]).address is Some ==> spans[i].address->0 + breadth(spans[i])
                <= crate::sim::layout::explicit_reach(spans, n),
        crate::sim::layout::explicit_reach(spans, n) == 0 || exists|i: int|
            0 <= i < n && (#[trigger] spans[i]).address is Some && spans[i].address->0 + breadth(spans[i])
                == crate::sim::layout::explicit_reach(spans, n),
    decreases n,
{
    if n > 0 {
        lemma_reach(spans, n - 1);
        assert(spans[n - 1] == spans[n - 1]);
    }
}

proof fn lemma_appended(spans: Seq<Span>, k: int, i: int)
    requires
        0 <= k <= i <= spans.len(),
        forall|j: int| k <= j < i ==> (#[trigger] spans[j]).address is Some,
    ensures
        crate::sim::layout::appended(spans, i) == crate::sim::layout::appended(spans, k),
    decreases i - k,
{
    if k < i {
        lemma_appended(spans, k, i - 1);
        assert(spans[i - 1].address is Some);
    }
}

/// Placed behind all addresses, the first item without an address stands where the
/// furthest item with one ends, and every further one behind the one before it
/// that has none either.
pub proof fn items_without_address_come_last(spans: &Vec<Span>, r: Vec<u128>, i: int, k: int)
    requires
        call_ensures(starts, (Placement::AddressesFirst, spans), r),
        0 <= i < spans@.len(),
        spans@[i].address is None,
        -1 <= k < i,
        k >= 0 ==> spans@[k].address is None,
        forall|j: int| k < j < i ==> (#[trigger] spans@[j]).address is Some,
    ensures
        k >= 0 ==> r@[i] == r@[k] + breadth(spans@[k]),
        forall|j: int|
            0 <= j < spans@.len() && (#[trigger] spans@[j]).address is Some ==> spans@[j].address->0 + breadth(spans@[j])
                <= r@[i],
        k == -1 ==> r@[i] == 0 || exists|j: int|
            0 <= j < spans@.len() && (#[trigger] spans@[j]).address is Some && spans@[j].address->0 + breadth(spans@[j])
                == r@[i],
{
    lemma_reach(spans@, spans@.len() as int);
    lemma_reach(spans@, i);
    lemma_appended(spans@, k + 1, i);
}

/// A sensor takes two addresses where it is stored as a single-precision number,
/// except among the coils; a control takes one.
pub proof fn a_single_takes_two_addresses(s: SimSensor, c: crate::sim::model::SimControl)
    ensures
        crate::sim::model::sensor_span(s).address == s.address,
        (s.storage == Storage::F32 && s.area != Area::Coils) ==> breadth(crate::sim::model::sensor_span(s)) == 2,
        (s.storage == Storage::U16 || s.area == Area::Coils) ==> breadth(crate::sim::model::sensor_span(s)) == 1,
        crate::sim::model::control_span(c).address == c.address,
        breadth(crate::sim::model::control_span(c)) == 1,
{
}

// ---- accepted settings ----

/// A cell that both items ask for by their addresses.
pub open spec fn both_at(a: Span, b: Span, cell: int) -> bool {
    &&& a.address is Some
    &&& b.address is Some
    &&& a.address->0 <= cell < a.address->0 + breadth(a)
    &&& b.address->0 <= cell < b.address->0 + breadth(b)
}

/// No two items of the area have addresses that meet.
pub open spec fn own_addresses(c: SimConfig, area: Area) -> bool {
    forall|i: int, j: int, cell: int|
        0 <= i < j < c.spans(area).len() ==> !#[trigger] both_at(c.spans(area)[i], c.spans(area)[j], cell)
}

/// A control or a sensor has the name.
pub open spec fn is_target(c: SimConfig, name: Seq<char>) -> bool {
    ||| exists|k: int| 0 <= k < c.controls@.len() && (#[trigger] c.controls@[k]).name@ == name
    ||| exists|k: int| 0 <= k < c.all_sensors().len() && (#[trigger] c.all_sensors()[k]).sensor_id@ == name
}

proof fn lemma_own_addresses(c: SimConfig, area: Area)
    ensures
        own_addresses(c, area) <==> crate::sim::layout::explicit_disjoint(c.spans(area)),
{
    let spans = c.spans(area);
    if own_addresses(c, area) {
        assert forall|i: int, j: int| 0 <= i < j < spans.len() implies !#[trigger] crate::sim::layout::clash(spans, i, j) by {
            if crate::sim::layout::clash(spans, i, j) {
                let a = spans[i].address->0;
                let b = spans[j].address->0;
                let cell: int = if a < b {
                    b as int
                } else {
                    a as int
                };
                assert(both_at(spans[i], spans[j], cell));
            }
        }
    }
    if crate::sim::layout::explicit_disjoint(spans) {
        assert forall|i: int, j: int, cell: int| 0 <= i < j < spans.len() implies !#[trigger] both_at(
            spans[i],
            spans[j],
            cell,
        ) by {
            assert(!crate::sim::layout::clash(spans, i, j));
        }
    }
}

/// Settings are accepted exactly where controls and sensors have names of their
/// own, every sensor is named and has a formula without a fault, every input is a
/// control or a sensor, and no two items of an area have addresses that meet.
pub proof fn settings_are_accepted_by_their_rules(c: SimConfig, faults: Seq<Option<Seq<char>>>)
    ensures
        crate::sim::rules::problem(c, faults) is None <==> {
            &&& forall|i: int, j: int|
                #![trigger c.controls@[i], c.controls@[j]]
                0 <= i < j < c.controls@.len() ==> c.controls@[i].name@ != c.controls@[j].name@
            &&& forall|i: int, j: int|
                #![trigger c.all_sensors()[i], c.all_sensors()[j]]
                0 <= i < j < c.all_sensors().len() ==> c.all_sensors()[i].sensor_id@ != c.all_sensors()[j].sensor_id@
            &&& forall|i: int|
                0 <= i < c.all_sensors().len() ==> (#[trigger] c.all_sensors()[i]).name@.len() >= 1 && faults[i] is None
            &&& forall|i: int, k: int|
                0 <= i < c.all_sensors().len() && 0 <= k < c.all_sensors()[i].inputs@.len() ==> is_target(
                    c,
                    (#[trigger] c.all_sensors()[i].inputs@[k]).1@,
                )
            &&& own_addresses(c, Area::Holding)
            &&& own_addresses(c, Area::Input)
            &&& own_addresses(c, Area::Coils)
        },
{
    crate::sim::rules::accepted_settings_are_sound(c, faults);
    lemma_own_addresses(c, Area::Holding);
    lemma_own_addresses(c, Area::Input);
    lemma_own_addresses(c, Area::Coils);
    assert forall|name: Seq<char>| is_target(c, name) <==> #[trigger] crate::sim::rules::known_target(c, name) by {}
    assert forall|area: Area| own_addresses(c, Area::Holding) && own_addresses(c, Area::Input) && own_addresses(
        c,
        Area::Coils,
    ) implies crate::sim::layout::explicit_disjoint(#[trigger] c.spans(area)) by {
        match area {
            Area::Holding => {},
            Area::Input => {},
            Area::Coils => {},
        }
    }
    if crate::sim::rules::sound(c, faults) {
        assert(crate::sim::layout::explicit_disjoint(c.spans(Area::Holding)));
        assert(crate::sim::layout::explicit_disjoint(c.spans(Area::Input)));
        assert(crate::sim::layout::explicit_disjoint(c.spans(Area::Coils)));
    }
}

/// What is wrong with a sensor of the simulator is said with its id, the first of
/// these faults alone: its name, its formula, its inputs.
pub proof fn faults_of_the_settings_are_told(c: SimConfig, s: SimSensor, fault: Option<Seq<char>>)
    ensures
        ({
            let prefix = "sim sensor `"@ + s.sensor_id@ + "`: "@;
            let found = crate::sim::rules::sensor_problem(c, s, fault);
            &&& (s.name@.len() == 0 ==> found == Some(prefix + "name is required"@))
            &&& ((s.name@.len() > 0 && fault is Some) ==> found == Some(
                prefix + ("invalid formula `"@ + s.formula@ + "`: "@ + fault->0),
            ))
            &&& ((s.name@.len() > 0 && fault is None && s.inputs@.len() > 0 && !is_target(c, s.inputs@[0].1@)) ==> found
                == Some(
                prefix + ("input `"@ + s.inputs@[0].0@ + "` references unknown target `"@ + s.inputs@[0].1@ + "`"@),
            ))
        }),
{
}

/// Two controls, or two sensors, of one name are told by the later one.
pub proof fn a_name_in_use_is_told(c: SimConfig, faults: Seq<Option<Seq<char>>>, j: int)
    requires
        0 < j < c.controls@.len(),
        c.controls@[j].name@ == c.controls@[0].name@,
        forall|a: int, b: int|
            #![trigger c.controls@[a], c.controls@[b]]
            0 <= a < b < j ==> c.controls@[a].name@ != c.controls@[b].name@,
    ensures
        crate::sim::rules::problem(c, faults) == Some("duplicate sim control `"@ + c.controls@[j].name@ + "`"@),
{
    lemma_first_double(c.controls@, 0, j);
}

proof fn lemma_first_double(controls: Seq<crate::sim::model::SimControl>, i: int, j: int)
    requires
        0 <= i <= j < controls.len(),
        0 < j,
        controls[j].name@ == controls[0].name@,
        forall|a: int, b: int|
            #![trigger controls[a], controls[b]]
            0 <= a < b < j ==> controls[a].name@ != controls[b].name@,
    ensures
        crate::sim::rules::controls_problem(controls, i) == Some("duplicate sim control `"@ + controls[j].name@ + "`"@),
    decreases j - i,
{
    if i < j {
        assert(!crate::sim::rules::control_named(controls, i, controls[i].name@));
        lemma_first_double(controls, i + 1, j);
    } else {
        assert(controls[0].name@ == controls[j].name@);
        assert(crate::sim::rules::control_named(controls, j, controls[j].name@));
    }
}

/// A sensor id in use is told, where the controls have names of their own.
pub proof fn a_sensor_id_in_use_is_told(c: SimConfig, faults: Seq<Option<Seq<char>>>, i: int, j: int)
    requires
        crate::sim::rules::controls_problem(c.controls@, 0) is None,
        0 <= i < j < c.all_sensors().len(),
        c.all_sensors()[j].sensor_id@ == c.all_sensors()[i].sensor_id@,
        forall|a: int, b: int|
            #![trigger c.all_sensors()[a], c.all_sensors()[b]]
            0 <= a < b < j ==> c.all_sensors()[a].sensor_id@ != c.all_sensors()[b].sensor_id@,
    ensures
        crate::sim::rules::problem(c, faults) == Some(
            "duplicate sim sensor_id `"@ + c.all_sensors()[j].sensor_id@ + "`"@,
        ),
{
    lemma_first_double_id(c.all_sensors(), 0, i, j);
}

proof fn lemma_first_double_id(all: Seq<SimSensor>, from: int, i: int, j: int)
    requires
        0 <= from <= j < all.len(),
        0 <= i < j,
        all[j].sensor_id@ == all[i].sensor_id@,
        forall|a: int, b: int|
            #![trigger all[a], all[b]]
            0 <= a < b < j ==> all[a].sensor_id@ != all[b].sensor_id@,
    ensures
        crate::sim::rules::ids_problem(all, from) == Some("duplicate sim sensor_id `"@ + all[j].sensor_id@ + "`"@),
    decreases j - from,
{
    if from < j {
        assert(!crate::sim::rules::sensor_named(all, from, all[from].sensor_id@));
        lemma_first_double_id(all, from + 1, i, j);
    } else {
        assert(all[i].sensor_id@ == all[j].sensor_id@);
        assert(crate::sim::rules::sensor_named(all, j, all[j].sensor_id@));
    }
}

proof fn lemma_collision(spans: Seq<Span>, from: int)
    requires
        0 <= from,
    ensures
        crate::sim::layout::collision(spans, from) matches Some(p) ==> 0 <= p.0 < p.1 < spans.len()
            && crate::sim::layout::clash(spans, p.0, p.1),
    decreases spans.len() - from,
{
    if from < spans.len() {
        lemma_met(spans, 0, from);
        lemma_collision(spans, from + 1);
    }
}

proof fn lemma_met(spans: Seq<Span>, i: int, j: int)
    requires
        0 <= i,
    ensures
        crate::sim::layout::met_from(spans, i, j) matches Some(k) ==> i <= k < j && crate::sim::layout::clash(spans, k, j),
    decreases j - i,
{
    if i < j {
        lemma_met(spans, i + 1, j);
    }
}

/// An address that is told as taken is one that two items of the area ask for, and
/// both are named.
pub proof fn a_taken_address_is_told(c: SimConfig, area: Area)
    ensures
        crate::sim::rules::area_problem(c, area) matches Some(m) ==> exists|i: int, j: int, cell: int|
            {
                &&& 0 <= i < j < c.spans(area).len()
                &&& #[trigger] both_at(c.spans(area)[i], c.spans(area)[j], cell)
                &&& m == "sim "@ + (match area {
                    Area::Input => "input"@,
                    Area::Holding => "holding"@,
                    Area::Coils => "coils"@,
                }) + " address "@ + crate::text::decimal(c.spans(area)[j].address->0 as nat) + (" of `"@ + c.label(
                    area,
                    j,
                ) + "` overlaps `"@ + c.label(area, i) + "`"@)
            },
{
    let spans = c.spans(area);
    lemma_collision(spans, 0);
    if let Some(p) = crate::sim::layout::collision(spans, 0) {
        let a = spans[p.0].address->0;
        let b = spans[p.1].address->0;
        let cell: int = if a < b {
            b as int
        } else {
            a as int
        };
        assert(both_at(c.spans(area)[p.0], c.spans(area)[p.1], cell));
    }
}

/// An item of the holding registers is called by the name of its control, and
/// every other one by the id of its sensor.
pub proof fn items_are_called_by_name(c: SimConfig, area: Area, item: int)
    requires
        0 <= item,
    ensures
        (area == Area::Holding && item < c.controls@.len()) ==> c.label(area, item) == c.controls@[item].name@,
        area != Area::Holding && item < c.area_sensors(area).len() ==> c.label(area, item)
            == c.all_sensors()[c.area_sensors(area)[item]].sensor_id@,
        (area == Area::Holding && c.controls@.len() <= item < c.controls@.len() + c.area_sensors(area).len())
            ==> c.label(area, item) == c.all_sensors()[c.area_sensors(area)[item - c.controls@.len()]].sensor_id@,
{
}

/// The sensors of an area are those that are set to stand in it, in their order.
pub proof fn an_area_has_its_sensors(all: Seq<SimSensor>, area: Area, n: int, k: int)
    requires
        0 <= k < n <= all.len(),
    ensures
        all[k].area == area <==> crate::sim::model::in_area(all, area, n).contains(k),
        forall|a: int, b: int|
            #![trigger crate::sim::model::in_area(all, area, n)[a], crate::sim::model::in_area(all, area, n)[b]]
            0 <= a < b < crate::sim::model::in_area(all, area, n).len() ==> crate::sim::model::in_area(all, area, n)[a]
                < crate::sim::model::in_area(all, area, n)[b],
    decreases n,
{
    lemma_area(all, area, n);
    let now = crate::sim::model::in_area(all, area, n);
    let before = crate::sim::model::in_area(all, area, n - 1);
    lemma_area(all, area, n - 1);
    if k < n - 1 {
        an_area_has_its_sensors(all, area, n - 1, k);
        if before.contains(k) {
            let i = choose|i: int| 0 <= i < before.len() && before[i] == k;
            assert(now[i] == k);
        }
        if now.contains(k) {
            let i = choose|i: int| 0 <= i < now.len() && now[i] == k;
            assert(before[i] == k);
        }
    } else if all[k].area == area {
        assert(now[now.len() - 1] == k);
    } else if now.contains(k) {
        let i = choose|i: int| 0 <= i < now.len() && now[i] == k;
        assert(before[i] == k);
    }
}

proof fn lemma_area(all: Seq<SimSensor>, area: Area, n: int)
    requires
        0 <= n <= all.len(),
    ensures
        forall|a: int|
            0 <= a < crate::sim::model::in_area(all, area, n).len() ==> 0 <= #[trigger] crate::sim::model::in_area(
                all,
                area,
                n,
            )[a] < n,
        forall|a: int, b: int|
            #![trigger crate::sim::model::in_area(all, area, n)[a], crate::sim::model::in_area(all, area, n)[b]]
            0 <= a < b < crate::sim::model::in_area(all, area, n).len() ==> crate::sim::model::in_area(all, area, n)[a]
                < crate::sim::model::in_area(all, area, n)[b],
    decreases n,
{
    if n > 0 {
        lemma_area(all, area, n - 1);
        let now = crate::sim::model::in_area(all, area, n);
        let before = crate::sim::model::in_area(all, area, n - 1);
        assert forall|a: int| 0 <= a < now.len() implies 0 <= #[trigger] now[a] < n by {
            if a < before.len() {
                assert(now[a] == before[a]);
            }
        }
        assert forall|a: int, b: int| #![trigger now[a], now[b]] 0 <= a < b < now.len() implies now[a] < now[b] by {
            assert(now[a] == before[a]);
            if b < before.len() {
                assert(now[b] == before[b]);
            }
        }
    }
}

/// A cell belongs to the last item that covers it, and to none where none does.
pub proof fn the_last_item_takes_a_shared_cell(how: Placement, spans: Seq<Span>, n: int, cell: int)
    requires
        0 <= n <= spans.len(),
    ensures
        match crate::sim::layout::owner(how, spans, n, cell) {
            Some(i) => {
                &&& 0 <= i < n
                &&& stands_over(how, spans, i, cell)
                &&& forall|j: int| i < j < n ==> !#[trigger] stands_over(how, spans, j, cell)
            },
            None => forall|j: int| 0 <= j < n ==> !#[trigger] stands_over(how, spans, j, cell),
        },
    decreases n,
{
    if n > 0 {
        the_last_item_takes_a_shared_cell(how, spans, n - 1, cell);
    }
}

/// The item begins at the cell or one cell before it, and then takes both.
pub open spec fn stands_over(how: Placement, spans: Seq<Span>, i: int, cell: int) -> bool {
    let start = crate::sim::layout::start_of(how, spans, i);
    start == cell || (start + 1 == cell && spans[i].wide)
}

/// A cell that is laid out tells its item and which of the item's words it is.
pub proof fn a_cell_tells_its_item(how: Placement, spans: Seq<Span>, cell: int, item: int)
    requires
        spans.len() <= usize::MAX,
        0 <= item < spans.len(),
        stands_over(how, spans, item, cell),
        forall|j: int| item < j < spans.len() ==> !#[trigger] stands_over(how, spans, j, cell),
    ensures
        crate::sim::layout::cell_at(how, spans, spans.len() as int, cell) matches Some(x) && x.item == item && (
        crate::sim::layout::start_of(how, spans, item) == cell ==> x.part == 0) && (crate::sim::layout::start_of(
            how,
            spans,
            item,
        ) + 1 == cell ==> x.part == 1),
{
    the_last_item_takes_a_shared_cell(how, spans, spans.len() as int, cell);
}

} // verus!
