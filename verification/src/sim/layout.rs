//! Placement of items in an address space.
//!
//! An item with an address of its own is placed there. The others are appended,
//! either each behind the item before it, or all of them behind the last cell
//! that an item with an address reaches.

use vstd::prelude::*;

verus! {

/// Where the items without an address go.
#[derive(Debug, Clone, Copy, PartialEq, Eq, Structural)]
pub enum Placement {
    /// One after the other, behind all items with an address.
    AddressesFirst,
    /// Each behind the item before it.
    InTurn,
}

/// The place that an item asks for.
#[derive(Debug, Clone, Copy, PartialEq, Eq, Structural)]
pub struct Span {
    pub address: Option<u16>,
    /// Two cells in place of one.
    pub wide: bool,
}

impl Span {
    /// How many cells the item takes.
    pub open spec fn width(self) -> int {
        if self.wide {
            2
        } else {
            1
        }
    }
}

/// The cell past the items with an address among the first `n`.
pub open spec fn explicit_reach(spans: Seq<Span>, n: int) -> int
    decreases n,
{
    if n <= 0 {
        0
    } else {
        let before = explicit_reach(spans, n - 1);
        match spans[n - 1].address {
            Some(a) => if a + spans[n - 1].width() > before {
                a + spans[n - 1].width()
            } else {
                before
            },
            None => before,
        }
    }
}

/// How many cells the items without an address among the first `n` take.
pub open spec fn appended(spans: Seq<Span>, n: int) -> int
    decreases n,
{
    if n <= 0 {
        0
    } else {
        appended(spans, n - 1) + match spans[n - 1].address {
            Some(_) => 0,
            None => spans[n - 1].width(),
        }
    }
}

/// The first cell of item `i`: its address, or else the next cell behind the item
/// before it, or behind all items with an address and the earlier ones without.
pub open spec fn start_of(how: Placement, spans: Seq<Span>, i: int) -> int
    decreases i,
{
    match spans[i].address {
        Some(a) => a as int,
        None => match how {
            Placement::AddressesFirst => explicit_reach(spans, spans.len() as int) + appended(spans, i),
            Placement::InTurn => if i <= 0 {
                0
            } else {
                start_of(how, spans, i - 1) + spans[i - 1].width()
            },
        },
    }
}

/// The cell past item `i`.
pub open spec fn end_of(how: Placement, spans: Seq<Span>, i: int) -> int {
    start_of(how, spans, i) + spans[i].width()
}

/// Item `i` takes this cell.
pub open spec fn covers(how: Placement, spans: Seq<Span>, i: int, cell: int) -> bool {
    start_of(how, spans, i) <= cell < end_of(how, spans, i)
}

/// The item that holds a cell: the last of the first `n` that takes it.
pub open spec fn owner(how: Placement, spans: Seq<Span>, n: int, cell: int) -> Option<int>
    decreases n,
{
    if n <= 0 {
        None
    } else if covers(how, spans, n - 1, cell) {
        Some(n - 1)
    } else {
        owner(how, spans, n - 1, cell)
    }
}

/// How many cells the first `n` items reach over.
pub open spec fn extent(how: Placement, spans: Seq<Span>, n: int) -> int
    decreases n,
{
    if n <= 0 {
        0
    } else if end_of(how, spans, n - 1) > extent(how, spans, n - 1) {
        end_of(how, spans, n - 1)
    } else {
        extent(how, spans, n - 1)
    }
}

/// Items `i` and `j` have a cell in common.
pub open spec fn meet(how: Placement, spans: Seq<Span>, i: int, j: int) -> bool {
    start_of(how, spans, i) < end_of(how, spans, j) && start_of(how, spans, j) < end_of(how, spans, i)
}

/// No two items have a cell in common.
pub open spec fn disjoint(how: Placement, spans: Seq<Span>) -> bool {
    forall|i: int, j: int| 0 <= i < j < spans.len() ==> !#[trigger] meet(how, spans, i, j)
}

/// Items `i` and `j` both have an address, and have a cell in common.
pub open spec fn clash(spans: Seq<Span>, i: int, j: int) -> bool {
    match (spans[i].address, spans[j].address) {
        (Some(a), Some(b)) => a < b + spans[j].width() && b < a + spans[i].width(),
        _ => false,
    }
}

/// No two items with an address have a cell in common.
pub open spec fn explicit_disjoint(spans: Seq<Span>) -> bool {
    forall|i: int, j: int| 0 <= i < j < spans.len() ==> !#[trigger] clash(spans, i, j)
}

/// The first item, from `i` on, whose address clashes with that of item `j`.
pub open spec fn met_from(spans: Seq<Span>, i: int, j: int) -> Option<int>
    decreases j - i,
{
    if i >= j {
        None
    } else if clash(spans, i, j) {
        Some(i)
    } else {
        met_from(spans, i + 1, j)
    }
}

/// The first item, from `j` on, whose address clashes with that of an earlier
/// one, and the first such earlier one.
pub open spec fn collision(spans: Seq<Span>, j: int) -> Option<(int, int)>
    decreases spans.len() - j,
{
    if j >= spans.len() {
        None
    } else {
        match met_from(spans, 0, j) {
            Some(i) => Some((i, j)),
            None => collision(spans, j + 1),
        }
    }
}

/// A cell of an item.
#[derive(Debug, Clone, Copy, PartialEq, Eq, Structural)]
pub struct Cell {
    pub item: usize,
    /// Which of the item's cells.
    pub part: usize,
}

/// Item `i` has a cell `part`.
pub open spec fn is_part(spans: Seq<Span>, i: int, part: int) -> bool {
    0 <= i < spans.len() && 0 <= part < spans[i].width()
}

/// What a cell holds after the first `n` items.
pub open spec fn cell_at(how: Placement, spans: Seq<Span>, n: int, cell: int) -> Option<Cell> {
    match owner(how, spans, n, cell) {
        Some(i) => Some(Cell { item: i as usize, part: (cell - start_of(how, spans, i)) as usize }),
        None => None,
    }
}

proof fn lemma_reach(spans: Seq<Span>, n: int)
    requires
        0 <= n <= spans.len(),
    ensures
        0 <= explicit_reach(spans, n) <= 0x1_0001,
        0 <= appended(spans, n) <= 2 * n,
        forall|i: int|
            0 <= i < n && (#[trigger] spans[i]).address is Some ==> spans[i].address->0 + spans[i].width()
                <= explicit_reach(spans, n),
        forall|i: int|
            0 <= i < n && (#[trigger] spans[i]).address is None ==> appended(spans, i) + spans[i].width() <= appended(
                spans,
                n,
            ),
    decreases n,
{
    if n > 0 {
        lemma_reach(spans, n - 1);
    }
}

proof fn lemma_start(how: Placement, spans: Seq<Span>, i: int)
    requires
        0 <= i < spans.len(),
    ensures
        0 <= start_of(how, spans, i) <= 0x1_0001 + 2 * i,
        end_of(how, spans, i) <= 0x1_0001 + 2 * (i + 1),
    decreases i,
{
    lemma_reach(spans, spans.len() as int);
    lemma_reach(spans, i);
    if i > 0 {
        lemma_start(how, spans, i - 1);
    }
}

/// Placed behind all addresses, only items with an address can have a cell in
/// common.
pub proof fn only_explicit_items_meet(spans: Seq<Span>, i: int, j: int)
    requires
        0 <= i < j < spans.len(),
        meet(Placement::AddressesFirst, spans, i, j),
    ensures
        clash(spans, i, j),
{
    lemma_reach(spans, spans.len() as int);
    lemma_reach(spans, i);
    lemma_reach(spans, j);
    assert(spans[i] == spans[i] && spans[j] == spans[j]);
}

fn width_of(span: &Span) -> (r: u128)
    ensures
        r == span.width(),
{
    if span.wide {
        2
    } else {
        1
    }
}

/// The cell past all items with an address.
fn reach_of(spans: &Vec<Span>) -> (reach: u128)
    ensures
        reach == explicit_reach(spans@, spans@.len() as int),
{
    let mut reach: u128 = 0;
    let mut n: usize = 0;
    while n < spans.len()
        invariant
            n <= spans@.len(),
            reach == explicit_reach(spans@, n as int),
        decreases spans@.len() - n,
    {
        match spans[n].address {
            Some(a) => {
                let end: u128 = a as u128 + width_of(&spans[n]);
                if end > reach {
                    reach = end;
                }
            },
            None => {},
        }
        n = n + 1;
    }
    reach
}

/// The first cell of every item.
pub fn starts(how: Placement, spans: &Vec<Span>) -> (r: Vec<u128>)
    ensures
        r@.len() == spans@.len(),
        forall|i: int| 0 <= i < r@.len() ==> #[trigger] r@[i] == start_of(how, spans@, i),
{
    let mut r: Vec<u128> = Vec::new();
    let mut next: u128 = match how {
        Placement::AddressesFirst => reach_of(spans),
        Placement::InTurn => 0,
    };
    let mut i: usize = 0;
    while i < spans.len()
        invariant
            i <= spans@.len(),
            how is AddressesFirst ==> next == explicit_reach(spans@, spans@.len() as int) + appended(
                spans@,
                i as int,
            ),
            how is InTurn ==> next == if i == 0 {
                0
            } else {
                end_of(how, spans@, i - 1)
            },
            r@.len() == i,
            forall|k: int| 0 <= k < i ==> #[trigger] r@[k] == start_of(how, spans@, k),
        decreases spans@.len() - i,
    {
        proof {
            lemma_start(how, spans@, i as int);
            lemma_reach(spans@, spans@.len() as int);
            lemma_reach(spans@, i as int);
            if i > 0 {
                lemma_start(how, spans@, i - 1);
            }
        }
        let width: u128 = width_of(&spans[i]);
        match spans[i].address {
            Some(a) => {
                r.push(a as u128);
                match how {
                    Placement::AddressesFirst => {},
                    Placement::InTurn => {
                        next = a as u128 + width;
                    },
                }
            },
            None => {
                r.push(next);
                next = next + width;
            },
        }
        i = i + 1;
    }
    r
}

fn is_clash(a: &Span, b: &Span) -> (r: bool)
    ensures
        r == clash(seq![*a, *b], 0, 1),
{
    match a.address {
        Some(x) => match b.address {
            Some(y) => (x as u128) < y as u128 + width_of(b) && (y as u128) < x as u128 + width_of(a),
            None => false,
        },
        None => false,
    }
}

/// The first item whose address clashes with that of an earlier one, and the
/// first such earlier one.
pub fn find_collision(spans: &Vec<Span>) -> (r: Option<(usize, usize)>)
    ensures
        match collision(spans@, 0) {
            None => r is None,
            Some(p) => r matches Some(q) && q.0 == p.0 && q.1 == p.1 && p.0 < p.1 < spans@.len() && clash(
                spans@,
                p.0,
                p.1,
            ),
        },
{
    let mut j: usize = 0;
    while j < spans.len()
        invariant
            j <= spans@.len(),
            collision(spans@, 0) == collision(spans@, j as int),
        decreases spans@.len() - j,
    {
        let mut i: usize = 0;
        while i < j
            invariant
                i <= j < spans@.len(),
                met_from(spans@, 0, j as int) == met_from(spans@, i as int, j as int),
                collision(spans@, 0) == collision(spans@, j as int),
            decreases j - i,
        {
            if is_clash(&spans[i], &spans[j]) {
                return Some((i, j));
            }
            i = i + 1;
        }
        j = j + 1;
    }
    None
}

proof fn lemma_extent(how: Placement, spans: Seq<Span>, n: int)
    requires
        0 <= n <= spans.len(),
    ensures
        0 <= extent(how, spans, n) <= 0x1_0001 + 2 * n,
        forall|cell: int| cell < 0 || cell >= extent(how, spans, n) ==> #[trigger] owner(how, spans, n, cell) is None,
    decreases n,
{
    if n > 0 {
        lemma_extent(how, spans, n - 1);
        lemma_start(how, spans, n - 1);
        assert forall|cell: int| cell < 0 || cell >= extent(how, spans, n) implies #[trigger] owner(how, spans, n, cell) is None by {
            assert(owner(how, spans, n - 1, cell) is None);
        }
    }
}

/// Places the items. A later item takes the cells that it shares with an
/// earlier one.
pub fn lay_out(how: Placement, spans: &Vec<Span>) -> (r: Vec<Option<Cell>>)
    requires
        2 * spans@.len() + 0x1_0001 <= usize::MAX,
    ensures
        r@.len() == extent(how, spans@, spans@.len() as int),
        forall|cell: int|
            0 <= cell < r@.len() ==> #[trigger] r@[cell] == cell_at(how, spans@, spans@.len() as int, cell),
        disjoint(how, spans@) ==> forall|i: int, part: int| #[trigger]
            is_part(spans@, i, part) ==> 0 <= start_of(how, spans@, i) + part < r@.len() && r@[start_of(how, spans@, i) + part]
                == Some(Cell { item: i as usize, part: part as usize }),
{
    let first = starts(how, spans);
    let mut r: Vec<Option<Cell>> = Vec::new();
    let mut n: usize = 0;
    while n < spans.len()
        invariant
            n <= spans@.len(),
            2 * spans@.len() + 0x1_0001 <= usize::MAX,
            first@.len() == spans@.len(),
            forall|k: int| 0 <= k < first@.len() ==> #[trigger] first@[k] == start_of(how, spans@, k),
            r@.len() == extent(how, spans@, n as int),
            forall|cell: int| 0 <= cell < r@.len() ==> #[trigger] r@[cell] == cell_at(how, spans@, n as int, cell),
        decreases spans@.len() - n,
    {
        proof {
            lemma_start(how, spans@, n as int);
            lemma_extent(how, spans@, n as int);
        }
        let start: usize = first[n] as usize;
        let end: usize = start + if spans[n].wide {
            2usize
        } else {
            1usize
        };
        let ghost reach = extent(how, spans@, n as int);
        while r.len() < end
            invariant
                reach <= r@.len(),
                reach == extent(how, spans@, n as int),
                r@.len() <= if end > reach {
                    end as int
                } else {
                    reach
                },
                forall|cell: int| cell < 0 || cell >= reach ==> #[trigger] owner(how, spans@, n as int, cell) is None,
                forall|cell: int| 0 <= cell < r@.len() ==> #[trigger] r@[cell] == cell_at(how, spans@, n as int, cell),
            decreases end - r@.len(),
        {
            r.push(None);
        }
        r.set(start, Some(Cell { item: n, part: 0 }));
        if spans[n].wide {
            r.set(start + 1, Some(Cell { item: n, part: 1 }));
        }
        n = n + 1;
    }
    proof {
        if disjoint(how, spans@) {
            assert forall|i: int, part: int| #[trigger] is_part(spans@, i, part) implies 0 <= start_of(how, spans@, i) + part
                < r@.len() && r@[start_of(how, spans@, i) + part] == Some(
                Cell { item: i as usize, part: part as usize },
            ) by {
                items_keep_their_cells(how, spans@, i, part);
            }
        }
    }
    r
}

proof fn lemma_met_from(spans: Seq<Span>, i: int, j: int, k: int)
    requires
        i <= k < j,
        met_from(spans, i, j) is None,
    ensures
        !clash(spans, k, j),
    decreases j - i,
{
    if i < k {
        lemma_met_from(spans, i + 1, j, k);
    }
}

proof fn lemma_no_collision(spans: Seq<Span>, from: int, i: int, j: int)
    requires
        0 <= i < j < spans.len(),
        from <= j,
        collision(spans, from) is None,
    ensures
        !clash(spans, i, j),
    decreases j - from,
{
    if from < j {
        lemma_no_collision(spans, from + 1, i, j);
    } else {
        lemma_met_from(spans, 0, j, i);
    }
}

proof fn lemma_met_is_met(spans: Seq<Span>, i: int, j: int)
    requires
        0 <= i,
    ensures
        met_from(spans, i, j) matches Some(k) ==> i <= k < j && clash(spans, k, j),
    decreases j - i,
{
    if i < j && !clash(spans, i, j) {
        lemma_met_is_met(spans, i + 1, j);
    }
}

proof fn lemma_collision_meets(spans: Seq<Span>, from: int)
    requires
        0 <= from,
    ensures
        collision(spans, from) matches Some(p) ==> 0 <= p.0 < p.1 < spans.len() && clash(spans, p.0, p.1),
    decreases spans.len() - from,
{
    if from < spans.len() {
        lemma_met_is_met(spans, 0, from);
        if met_from(spans, 0, from) is None {
            lemma_collision_meets(spans, from + 1);
        }
    }
}

/// Placed behind all addresses, no two items have a cell in common exactly where
/// no two addresses clash.
pub proof fn explicit_items_decide(spans: Seq<Span>)
    ensures
        explicit_disjoint(spans) <==> disjoint(Placement::AddressesFirst, spans),
{
    if explicit_disjoint(spans) {
        assert forall|i: int, j: int| 0 <= i < j < spans.len() implies !#[trigger] meet(
            Placement::AddressesFirst,
            spans,
            i,
            j,
        ) by {
            if meet(Placement::AddressesFirst, spans, i, j) {
                only_explicit_items_meet(spans, i, j);
            }
        }
    } else {
        let (i, j) = choose|i: int, j: int| 0 <= i < j < spans.len() && #[trigger] clash(spans, i, j);
        assert(meet(Placement::AddressesFirst, spans, i, j));
    }
}

proof fn lemma_ascending(spans: Seq<Span>, i: int, j: int)
    requires
        0 <= i < j < spans.len(),
        forall|k: int| i < k <= j ==> (#[trigger] spans[k]).address is None,
    ensures
        end_of(Placement::InTurn, spans, i) <= start_of(Placement::InTurn, spans, j),
    decreases j - i,
{
    assert(spans[j].address is None);
    if i < j - 1 {
        lemma_ascending(spans, i, j - 1);
    }
}

/// Placed in turn, items without addresses have no cell in common.
pub proof fn items_in_turn_are_disjoint(spans: Seq<Span>)
    requires
        forall|k: int| 0 <= k < spans.len() ==> (#[trigger] spans[k]).address is None,
    ensures
        disjoint(Placement::InTurn, spans),
{
    assert forall|i: int, j: int| 0 <= i < j < spans.len() implies !#[trigger] meet(Placement::InTurn, spans, i, j) by {
        lemma_ascending(spans, i, j);
    }
}

/// A collision is found exactly where two addresses clash.
pub proof fn collisions_are_found(spans: Seq<Span>)
    ensures
        collision(spans, 0) is None <==> explicit_disjoint(spans),
{
    if collision(spans, 0) is None {
        assert forall|i: int, j: int| 0 <= i < j < spans.len() implies !#[trigger] clash(spans, i, j) by {
            lemma_no_collision(spans, 0, i, j);
        }
    } else {
        lemma_collision_meets(spans, 0);
    }
}

proof fn lemma_owner(how: Placement, spans: Seq<Span>, n: int, i: int, cell: int)
    requires
        0 <= i < n <= spans.len(),
        disjoint(how, spans),
        covers(how, spans, i, cell),
    ensures
        owner(how, spans, n, cell) == Some(i),
        cell < extent(how, spans, n),
    decreases n,
{
    if i < n - 1 {
        assert(!meet(how, spans, i, n - 1));
        lemma_owner(how, spans, n - 1, i, cell);
    }
}

/// Where no two items have a cell in common, every item holds all of its cells.
pub proof fn items_keep_their_cells(how: Placement, spans: Seq<Span>, i: int, part: int)
    requires
        spans.len() <= usize::MAX,
        is_part(spans, i, part),
        disjoint(how, spans),
    ensures
        0 <= start_of(how, spans, i) + part < extent(how, spans, spans.len() as int),
        cell_at(how, spans, spans.len() as int, start_of(how, spans, i) + part) == Some(
            Cell { item: i as usize, part: part as usize },
        ),
{
    lemma_start(how, spans, i);
    lemma_owner(how, spans, spans.len() as int, i, start_of(how, spans, i) + part);
}

} // verus!
