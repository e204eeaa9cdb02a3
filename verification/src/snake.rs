//! The snake: an ordered chain of cells, head first, with its direction of
//! travel.

use crate::grid::{cell_at_xy, Cell, Direction};
use vstd::prelude::*;

verus! {

/// Every pair of consecutive cells is one step apart.
pub open spec fn linked(s: Seq<Cell>) -> bool {
    forall|i: int| 0 <= i < s.len() - 1 ==> (#[trigger] s[i]).adjacent(s[i + 1])
}

/// A snake body: at least a head, consecutive cells adjacent, no cell twice.
pub open spec fn is_chain(s: Seq<Cell>) -> bool {
    &&& s.len() >= 1
    &&& linked(s)
    &&& s.no_duplicates()
}

/// The cells that stay part of the body over one move: all of them when the
/// snake grows, all but the last when it does not.
pub open spec fn kept(s: Seq<Cell>, grow: bool) -> Seq<Cell> {
    if grow {
        s
    } else {
        s.drop_last()
    }
}

/// The body after one move: `next_head` is put in front, and the last cell is
/// dropped unless the snake grows.
pub open spec fn advanced(s: Seq<Cell>, next_head: Cell, grow: bool) -> Seq<Cell> {
    seq![next_head] + kept(s, grow)
}

/// Direction arbitration: a request to reverse is ignored, any other request
/// is taken.
pub open spec fn spec_arbitrate(current: Direction, pending: Direction) -> Direction {
    if pending == current.spec_opposite() {
        current
    } else {
        pending
    }
}

/// Direction arbitration: a request to reverse is ignored, any other request
/// becomes the direction of travel. The result is never the reverse of
/// `current`.
#[verifier::when_used_as_spec(spec_arbitrate)]
pub fn arbitrate(current: Direction, pending: Direction) -> (r: Direction)
    ensures
        r == spec_arbitrate(current, pending),
        pending == current.spec_opposite() ==> r == current,
        r != current.spec_opposite(),
{
    match pending {
        Direction::Up => {
            if current != Direction::Down {
                Direction::Up
            } else {
                current
            }
        },
        Direction::Down => {
            if current != Direction::Up {
                Direction::Down
            } else {
                current
            }
        },
        Direction::Left => {
            if current != Direction::Right {
                Direction::Left
            } else {
                current
            }
        },
        Direction::Right => {
            if current != Direction::Left {
                Direction::Right
            } else {
                current
            }
        },
    }
}

/// The snake. Its body is a chain of cells with the head at index 0.
#[derive(Debug)]
pub struct Snake {
    segments: Vec<Cell>,
    direction: Direction,
}

impl View for Snake {
    type V = Seq<Cell>;

    /// The body, head first.
    closed spec fn view(&self) -> Seq<Cell> {
        self.segments@
    }
}

impl Snake {
    /// The direction of travel.
    pub closed spec fn spec_direction(&self) -> Direction {
        self.direction
    }

    /// The body is a chain.
    pub open spec fn wf(&self) -> bool {
        is_chain(self@)
    }

    /// The head cell.
    pub open spec fn spec_head(&self) -> Cell {
        self@[0]
    }

    /// A snake of two cells at the centre of the playfield, heading right:
    /// the head on the origin and one body cell to its left.
    pub fn new() -> (s: Snake)
        ensures
            s.wf(),
            s@ == seq![cell_at_xy(0, 0), cell_at_xy(-1, 0)],
            s.spec_direction() == Direction::Right,
    {
        let mut segments: Vec<Cell> = Vec::new();
        segments.push(Cell { x: 0, y: 0 });
        segments.push(Cell { x: -1, y: 0 });
        assert(segments@ =~= seq![cell_at_xy(0, 0), cell_at_xy(-1, 0)]);
        Snake { segments, direction: Direction::Right }
    }

    #[verifier::when_used_as_spec(spec_head)]
    pub fn head(&self) -> (c: Cell)
        requires
            self.wf(),
        ensures
            c == self.spec_head(),
    {
        self.segments[0]
    }

    /// The body, head first.
    pub fn segments(&self) -> (s: &Vec<Cell>)
        ensures
            s@ == self@,
    {
        &self.segments
    }

    /// Number of cells of the body.
    pub fn len(&self) -> (n: usize)
        ensures
            n == self@.len(),
    {
        self.segments.len()
    }

    #[verifier::when_used_as_spec(spec_direction)]
    pub fn direction(&self) -> (d: Direction)
        ensures
            d == self.spec_direction(),
    {
        self.direction
    }
    /// Whether any cell of the body lies on `cell`.
    pub fn occupies(&self, cell: Cell) -> (b: bool)
        ensures
            b == self@.contains(cell),
    {
        contains_cell(&self.segments, cell)
    }

    /// Applies a direction request: a reversal is ignored, any other request
    /// becomes the direction of travel. The body is left alone.
    pub fn turn(&mut self, requested: Direction)
        ensures
            final(self).spec_direction() == spec_arbitrate(old(self).spec_direction(), requested),
            final(self).spec_direction() != old(self).spec_direction().spec_opposite(),
            final(self)@ == old(self)@,
    {
        self.direction = arbitrate(self.direction, requested);
    }

    /// The cell the head moves to next when the snake keeps its direction.
    pub fn next_head(&self) -> (c: Cell)
        requires
            self.wf(),
            self.spec_head().can_step(self.spec_direction()),
        ensures
            c == self.spec_head().neighbor(self.spec_direction()),
            c.adjacent(self.spec_head()),
    {
        self.segments[0].step(self.direction)
    }

    /// Slides the snake forward by one cell: every body cell takes the place
    /// of the one before it and the head moves to `next_head`. The cell the
    /// tail leaves is kept as a new last cell when the snake grows. The new
    /// head must be adjacent to the old one and clear of the cells that stay.
    pub fn advance(&mut self, next_head: Cell, grow: bool)
        requires
            old(self).wf(),
            next_head.adjacent(old(self).spec_head()),
            !kept(old(self)@, grow).contains(next_head),
        ensures
            final(self)@ == advanced(old(self)@, next_head, grow),
            final(self)@.len() == old(self)@.len() + if grow { 1int } else { 0int },
            final(self).spec_head() == next_head,
            final(self).spec_direction() == old(self).spec_direction(),
            final(self).wf(),
    {
        let ghost before = self.segments@;
        let n = self.segments.len();
        let mut prev = next_head;
        let mut i: usize = 0;
        while i < n
            invariant
                i <= n,
                n == before.len(),
                n >= 1,
                self.segments@.len() == n,
                self.direction == old(self).direction,
                prev == if i == 0 { next_head } else { before[i - 1] },
                forall|j: int| 0 <= j < i ==> self.segments@[j] == advanced(before, next_head, true)[j],
                forall|j: int| i <= j < n ==> self.segments@[j] == before[j],
            decreases n - i,
        {
            let vacated = self.segments[i];
            self.segments[i] = prev;
            prev = vacated;
            i += 1;
        }
        if grow {
            self.segments.push(prev);
        }
        proof {
            assert(self.segments@ =~= advanced(before, next_head, grow));
            lemma_advance_keeps_chain(before, next_head, grow);
        }
    }

    /// A snake with the given body and direction of travel, or `None` where
    /// the body is not a chain.
    pub fn from_segments(segments: Vec<Cell>, direction: Direction) -> (r: Option<Snake>)
        ensures
            r.is_some() == is_chain(segments@),
            r matches Some(s) ==> s.wf() && s@ == segments@ && s.spec_direction() == direction,
    {
        if check_chain(&segments) {
            Some(Snake { segments, direction })
        } else {
            None
        }
    }
}

/// Whether `cell` occurs in `cells`.
pub fn contains_cell(cells: &Vec<Cell>, cell: Cell) -> (b: bool)
    ensures
        b == cells@.contains(cell),
{
    let mut i: usize = 0;
    while i < cells.len()
        invariant
            i <= cells.len(),
            forall|j: int| 0 <= j < i ==> cells@[j] != cell,
        decreases cells.len() - i,
    {
        if cells[i] == cell {
            return true;
        }
        i += 1;
    }
    false
}

/// Whether `cells` is a snake body: not empty, consecutive cells adjacent,
/// no cell twice.
pub fn check_chain(cells: &Vec<Cell>) -> (b: bool)
    ensures
        b == is_chain(cells@),
{
    let n = cells.len();
    if n == 0 {
        return false;
    }
    let mut i: usize = 0;
    while i < n
        invariant
            i <= n,
            n == cells.len(),
            linked(cells@.take(i as int)),
            cells@.take(i as int).no_duplicates(),
        decreases n - i,
    {
        if i > 0 && !cells[i - 1].is_adjacent(cells[i]) {
            return false;
        }
        let mut k: usize = 0;
        while k < i
            invariant
                k <= i,
                i < n,
                n == cells.len(),
                forall|j: int| 0 <= j < k ==> cells@[j] != cells@[i as int],
            decreases i - k,
        {
            if cells[k] == cells[i] {
                return false;
            }
            k += 1;
        }
        proof {
            let shorter = cells@.take(i as int);
            let longer = cells@.take(i + 1);
            assert forall|a: int, b: int| 0 <= a < longer.len() && 0 <= b < longer.len() && a != b
                implies longer[a] != longer[b] by {
                if a < i && b < i {
                    assert(shorter[a] != shorter[b]);
                }
            }
            assert forall|j: int| 0 <= j < longer.len() - 1 implies (#[trigger] longer[j]).adjacent(
                longer[j + 1],
            ) by {
                if j < i - 1 {
                    assert(shorter[j].adjacent(shorter[j + 1]));
                }
            }
        }
        i += 1;
    }
    assert(cells@.take(n as int) =~= cells@);
    true
}

/// Moving keeps the body a chain: when the new head is adjacent to the old
/// head and lies on no cell that stays, consecutive cells stay adjacent and
/// no cell occurs twice, whether or not the snake grows.
pub proof fn lemma_advance_keeps_chain(s: Seq<Cell>, next_head: Cell, grow: bool)
    requires
        is_chain(s),
        next_head.adjacent(s[0]),
        !kept(s, grow).contains(next_head),
    ensures
        is_chain(advanced(s, next_head, grow)),
{
    let t = advanced(s, next_head, grow);
    assert forall|i: int| 0 <= i < t.len() - 1 implies (#[trigger] t[i]).adjacent(t[i + 1]) by {
        if i > 0 {
            assert(s[i - 1].adjacent(s[i]));
        }
    }
    assert forall|a: int, b: int| 0 <= a < t.len() && 0 <= b < t.len() && a != b implies t[a]
        != t[b] by {
        let rest = kept(s, grow);
        if a > 0 && b > 0 {
            assert(s[a - 1] != s[b - 1]);
        } else if a == 0 {
            assert(rest.contains(rest[b - 1]));
        } else {
            assert(rest.contains(rest[a - 1]));
        }
    }
}

/// A cell that lies on none of the body lies on none of the cells that stay.
pub proof fn lemma_kept_within(s: Seq<Cell>, grow: bool, c: Cell)
    requires
        s.len() >= 1,
        !s.contains(c),
    ensures
        !kept(s, grow).contains(c),
{
    let rest = kept(s, grow);
    if rest.contains(c) {
        let k = choose|k: int| 0 <= k < rest.len() && rest[k] == c;
        assert(s[k] == c);
    }
}

/// Moving keeps consecutive cells adjacent, for any body whose consecutive
/// cells are adjacent and any new head adjacent to the old one.
pub proof fn lemma_advance_keeps_links(s: Seq<Cell>, next_head: Cell, grow: bool)
    requires
        s.len() >= 1,
        linked(s),
        next_head.adjacent(s[0]),
    ensures
        linked(advanced(s, next_head, grow)),
{
    let t = advanced(s, next_head, grow);
    assert forall|i: int| 0 <= i < t.len() - 1 implies (#[trigger] t[i]).adjacent(t[i + 1]) by {
        if i > 0 {
            assert(s[i - 1].adjacent(s[i]));
        }
    }
}

/// A move lengthens the body by exactly one cell when the snake grows and
/// leaves its length unchanged otherwise.
pub proof fn lemma_advance_length(s: Seq<Cell>, next_head: Cell, grow: bool)
    requires
        s.len() >= 1,
    ensures
        advanced(s, next_head, true).len() == s.len() + 1,
        advanced(s, next_head, false).len() == s.len(),
        advanced(s, next_head, grow)[0] == next_head,
{
}

} // verus!
