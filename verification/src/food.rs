//! Food: a single cell that no part of the snake lies on, placed at random.

use crate::grid::Cell;
use crate::playfield::{lemma_cell_at_index, lemma_index_of_cell, Playfield};
use crate::snake::contains_cell;
use rand::Rng;
use vstd::prelude::*;

verus! {

/// Why food could not be placed.
#[derive(Clone, Copy, Debug, PartialEq, Eq, Structural)]
pub enum SpawnError {
    /// Every cell of the playfield is occupied.
    NoSpaceAvailable,
}

/// Number of random draws tried before the free cells are listed.
pub const SAMPLING_ATTEMPTS: u32 = 64;

/// A cell of the playfield that is not occupied.
pub open spec fn is_free(p: Playfield, occupied: Seq<Cell>, c: Cell) -> bool {
    p.spec_contains(c) && !occupied.contains(c)
}

/// The playfield has a cell that is not occupied.
pub open spec fn has_free_cell(p: Playfield, occupied: Seq<Cell>) -> bool {
    exists|c: Cell| is_free(p, occupied, c)
}

/// The test "is not occupied".
pub open spec fn vacant(occupied: Seq<Cell>) -> spec_fn(Cell) -> bool {
    |c: Cell| !occupied.contains(c)
}

/// The free cells of the playfield in row-major order.
pub open spec fn spec_free_cells(p: Playfield, occupied: Seq<Cell>) -> Seq<Cell> {
    p.spec_cells().filter(vacant(occupied))
}

/// Draws a number below `n` from the thread-local generator of the `rand`
/// crate, by `rand::thread_rng().gen_range(0..n)`. The call samples the
/// half-open range and panics on an empty one, hence `n > 0`; all that is
/// claimed of the outcome is that it lies in the range.
#[verifier::external_body]
fn random_below(n: u64) -> (r: u64)
    requires
        n > 0,
    ensures
        r < n,
{
    rand::thread_rng().gen_range(0..n)
}

/// The cell with number `draw` if it is free, and `None` if it is occupied.
pub fn cell_if_free(p: &Playfield, occupied: &Vec<Cell>, draw: u64) -> (r: Option<Cell>)
    requires
        p.wf(),
        draw < p.spec_cell_count(),
    ensures
        r == if occupied@.contains(p.spec_cell_at(draw as int)) {
            None
        } else {
            Some(p.spec_cell_at(draw as int))
        },
        r matches Some(c) ==> is_free(*p, occupied@, c),
{
    let c = p.cell_at(draw);
    if contains_cell(occupied, c) {
        None
    } else {
        Some(c)
    }
}

/// Lists the free cells of the playfield in row-major order.
pub fn free_cells(p: &Playfield, occupied: &Vec<Cell>) -> (v: Vec<Cell>)
    requires
        p.wf(),
    ensures
        v@ == spec_free_cells(*p, occupied@),
        forall|c: Cell| v@.contains(c) <==> is_free(*p, occupied@, c),
{
    let total = p.cell_count();
    let ghost cells = p.spec_cells();
    let ghost keep = vacant(occupied@);
    let mut v: Vec<Cell> = Vec::new();
    let mut i: u64 = 0;
    proof {
        reveal(Seq::filter);
        assert(cells.take(0).filter(keep) =~= Seq::<Cell>::empty());
    }
    while i < total
        invariant
            p.wf(),
            i <= total,
            total == p.spec_cell_count(),
            cells == p.spec_cells(),
            keep == vacant(occupied@),
            v@ == cells.take(i as int).filter(keep),
        decreases total - i,
    {
        let c = p.cell_at(i);
        let taken = contains_cell(occupied, c);
        proof {
            reveal(Seq::filter);
            let longer = cells.take(i + 1);
            assert(longer.drop_last() =~= cells.take(i as int));
            assert(longer.last() == c);
        }
        if !taken {
            v.push(c);
        }
        i += 1;
    }
    proof {
        assert(cells.take(total as int) =~= cells);
        lemma_free_cells_members(*p, occupied@);
    }
    v
}

/// The list of free cells holds exactly the free cells.
pub proof fn lemma_free_cells_members(p: Playfield, occupied: Seq<Cell>)
    requires
        p.wf(),
    ensures
        forall|c: Cell| spec_free_cells(p, occupied).contains(c) <==> is_free(p, occupied, c),
        spec_free_cells(p, occupied).len() == 0 <==> !has_free_cell(p, occupied),
{
    let cells = p.spec_cells();
    let keep = vacant(occupied);
    let free = spec_free_cells(p, occupied);
    assert forall|c: Cell| free.contains(c) implies is_free(p, occupied, c) by {
        let k = choose|k: int| 0 <= k < free.len() && free[k] == c;
        cells.lemma_filter_pred(keep, k);
        cells.lemma_filter_contains_rev(keep, c);
        let i = choose|i: int| 0 <= i < cells.len() && cells[i] == c;
        lemma_cell_at_index(p, i);
    }
    assert forall|c: Cell| is_free(p, occupied, c) implies free.contains(c) by {
        lemma_index_of_cell(p, c);
        let i = p.spec_index_of(c);
        assert(cells[i] == c);
        cells.lemma_filter_contains(keep, i);
    }
    if free.len() > 0 {
        assert(free.contains(free[0]));
        assert(is_free(p, occupied, free[0]));
    }
    if has_free_cell(p, occupied) {
        let c = choose|c: Cell| is_free(p, occupied, c);
        assert(free.contains(c));
    }
}

/// Fewer occupied cells than the playfield has cells leave a cell free.
pub proof fn lemma_room_left(p: Playfield, occupied: Seq<Cell>)
    requires
        p.wf(),
        occupied.len() < p.spec_cell_count(),
    ensures
        has_free_cell(p, occupied),
{
    if !has_free_cell(p, occupied) {
        let n = p.spec_cell_count();
        let numbers = vstd::set_lib::set_int_range(0, n);
        let cell_of = |i: int| p.spec_cell_at(i);
        let on_field = numbers.map(cell_of);
        let taken = occupied.to_set();
        vstd::set_lib::lemma_int_range(0, n);
        assert(vstd::relations::injective_on(cell_of, numbers)) by {
            assert forall|a: int, b: int|
                numbers.contains(a) && numbers.contains(b) && #[trigger] cell_of(a)
                    == #[trigger] cell_of(b) implies a == b by {
                lemma_cell_at_index(p, a);
                lemma_cell_at_index(p, b);
            }
        }
        vstd::set_lib::lemma_map_size(numbers, on_field, cell_of);
        assert(on_field.subset_of(taken)) by {
            assert forall|c: Cell| on_field.contains(c) implies taken.contains(c) by {
                let i = choose|i: int| numbers.contains(i) && c == cell_of(i);
                lemma_cell_at_index(p, i);
                assert(!is_free(p, occupied, c));
            }
        }
        vstd::seq_lib::seq_to_set_is_finite(occupied);
        vstd::set_lib::lemma_len_subset(on_field, taken);
        occupied.lemma_cardinality_of_set();
    }
}

/// Picks a free cell of the playfield at random. A bounded number of draws
/// over all cells is tried first, each one rejected if it lands on an
/// occupied cell; after that the free cells are listed and one of them is
/// drawn. Fails exactly when every cell is occupied.
pub fn random_unoccupied_cell(p: &Playfield, occupied: &Vec<Cell>) -> (r: Result<Cell, SpawnError>)
    requires
        p.wf(),
    ensures
        r.is_ok() == has_free_cell(*p, occupied@),
        r matches Ok(c) ==> is_free(*p, occupied@, c),
        r matches Err(e) ==> e == SpawnError::NoSpaceAvailable,
        occupied@.len() < p.spec_cell_count() ==> r.is_ok(),
{
    proof {
        if occupied@.len() < p.spec_cell_count() {
            lemma_room_left(*p, occupied@);
        }
    }
    let total = p.cell_count();
    let mut attempts: u32 = 0;
    while attempts < SAMPLING_ATTEMPTS
        invariant
            p.wf(),
            total == p.spec_cell_count(),
            total >= 1,
            attempts <= SAMPLING_ATTEMPTS,
        decreases SAMPLING_ATTEMPTS - attempts,
    {
        let draw = random_below(total);
        match cell_if_free(p, occupied, draw) {
            Some(c) => {
                return Ok(c);
            },
            None => {},
        }
        attempts += 1;
    }
    let free = free_cells(p, occupied);
    proof {
        lemma_free_cells_members(*p, occupied@);
    }
    if free.len() == 0 {
        return Err(SpawnError::NoSpaceAvailable);
    }
    let pick = random_below(free.len() as u64);
    let c = free[pick as usize];
    assert(free@.contains(c));
    Ok(c)
}

/// The food item: one cell of the playfield.
#[derive(Clone, Copy, Debug, PartialEq, Eq, Structural)]
pub struct Food {
    position: Cell,
}

impl Food {
    /// The cell the food lies on.
    pub closed spec fn spec_position(&self) -> Cell {
        self.position
    }

    /// Food lying on `cell`.
    pub fn at(cell: Cell) -> (f: Food)
        ensures
            f.spec_position() == cell,
    {
        Food { position: cell }
    }

    #[verifier::when_used_as_spec(spec_position)]
    pub fn position(&self) -> (c: Cell)
        ensures
            c == self.spec_position(),
    {
        self.position
    }

    /// Places new food on a random free cell. Fails exactly when every cell
    /// of the playfield is occupied, which cannot happen while fewer cells
    /// are occupied than the playfield has.
    pub fn spawn(p: &Playfield, occupied: &Vec<Cell>) -> (r: Result<Food, SpawnError>)
        requires
            p.wf(),
        ensures
            r.is_ok() == has_free_cell(*p, occupied@),
            r matches Ok(f) ==> is_free(*p, occupied@, f.spec_position()),
            r matches Err(e) ==> e == SpawnError::NoSpaceAvailable,
            occupied@.len() < p.spec_cell_count() ==> r.is_ok(),
    {
        match random_unoccupied_cell(p, occupied) {
            Ok(c) => Ok(Food { position: c }),
            Err(e) => Err(e),
        }
    }

    /// Moves the food to a random free cell. Where every cell of the
    /// playfield is occupied the food stays where it is and the failure is
    /// reported.
    pub fn respawn(&mut self, p: &Playfield, occupied: &Vec<Cell>) -> (r: Result<(), SpawnError>)
        requires
            p.wf(),
        ensures
            r.is_ok() == has_free_cell(*p, occupied@),
            r.is_ok() ==> is_free(*p, occupied@, final(self).spec_position()),
            r matches Err(e) ==> e == SpawnError::NoSpaceAvailable && *final(self) == *old(self),
            occupied@.len() < p.spec_cell_count() ==> r.is_ok(),
    {
        match random_unoccupied_cell(p, occupied) {
            Ok(c) => {
                self.position = c;
                Ok(())
            },
            Err(e) => Err(e),
        }
    }
}

} // verus!
