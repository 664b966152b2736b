//! The board and its geometry: cells and the four directions of movement.

use vstd::prelude::*;
use vstd::seq_lib::seq_to_set_is_finite;
use vstd::set_lib::{lemma_int_range, lemma_len_subset, lemma_map_size, set_int_range};

verus! {

/// Number of columns of the board.
pub const BOARD_WIDTH: i32 = 10;

/// Number of rows of the board.
pub const BOARD_HEIGHT: i32 = 10;

/// Number of cells of the board.
pub const BOARD_CELLS: usize = 100;

/// A direction of movement. `Up` is towards smaller `y`, `Down` towards larger `y`.
#[derive(Clone, Copy, Debug, PartialEq, Eq, Structural)]
pub enum Direction {
    Right,
    Left,
    Up,
    Down,
}

impl Direction {
    /// The direction that points the opposite way.
    pub open spec fn spec_inverse(self) -> Direction {
        match self {
            Direction::Right => Direction::Left,
            Direction::Left => Direction::Right,
            Direction::Up => Direction::Down,
            Direction::Down => Direction::Up,
        }
    }

    /// Horizontal component of the unit vector of this direction.
    pub open spec fn dx(self) -> int {
        match self {
            Direction::Right => 1,
            Direction::Left => -1,
            Direction::Up => 0,
            Direction::Down => 0,
        }
    }

    /// Vertical component of the unit vector of this direction.
    pub open spec fn dy(self) -> int {
        match self {
            Direction::Right => 0,
            Direction::Left => 0,
            Direction::Up => -1,
            Direction::Down => 1,
        }
    }

    /// The direction that points the opposite way.
    #[verifier::when_used_as_spec(spec_inverse)]
    pub fn inverse(self) -> (r: Direction)
        ensures
            r == self.spec_inverse(),
    {
        match self {
            Direction::Right => Direction::Left,
            Direction::Left => Direction::Right,
            Direction::Up => Direction::Down,
            Direction::Down => Direction::Up,
        }
    }
}

/// A cell of the grid, by column `x` and row `y`. The cells of the board are
/// those with `0 <= x < BOARD_WIDTH` and `0 <= y < BOARD_HEIGHT`.
#[derive(Clone, Copy, Debug, PartialEq, Eq, Structural)]
pub struct GridPosition {
    pub x: i32,
    pub y: i32,
}

impl GridPosition {
    /// Whether this cell lies on the board.
    pub open spec fn spec_in_bounds(self) -> bool {
        0 <= self.x < BOARD_WIDTH && 0 <= self.y < BOARD_HEIGHT
    }

    /// The cell one unit step away in direction `d`.
    pub open spec fn spec_step(self, d: Direction) -> GridPosition {
        GridPosition { x: (self.x + d.dx()) as i32, y: (self.y + d.dy()) as i32 }
    }

    /// Whether `other` is exactly one unit step away from this cell.
    pub open spec fn is_adjacent(self, other: GridPosition) -> bool {
        exists|d: Direction| other == #[trigger] self.spec_step(d)
    }

    pub fn new(x: i32, y: i32) -> (p: GridPosition)
        ensures
            p.x == x,
            p.y == y,
    {
        GridPosition { x, y }
    }

    /// Whether this cell lies on the board.
    #[verifier::when_used_as_spec(spec_in_bounds)]
    pub fn in_bounds(self) -> (r: bool)
        ensures
            r == self.spec_in_bounds(),
    {
        0 <= self.x && self.x < BOARD_WIDTH && 0 <= self.y && self.y < BOARD_HEIGHT
    }

    /// The cell one unit step away in direction `d`. The result may lie off
    /// the board.
    #[verifier::when_used_as_spec(spec_step)]
    pub fn step(self, d: Direction) -> (r: GridPosition)
        requires
            i32::MIN < self.x < i32::MAX,
            i32::MIN < self.y < i32::MAX,
        ensures
            r == self.spec_step(d),
            r.x == self.x + d.dx(),
            r.y == self.y + d.dy(),
    {
        match d {
            Direction::Right => GridPosition { x: self.x + 1, y: self.y },
            Direction::Left => GridPosition { x: self.x - 1, y: self.y },
            Direction::Up => GridPosition { x: self.x, y: self.y - 1 },
            Direction::Down => GridPosition { x: self.x, y: self.y + 1 },
        }
    }
}

/// The set of the cells of the board.
pub open spec fn board() -> Set<GridPosition> {
    Set::new(|p: GridPosition| p.spec_in_bounds())
}

/// The cell with the given number, counting the board column by column.
pub open spec fn cell_of_index(k: int) -> GridPosition {
    GridPosition { x: (k / (BOARD_HEIGHT as int)) as i32, y: (k % (BOARD_HEIGHT as int)) as i32 }
}

/// The board is a finite set of `BOARD_CELLS` cells.
pub proof fn lemma_board_size()
    ensures
        board().finite(),
        board().len() == BOARD_CELLS,
{
    let numbers = set_int_range(0, BOARD_CELLS as int);
    let f = |k: int| cell_of_index(k);
    lemma_int_range(0, BOARD_CELLS as int);
    assert forall|p: GridPosition| board().contains(p) implies numbers.map(f).contains(p) by {
        let k = p.x * BOARD_HEIGHT + p.y;
        assert(numbers.contains(k));
        assert(f(k) == p);
    }
    assert(numbers.map(f) =~= board());
    lemma_map_size(numbers, board(), f);
}

/// Distinct cells of the board are at most as many as the board has cells.
pub proof fn lemma_distinct_cells_fit_board(cells: Seq<GridPosition>)
    requires
        cells.no_duplicates(),
        forall|i: int| 0 <= i < cells.len() ==> (#[trigger] cells[i]).spec_in_bounds(),
    ensures
        cells.len() <= BOARD_CELLS,
{
    lemma_board_size();
    cells.unique_seq_to_set();
    assert(cells.to_set().subset_of(board()));
    lemma_len_subset(cells.to_set(), board());
}

/// Fewer cells than the board has leave a cell of the board free.
pub proof fn lemma_few_cells_leave_one_free(cells: Seq<GridPosition>)
    requires
        cells.len() < BOARD_CELLS,
    ensures
        exists|p: GridPosition| p.spec_in_bounds() && !cells.contains(p),
{
    if forall|p: GridPosition| p.spec_in_bounds() ==> cells.contains(p) {
        lemma_board_size();
        seq_to_set_is_finite(cells);
        assert(board().subset_of(cells.to_set()));
        lemma_len_subset(board(), cells.to_set());
        cells.lemma_cardinality_of_set();
        assert(false);
    }
}

} // verus!
