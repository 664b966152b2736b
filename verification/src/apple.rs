//! The apple, and where a new one may appear.

use vstd::prelude::*;
use crate::grid::{
    lemma_few_cells_leave_one_free, GridPosition, BOARD_CELLS, BOARD_HEIGHT, BOARD_WIDTH,
};
use crate::snake::Snake;

verus! {

/// How many cells are drawn at random for a new apple before the first free
/// cell of the board is taken instead.
pub const PLACEMENT_DRAWS: u32 = 10_000;

/// A pseudo-random number from `low` to `high`, by
/// `macroquad::rand::gen_range`.
///
/// Trusted: the contract is taken on faith. The generator scales a 32-bit
/// number into the range in floating point and cuts the fraction off, and
/// its state is global. Claimed is only that the result lies in the closed
/// range: `high` itself is not ruled out for every range, and the value
/// drawn is not determined by the arguments.
#[verifier::external_body]
fn random_in_range(low: i32, high: i32) -> (r: i32)
    requires
        low <= high,
    ensures
        low <= r <= high,
{
    macroquad::rand::gen_range(low, high)
}

/// The apple. Its value is the cell it lies on.
#[derive(Clone, Copy, Debug)]
pub struct Apple {
    position: GridPosition,
}

impl View for Apple {
    type V = GridPosition;

    closed spec fn view(&self) -> GridPosition {
        self.position
    }
}

impl Apple {
    /// An apple on `candidate`, if that is a cell of the board on which no
    /// segment of `snake` lies; `None` otherwise.
    pub fn at(candidate: GridPosition, snake: &Snake) -> (r: Option<Apple>)
        ensures
            r is Some <==> candidate.in_bounds() && !snake@.covers(candidate),
            r is Some ==> r->0@ == candidate,
    {
        if candidate.in_bounds() && !snake.is_on_snake(candidate) {
            Some(Apple { position: candidate })
        } else {
            None
        }
    }

    /// A new apple on a cell of the board on which no segment of `snake` lies.
    ///
    /// Cells are drawn at random until one is free. Should `PLACEMENT_DRAWS`
    /// draws in a row fail, the first free cell of the board is taken, so the
    /// search always ends. A snake that fills the board leaves no cell for an
    /// apple.
    pub fn new(snake: &Snake) -> (apple: Apple)
        requires
            snake@.segments.len() < BOARD_CELLS,
        ensures
            apple@.in_bounds(),
            !snake@.covers(apple@),
    {
        let mut draws_left: u32 = PLACEMENT_DRAWS;
        while draws_left > 0
            invariant
                snake@.segments.len() < BOARD_CELLS,
            decreases draws_left,
        {
            let x: i32 = random_in_range(0, BOARD_WIDTH);
            let y: i32 = random_in_range(0, BOARD_HEIGHT);
            match Apple::at(GridPosition { x, y }, snake) {
                Some(apple) => {
                    return apple;
                },
                None => {},
            }
            draws_left -= 1;
        }
        let free = snake.first_free_cell();
        proof {
            lemma_few_cells_leave_one_free(snake@.segments);
            let p = choose|p: GridPosition| p.spec_in_bounds() && !snake@.segments.contains(p);
            assert(!snake@.covers(p));
        }
        Apple { position: free.unwrap() }
    }

    /// Moves the apple to a cell of the board on which no segment of `snake`
    /// lies, as [`Apple::new`] chooses it.
    pub fn respawn(&mut self, snake: &Snake)
        requires
            snake@.segments.len() < BOARD_CELLS,
        ensures
            final(self)@.in_bounds(),
            !snake@.covers(final(self)@),
    {
        *self = Apple::new(snake);
    }

    /// The cell the apple lies on.
    pub fn position(&self) -> (r: GridPosition)
        ensures
            r == self@,
    {
        self.position
    }
}

} // verus!
