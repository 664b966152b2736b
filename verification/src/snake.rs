//! The snake: its chain of segments, its facing, and the rules by which it
//! moves, grows and dies.

use vstd::prelude::*;
use crate::grid::{
    cell_of_index, lemma_distinct_cells_fit_board, Direction, GridPosition, BOARD_CELLS,
    BOARD_HEIGHT,
};

verus! {

/// Column of the cell on which a fresh snake starts.
pub const START_X: i32 = 2;

/// Row of the cell on which a fresh snake starts.
pub const START_Y: i32 = 2;

/// Speed factor of a fresh snake, in hundredths: 100 stands for the factor 1.0.
pub const INITIAL_SPEED: i32 = 100;

/// What the speed factor loses with each apple, in hundredths.
pub const SPEED_STEP: i32 = 5;

/// Microseconds of tick interval per hundredth of speed factor: at the factor
/// 1.0 a tick lasts half a second.
pub const MICROS_PER_SPEED_UNIT: i64 = 5_000;

/// The mathematical value of a [`Snake`].
pub struct SnakeView {
    /// The cells the snake lies on, head first, tail last.
    pub segments: Seq<GridPosition>,
    /// The direction the next tick will move the head in.
    pub facing: Direction,
    /// The inverse of the direction of the last committed move.
    pub previous_direction_inverted: Direction,
    /// The speed factor in hundredths; the tick interval is proportional to it.
    pub speed: int,
    /// Whether the last tick ate an apple.
    pub has_eaten: bool,
    /// Number of apples eaten.
    pub score: int,
    /// Whether the snake has neither left the board nor run into itself.
    pub alive: bool,
}

impl SnakeView {
    /// A fresh snake: one segment on the start cell, facing right.
    pub open spec fn initial() -> SnakeView {
        SnakeView {
            segments: seq![GridPosition { x: START_X, y: START_Y }],
            facing: Direction::Right,
            previous_direction_inverted: Direction::Left,
            speed: INITIAL_SPEED as int,
            has_eaten: false,
            score: 0,
            alive: true,
        }
    }

    /// Whether a snake can lie on `segments`: there is at least one, all are
    /// cells of the board, and no cell occurs twice.
    pub open spec fn can_lie_on(segments: Seq<GridPosition>) -> bool {
        &&& segments.len() >= 1
        &&& forall|i: int| 0 <= i < segments.len() ==> (#[trigger] segments[i]).in_bounds()
        &&& segments.no_duplicates()
    }

    /// The living snake that lies on `segments` and faces `facing`, as it is
    /// after a move in that direction: with one point for each segment but the
    /// head, and the speed factor that belongs to that score.
    pub open spec fn lying_on(segments: Seq<GridPosition>, facing: Direction) -> SnakeView {
        SnakeView {
            segments,
            facing,
            previous_direction_inverted: facing.spec_inverse(),
            speed: INITIAL_SPEED - SPEED_STEP * (segments.len() - 1),
            has_eaten: false,
            score: segments.len() - 1,
            alive: true,
        }
    }

    /// The snake's invariant: one segment more than apples eaten, every
    /// segment on the board, the speed factor lowered once per apple, a
    /// facing that is not the reverse of the last move, and, while the
    /// snake lives, no cell occupied twice.
    pub open spec fn wf(self) -> bool {
        &&& self.segments.len() >= 1
        &&& self.segments.len() == self.score + 1
        &&& self.speed == INITIAL_SPEED - SPEED_STEP * self.score
        &&& forall|i: int|
            0 <= i < self.segments.len() ==> (#[trigger] self.segments[i]).in_bounds()
        &&& self.facing != self.previous_direction_inverted
        &&& self.alive ==> self.segments.no_duplicates()
    }

    /// The cell of the head.
    pub open spec fn head(self) -> GridPosition {
        self.segments[0]
    }

    /// Whether some segment lies on `position`.
    pub open spec fn covers(self, position: GridPosition) -> bool {
        self.segments.contains(position)
    }

    /// Whether the head lies off the board.
    pub open spec fn out_of_bounds(self) -> bool {
        !self.head().in_bounds()
    }

    /// Whether the head shares its cell with another segment.
    pub open spec fn collides(self) -> bool {
        self.segments.skip(1).contains(self.head())
    }

    /// Whether each segment lies one unit step from the segment before it.
    pub open spec fn is_contiguous(self) -> bool {
        forall|i: int|
            0 <= i < self.segments.len() - 1 ==> (#[trigger] self.segments[i]).is_adjacent(
                self.segments[i + 1],
            )
    }

    /// Whether the second segment, if there is one, lies one step from the
    /// head against the direction of the last committed move.
    pub open spec fn neck_is_behind(self) -> bool {
        self.segments.len() >= 2 ==> self.segments[1] == self.head().spec_step(
            self.previous_direction_inverted,
        )
    }

    /// Whether `position` is the first free cell of the board: it lies on the
    /// board under no segment, and every cell of the board before it, counting
    /// column by column, lies under one.
    pub open spec fn is_first_free_cell(self, position: GridPosition) -> bool {
        &&& position.in_bounds()
        &&& !self.covers(position)
        &&& forall|q: GridPosition|
            q.in_bounds() && q.x * BOARD_HEIGHT + q.y < position.x * BOARD_HEIGHT + position.y
                ==> #[trigger] self.covers(q)
    }

    /// Whether every cell of the board lies under a segment.
    pub open spec fn fills_board(self) -> bool {
        forall|q: GridPosition| q.in_bounds() ==> #[trigger] self.covers(q)
    }

    /// The tick interval in microseconds. It is not positive once the speed
    /// factor has reached zero.
    pub open spec fn tick_interval_micros(self) -> int {
        MICROS_PER_SPEED_UNIT * self.speed
    }

    /// The snake after a request to face `direction`: the request is taken
    /// unless `direction` is the current facing or the reverse of the last
    /// committed move.
    pub open spec fn set_facing(self, direction: Direction) -> SnakeView {
        if direction != self.facing && direction != self.previous_direction_inverted {
            SnakeView { facing: direction, ..self }
        } else {
            self
        }
    }

    /// The cell the head enters on the next tick.
    pub open spec fn next_head(self) -> GridPosition {
        self.head().spec_step(self.facing)
    }

    /// The snake after one tick with the apple on `apple`.
    ///
    /// The move is committed as the last one. A head that would leave the
    /// board kills the snake and leaves the segments as they are. Otherwise
    /// the new head goes in front; on the apple's cell the snake grows by
    /// keeping its tail, gains a point and loses one step of speed factor,
    /// and elsewhere the tail is dropped. A head that then shares its cell
    /// with another segment kills the snake.
    pub open spec fn advance(self, apple: GridPosition) -> SnakeView {
        let committed = SnakeView {
            previous_direction_inverted: self.facing.spec_inverse(),
            has_eaten: false,
            ..self
        };
        let new_head = self.next_head();
        if !new_head.in_bounds() {
            SnakeView { alive: false, ..committed }
        } else {
            let grown = seq![new_head] + self.segments;
            let moved = if new_head == apple {
                SnakeView {
                    segments: grown,
                    score: self.score + 1,
                    speed: self.speed - SPEED_STEP,
                    has_eaten: true,
                    ..committed
                }
            } else {
                SnakeView { segments: grown.drop_last(), ..committed }
            };
            SnakeView { alive: !moved.collides(), ..moved }
        }
    }
}

/// The snake of the game.
#[derive(Clone, Debug)]
pub struct Snake {
    segments: Vec<GridPosition>,
    facing: Direction,
    previous_direction_inverted: Direction,
    speed: i32,
    has_eaten: bool,
    score: i32,
    alive: bool,
}

impl View for Snake {
    type V = SnakeView;

    closed spec fn view(&self) -> SnakeView {
        SnakeView {
            segments: self.segments@,
            facing: self.facing,
            previous_direction_inverted: self.previous_direction_inverted,
            speed: self.speed as int,
            has_eaten: self.has_eaten,
            score: self.score as int,
            alive: self.alive,
        }
    }
}

impl Snake {
    /// A fresh snake: one segment on the start cell, facing right, with no
    /// points.
    pub fn new() -> (snake: Snake)
        ensures
            snake@ == SnakeView::initial(),
            snake@.wf(),
            snake@.is_contiguous(),
            snake@.neck_is_behind(),
    {
        let mut segments: Vec<GridPosition> = Vec::new();
        segments.push(GridPosition { x: START_X, y: START_Y });
        let snake = Snake {
            segments,
            facing: Direction::Right,
            previous_direction_inverted: Direction::Left,
            speed: INITIAL_SPEED,
            has_eaten: false,
            score: 0,
            alive: true,
        };
        assert(snake@.segments =~= SnakeView::initial().segments);
        snake
    }

    /// The living snake that lies on `segments`, head first, and faces
    /// `facing`, or `None` if no snake can lie so: if there is no segment, if
    /// one lies off the board, or if two share a cell.
    pub fn from_segments(segments: Vec<GridPosition>, facing: Direction) -> (r: Option<Snake>)
        ensures
            r is Some <==> SnakeView::can_lie_on(segments@),
            r is Some ==> r->0@ == SnakeView::lying_on(segments@, facing) && r->0@.wf(),
    {
        let n = segments.len();
        if n < 1 {
            return None;
        }
        if n > BOARD_CELLS {
            proof {
                if SnakeView::can_lie_on(segments@) {
                    lemma_distinct_cells_fit_board(segments@);
                }
            }
            return None;
        }
        let mut i: usize = 0;
        while i < n
            invariant
                n == segments.len(),
                i <= n,
                forall|k: int| 0 <= k < i ==> (#[trigger] segments@[k]).in_bounds(),
                forall|k: int, l: int| 0 <= k < l < i ==> segments@[k] != segments@[l],
            decreases n - i,
        {
            if !segments[i].in_bounds() {
                return None;
            }
            let mut j: usize = 0;
            while j < i
                invariant
                    n == segments.len(),
                    j <= i < n,
                    forall|k: int| 0 <= k < j ==> segments@[k] != segments@[i as int],
                decreases i - j,
            {
                if segments[j] == segments[i] {
                    return None;
                }
                j += 1;
            }
            i += 1;
        }
        let points: i32 = (n - 1) as i32;
        let snake = Snake {
            segments,
            facing,
            previous_direction_inverted: facing.inverse(),
            speed: INITIAL_SPEED - SPEED_STEP * points,
            has_eaten: false,
            score: points,
            alive: true,
        };
        Some(snake)
    }

    /// The cells the snake lies on, head first, tail last.
    pub fn segments(&self) -> (r: &Vec<GridPosition>)
        ensures
            r@ == self@.segments,
    {
        &self.segments
    }

    /// Number of segments.
    pub fn len(&self) -> (r: usize)
        ensures
            r == self@.segments.len(),
    {
        self.segments.len()
    }

    /// The cell of the head.
    pub fn head(&self) -> (r: GridPosition)
        requires
            self@.segments.len() > 0,
        ensures
            r == self@.head(),
    {
        self.segments[0]
    }

    /// The direction the next tick will move the head in.
    pub fn facing(&self) -> (r: Direction)
        ensures
            r == self@.facing,
    {
        self.facing
    }

    /// The inverse of the direction of the last committed move.
    pub fn previous_direction_inverted(&self) -> (r: Direction)
        ensures
            r == self@.previous_direction_inverted,
    {
        self.previous_direction_inverted
    }

    /// The speed factor in hundredths.
    pub fn speed(&self) -> (r: i32)
        ensures
            r == self@.speed,
    {
        self.speed
    }

    /// Whether the last tick ate an apple.
    pub fn has_eaten(&self) -> (r: bool)
        ensures
            r == self@.has_eaten,
    {
        self.has_eaten
    }

    /// Number of apples eaten.
    pub fn score(&self) -> (r: i32)
        ensures
            r == self@.score,
    {
        self.score
    }

    /// Whether the snake has neither left the board nor run into itself.
    pub fn is_alive(&self) -> (r: bool)
        ensures
            r == self@.alive,
    {
        self.alive
    }

    /// The tick interval in microseconds. It is not positive once the speed
    /// factor has reached zero.
    pub fn tick_interval_micros(&self) -> (r: i64)
        ensures
            r == self@.tick_interval_micros(),
    {
        MICROS_PER_SPEED_UNIT * (self.speed as i64)
    }

    /// The first cell of the board, counting column by column, that lies
    /// under no segment, or `None` if the snake fills the board.
    pub fn first_free_cell(&self) -> (r: Option<GridPosition>)
        ensures
            r is None <==> self@.fills_board(),
            r is Some ==> self@.is_first_free_cell(r->0),
    {
        let mut k: i32 = 0;
        while k < BOARD_CELLS as i32
            invariant
                0 <= k <= BOARD_CELLS,
                forall|j: int| 0 <= j < k ==> self@.covers(#[trigger] cell_of_index(j)),
            decreases BOARD_CELLS - k,
        {
            let cell = GridPosition { x: k / BOARD_HEIGHT, y: k % BOARD_HEIGHT };
            assert(cell == cell_of_index(k as int));
            if !self.is_on_snake(cell) {
                assert forall|q: GridPosition|
                    q.in_bounds() && q.x * BOARD_HEIGHT + q.y < cell.x * BOARD_HEIGHT
                        + cell.y implies #[trigger] self@.covers(q) by {
                    assert(q == cell_of_index(q.x * BOARD_HEIGHT + q.y));
                }
                return Some(cell);
            }
            k += 1;
        }
        assert forall|q: GridPosition| q.in_bounds() implies #[trigger] self@.covers(q) by {
            assert(q == cell_of_index(q.x * BOARD_HEIGHT + q.y));
        }
        None
    }

    /// Asks the snake to face `direction` from the next tick on. The request
    /// is ignored if `direction` is the current facing or the reverse of the
    /// last committed move.
    pub fn set_facing(&mut self, direction: Direction)
        ensures
            final(self)@ == old(self)@.set_facing(direction),
            old(self)@.wf() ==> final(self)@.wf(),
            old(self)@.is_contiguous() ==> final(self)@.is_contiguous(),
            old(self)@.neck_is_behind() ==> final(self)@.neck_is_behind(),
    {
        if direction != self.facing && direction != self.previous_direction_inverted {
            self.facing = direction;
        }
    }

    /// Whether the head lies off the board.
    pub fn is_out_of_bounds(&self) -> (r: bool)
        requires
            self@.segments.len() > 0,
        ensures
            r == self@.out_of_bounds(),
    {
        !self.segments[0].in_bounds()
    }

    /// Whether the head shares its cell with another segment.
    pub fn is_colliding_with_itself(&self) -> (r: bool)
        requires
            self@.segments.len() > 0,
        ensures
            r == self@.collides(),
    {
        let head = self.segments[0];
        let mut i: usize = 1;
        while i < self.segments.len()
            invariant
                1 <= i <= self.segments.len(),
                head == self.segments@[0],
                forall|j: int| 1 <= j < i ==> self.segments@[j] != head,
            decreases self.segments.len() - i,
        {
            if self.segments[i] == head {
                assert(self.segments@.skip(1)[i - 1] == head);
                return true;
            }
            i += 1;
        }
        assert forall|k: int| 0 <= k < self.segments@.skip(1).len() implies self.segments@.skip(
            1,
        )[k] != head by {
            assert(self.segments@.skip(1)[k] == self.segments@[k + 1]);
        }
        false
    }

    /// Whether some segment lies on `position`.
    pub fn is_on_snake(&self, position: GridPosition) -> (r: bool)
        ensures
            r == self@.covers(position),
    {
        let mut i: usize = 0;
        while i < self.segments.len()
            invariant
                i <= self.segments.len(),
                forall|j: int| 0 <= j < i ==> self.segments@[j] != position,
            decreases self.segments.len() - i,
        {
            if self.segments[i] == position {
                return true;
            }
            i += 1;
        }
        false
    }

    /// Moves the snake by one tick, with the apple on `apple`.
    ///
    /// The facing is committed as the last move. If the head would leave the
    /// board the snake dies where it lies. Otherwise the head enters the next
    /// cell; on the apple's cell the snake grows by one segment, gains a
    /// point and loses one step of speed factor, elsewhere it keeps its
    /// length. If the head then lies on another segment the snake dies.
    pub fn advance(&mut self, apple: GridPosition)
        requires
            old(self)@.wf(),
            old(self)@.alive,
        ensures
            final(self)@ == old(self)@.advance(apple),
            final(self)@.wf(),
            final(self)@.segments.len() == final(self)@.score + 1,
            old(self)@.is_contiguous() ==> final(self)@.is_contiguous(),
            final(self)@.alive ==> final(self)@.neck_is_behind(),
    {
        proof {
            lemma_living_snake_fits_board(self@);
            lemma_advance_keeps_wf(self@, apple);
            lemma_advance_puts_neck_behind(self@, apple);
            if self@.is_contiguous() {
                lemma_advance_keeps_contiguous(self@, apple);
            }
        }
        let ghost before = self@;
        self.previous_direction_inverted = self.facing.inverse();
        self.has_eaten = false;
        let new_head = self.segments[0].step(self.facing);
        if !new_head.in_bounds() {
            self.alive = false;
            return ;
        }
        self.segments.insert(0, new_head);
        assert(self.segments@ =~= seq![new_head] + before.segments);
        if new_head == apple {
            self.score = self.score + 1;
            self.speed = self.speed - SPEED_STEP;
            self.has_eaten = true;
        } else {
            self.segments.pop();
        }
        if self.is_colliding_with_itself() {
            self.alive = false;
        }
    }
}

/// A tick leaves a well-formed snake well-formed: it still has one segment
/// more than points, lies on the board, and if it lives, covers no cell
/// twice.
pub proof fn lemma_advance_keeps_wf(snake: SnakeView, apple: GridPosition)
    requires
        snake.wf(),
        snake.alive,
    ensures
        snake.advance(apple).wf(),
        snake.advance(apple).segments.len() == snake.advance(apple).score + 1,
{
    let after = snake.advance(apple);
    if after.alive {
        assert forall|i: int, j: int|
            0 <= i < after.segments.len() && 0 <= j < after.segments.len() && i
                != j implies after.segments[i] != after.segments[j] by {
            if i == 0 {
                assert(after.segments.skip(1)[j - 1] == after.segments[j]);
            } else if j == 0 {
                assert(after.segments.skip(1)[i - 1] == after.segments[i]);
            } else {
                assert(after.segments[i] == snake.segments[i - 1]);
                assert(after.segments[j] == snake.segments[j - 1]);
            }
        }
    }
}

/// After a tick that the snake survives, its neck lies where the head came
/// from.
pub proof fn lemma_advance_puts_neck_behind(snake: SnakeView, apple: GridPosition)
    requires
        snake.wf(),
    ensures
        snake.advance(apple).alive ==> snake.advance(apple).neck_is_behind(),
{
    let after = snake.advance(apple);
    if after.alive && after.segments.len() >= 2 {
        assert(snake.head().in_bounds());
        assert(after.segments[1] == snake.head());
    }
}

/// No turning back into itself: a well-formed snake whose neck lies where
/// the head came from does not enter its neck on the next tick, whatever
/// was asked of it since.
pub proof fn lemma_never_enters_neck(snake: SnakeView)
    requires
        snake.wf(),
        snake.neck_is_behind(),
        snake.segments.len() >= 2,
    ensures
        snake.next_head() != snake.segments[1],
{
}

/// A tick leaves a contiguous snake contiguous.
pub proof fn lemma_advance_keeps_contiguous(snake: SnakeView, apple: GridPosition)
    requires
        snake.wf(),
        snake.is_contiguous(),
    ensures
        snake.advance(apple).is_contiguous(),
{
    let after = snake.advance(apple);
    if snake.next_head().in_bounds() {
        assert forall|i: int| 0 <= i < after.segments.len() - 1 implies (
        #[trigger] after.segments[i]).is_adjacent(after.segments[i + 1]) by {
            if i == 0 {
                let back = snake.facing.spec_inverse();
                assert(snake.head().in_bounds());
                assert(after.segments[1] == snake.head());
                assert(snake.head() == after.segments[0].spec_step(back));
            } else {
                assert(after.segments[i] == snake.segments[i - 1]);
                assert(after.segments[i + 1] == snake.segments[i]);
            }
        }
    }
}

/// The reversal guard: after a tick, a request to face against the move just
/// made is ignored, and a request to face across it is taken.
pub proof fn lemma_reversal_guard(snake: SnakeView, apple: GridPosition, direction: Direction)
    ensures
        snake.advance(apple).set_facing(snake.facing.spec_inverse()) == snake.advance(apple),
        direction != snake.facing && direction != snake.facing.spec_inverse() ==> snake.advance(
            apple,
        ).set_facing(direction).facing == direction,
        snake.advance(apple).set_facing(direction).facing != snake.facing.spec_inverse(),
{
}

/// Eating: a tick that takes the head onto the apple's cell adds one point
/// and one segment, and shortens the tick interval by one fixed step.
pub proof fn lemma_eating_grows(snake: SnakeView, apple: GridPosition)
    requires
        apple.in_bounds(),
        snake.next_head() == apple,
    ensures
        snake.advance(apple).has_eaten,
        snake.advance(apple).score == snake.score + 1,
        snake.advance(apple).segments.len() == snake.segments.len() + 1,
        snake.advance(apple).segments == seq![apple] + snake.segments,
        snake.advance(apple).tick_interval_micros() == snake.tick_interval_micros()
            - MICROS_PER_SPEED_UNIT * SPEED_STEP,
{
}

/// A tick that does not take the head onto the apple's cell leaves score,
/// length and tick interval as they are.
pub proof fn lemma_not_eating_keeps_length(snake: SnakeView, apple: GridPosition)
    requires
        snake.segments.len() >= 1,
        snake.next_head() != apple,
    ensures
        !snake.advance(apple).has_eaten,
        snake.advance(apple).score == snake.score,
        snake.advance(apple).segments.len() == snake.segments.len(),
        snake.advance(apple).tick_interval_micros() == snake.tick_interval_micros(),
{
}

/// A tick that would take the head off the board kills the snake and leaves
/// its segments as they are.
pub proof fn lemma_leaving_board_kills(snake: SnakeView, apple: GridPosition)
    requires
        !snake.next_head().in_bounds(),
    ensures
        !snake.advance(apple).alive,
        snake.advance(apple).segments == snake.segments,
        snake.advance(apple).score == snake.score,
{
}

/// A well-formed snake lies on the board: its head is never out of bounds.
pub proof fn lemma_head_on_board(snake: SnakeView)
    requires
        snake.wf(),
    ensures
        !snake.out_of_bounds(),
{
}

/// A snake of one segment does not collide with itself.
pub proof fn lemma_single_segment_never_collides(snake: SnakeView)
    requires
        snake.segments.len() == 1,
    ensures
        !snake.collides(),
{
}

/// A living well-formed snake has at most as many segments as the board has
/// cells.
pub proof fn lemma_living_snake_fits_board(snake: SnakeView)
    requires
        snake.wf(),
        snake.alive,
    ensures
        snake.segments.len() <= BOARD_CELLS,
{
    lemma_distinct_cells_fit_board(snake.segments);
}

} // verus!
