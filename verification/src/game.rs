//! The game: snake, apple, tick timer and high score, and what one frame
//! of play does to them.

use vstd::prelude::*;
use crate::apple::Apple;
use crate::grid::{Direction, GridPosition, BOARD_CELLS};
use crate::high_score::{best_of, HighScore};
use crate::scheduler::{accumulate, tick_due, TickTimer};
use crate::snake::{lemma_living_snake_fits_board, Snake, SnakeView};

verus! {

/// Whether a game is being played or has ended.
#[derive(Clone, Copy, Debug, PartialEq, Eq, Structural)]
pub enum GamePhase {
    Playing,
    GameOver,
}

/// The intents that the player raised during one frame.
#[derive(Clone, Copy, Debug, PartialEq, Eq, Structural)]
pub struct FrameInput {
    pub up: bool,
    pub down: bool,
    pub left: bool,
    pub right: bool,
    pub restart: bool,
}

/// The snake after the directions raised in `input` were asked of it one by
/// one: down, then up, then left, then right.
pub open spec fn steered(snake: SnakeView, input: FrameInput) -> SnakeView {
    let after_down = if input.down {
        snake.set_facing(Direction::Down)
    } else {
        snake
    };
    let after_up = if input.up {
        after_down.set_facing(Direction::Up)
    } else {
        after_down
    };
    let after_left = if input.left {
        after_up.set_facing(Direction::Left)
    } else {
        after_up
    };
    if input.right {
        after_left.set_facing(Direction::Right)
    } else {
        after_left
    }
}

/// The mathematical value of a [`Game`].
pub struct GameView {
    pub snake: SnakeView,
    /// The cell the apple lies on.
    pub apple: GridPosition,
    pub phase: GamePhase,
    pub high_score: int,
    /// Microseconds gathered since the last tick.
    pub accumulated: int,
}

impl GameView {
    /// The game's invariant: a well-formed snake, a timer within its range,
    /// and, while the game is played, a living snake and an apple on a cell
    /// of the board that the snake does not cover.
    pub open spec fn wf(self) -> bool {
        &&& self.snake.wf()
        &&& 0 <= self.accumulated <= u64::MAX
        &&& self.phase == GamePhase::Playing ==> {
            &&& self.snake.alive
            &&& self.apple.in_bounds()
            &&& !self.snake.covers(self.apple)
        }
    }

    /// Whether a tick of this game ends it: the snake dies, or it eats the
    /// apple and fills the board, so that no apple can follow.
    pub open spec fn tick_ends_game(self) -> bool {
        let snake = self.snake.advance(self.apple);
        !snake.alive || (snake.has_eaten && snake.segments.len() >= BOARD_CELLS)
    }

    /// The game after one movement tick, where `fresh_apple` is the cell of
    /// the next apple if the snake eats this one.
    pub open spec fn tick(self, fresh_apple: GridPosition) -> GameView {
        let snake = self.snake.advance(self.apple);
        if self.tick_ends_game() {
            GameView {
                snake,
                phase: GamePhase::GameOver,
                high_score: best_of(self.high_score, snake.score),
                ..self
            }
        } else if snake.has_eaten {
            GameView { snake, apple: fresh_apple, ..self }
        } else {
            GameView { snake, ..self }
        }
    }

    /// The high score to be stored after a tick of this game: the snake's
    /// score, if the tick ends the game with more points than the high score.
    pub open spec fn tick_stores(self) -> Option<i32> {
        let snake = self.snake.advance(self.apple);
        if self.tick_ends_game() && snake.score > self.high_score {
            Some(snake.score as i32)
        } else {
            None
        }
    }

    /// The game after a restart, with the first apple on `fresh_apple`: a
    /// fresh snake, play resumed, and high score and timer as they were.
    pub open spec fn restart(self, fresh_apple: GridPosition) -> GameView {
        GameView {
            snake: SnakeView::initial(),
            apple: fresh_apple,
            phase: GamePhase::Playing,
            ..self
        }
    }

    /// This game with the time of one frame added and, while it is played,
    /// the snake steered by the frame's input.
    pub open spec fn prepared(self, input: FrameInput, elapsed: int) -> GameView {
        GameView {
            snake: if self.phase == GamePhase::Playing {
                steered(self.snake, input)
            } else {
                self.snake
            },
            accumulated: accumulate(self.accumulated, elapsed),
            ..self
        }
    }

    /// Whether the frame moves the snake: the game is played and, with the
    /// frame's time added, a tick is due.
    pub open spec fn frame_ticks(self, input: FrameInput, elapsed: int) -> bool {
        let prepared = self.prepared(input, elapsed);
        self.phase == GamePhase::Playing && tick_due(
            prepared.accumulated,
            prepared.snake.tick_interval_micros(),
        )
    }

    /// The game after one frame with the given input, `elapsed` microseconds
    /// after the frame before, where `fresh_apple` is the cell of the apple
    /// that the frame places, if it places one.
    ///
    /// While the game is played, the snake is steered and then moved by one
    /// tick if one is due. Once it has ended, a restart intent starts a new
    /// one. Time is gathered in both phases.
    pub open spec fn frame(
        self,
        input: FrameInput,
        elapsed: int,
        fresh_apple: GridPosition,
    ) -> GameView {
        let prepared = self.prepared(input, elapsed);
        if self.frame_ticks(input, elapsed) {
            GameView { accumulated: 0, ..prepared }.tick(fresh_apple)
        } else if self.phase == GamePhase::GameOver && input.restart {
            prepared.restart(fresh_apple)
        } else {
            prepared
        }
    }

    /// The high score to be stored after the frame, if there is one.
    pub open spec fn frame_stores(self, input: FrameInput, elapsed: int) -> Option<i32> {
        if self.frame_ticks(input, elapsed) {
            self.prepared(input, elapsed).tick_stores()
        } else {
            None
        }
    }
}

/// A game of Snake.
#[derive(Clone, Debug)]
pub struct Game {
    snake: Snake,
    apple: Apple,
    phase: GamePhase,
    high_score: HighScore,
    timer: TickTimer,
}

impl View for Game {
    type V = GameView;

    closed spec fn view(&self) -> GameView {
        GameView {
            snake: self.snake@,
            apple: self.apple@,
            phase: self.phase,
            high_score: self.high_score@,
            accumulated: self.timer@,
        }
    }
}

impl Game {
    /// A new game with the given high score: a fresh snake, an apple on a
    /// free cell of the board, and a timer that has gathered no time.
    pub fn new(high_score: HighScore) -> (game: Game)
        ensures
            game@.snake == SnakeView::initial(),
            game@.phase == GamePhase::Playing,
            game@.high_score == high_score@,
            game@.accumulated == 0,
            game@.wf(),
            game@.snake.is_contiguous(),
    {
        let snake = Snake::new();
        let apple = Apple::new(&snake);
        Game { snake, apple, phase: GamePhase::Playing, high_score, timer: TickTimer::new() }
    }

    /// A game that goes on from `snake`, with the given high score: an apple
    /// on a free cell of the board, and a timer that has gathered no time.
    /// `None` if the snake is dead or fills the board, so that no game can be
    /// played with it.
    pub fn with_snake(snake: Snake, high_score: HighScore) -> (r: Option<Game>)
        requires
            snake@.wf(),
        ensures
            r is Some <==> snake@.alive && snake@.segments.len() < BOARD_CELLS,
            r is Some ==> {
                &&& r->0@.snake == snake@
                &&& r->0@.phase == GamePhase::Playing
                &&& r->0@.high_score == high_score@
                &&& r->0@.accumulated == 0
                &&& r->0@.wf()
            },
    {
        if snake.is_alive() && snake.len() < BOARD_CELLS {
            let apple = Apple::new(&snake);
            Some(
                Game {
                    snake,
                    apple,
                    phase: GamePhase::Playing,
                    high_score,
                    timer: TickTimer::new(),
                },
            )
        } else {
            None
        }
    }

    /// The snake.
    pub fn snake(&self) -> (r: &Snake)
        ensures
            r@ == self@.snake,
    {
        &self.snake
    }

    /// The apple.
    pub fn apple(&self) -> (r: &Apple)
        ensures
            r@ == self@.apple,
    {
        &self.apple
    }

    /// Whether the game is being played or has ended.
    pub fn phase(&self) -> (r: GamePhase)
        ensures
            r == self@.phase,
    {
        self.phase
    }

    /// Whether the game has ended.
    pub fn is_game_over(&self) -> (r: bool)
        ensures
            r == (self@.phase == GamePhase::GameOver),
    {
        self.phase == GamePhase::GameOver
    }

    /// The high score.
    pub fn high_score(&self) -> (r: i32)
        ensures
            r == self@.high_score,
    {
        self.high_score.value()
    }

    /// Microseconds gathered since the last tick.
    pub fn accumulated_micros(&self) -> (r: u64)
        ensures
            r == self@.accumulated,
    {
        self.timer.accumulated()
    }

    /// Asks of the snake the directions raised in `input`, one by one: down,
    /// then up, then left, then right.
    pub fn steer(&mut self, input: FrameInput)
        requires
            old(self)@.wf(),
        ensures
            final(self)@ == (GameView { snake: steered(old(self)@.snake, input), ..old(self)@ }),
            final(self)@.wf(),
            old(self)@.snake.is_contiguous() ==> final(self)@.snake.is_contiguous(),
    {
        if input.down {
            self.snake.set_facing(Direction::Down);
        }
        if input.up {
            self.snake.set_facing(Direction::Up);
        }
        if input.left {
            self.snake.set_facing(Direction::Left);
        }
        if input.right {
            self.snake.set_facing(Direction::Right);
        }
    }

    /// Moves the snake by one tick and settles what follows from the move.
    ///
    /// If the snake dies the game ends. If it eats the apple, a new apple is
    /// placed on a free cell, unless the snake now fills the board: then the
    /// game ends as well. When the game ends, a score above the high score
    /// becomes the high score and is returned, to be stored.
    pub fn tick(&mut self) -> (stored: Option<i32>)
        requires
            old(self)@.wf(),
            old(self)@.phase == GamePhase::Playing,
        ensures
            final(self)@ == old(self)@.tick(final(self)@.apple),
            final(self)@.wf(),
            stored == old(self)@.tick_stores(),
            final(self)@.phase == GamePhase::GameOver ==> final(self)@.high_score == best_of(
                old(self)@.high_score,
                final(self)@.snake.score,
            ),
            old(self)@.snake.is_contiguous() ==> final(self)@.snake.is_contiguous(),
    {
        let ghost before = self@;
        self.snake.advance(self.apple.position());
        if self.snake.is_alive() {
            if !self.snake.has_eaten() {
                proof {
                    let after = self.snake@;
                    assert forall|i: int| 0 <= i < after.segments.len() implies after.segments[i]
                        != before.apple by {
                        if i > 0 {
                            assert(after.segments[i] == before.snake.segments[i - 1]);
                        }
                    }
                }
                return None;
            }
            if self.snake.len() < BOARD_CELLS {
                self.apple.respawn(&self.snake);
                return None;
            }
        }
        self.phase = GamePhase::GameOver;
        self.high_score.record(self.snake.score())
    }

    /// Starts a new game: a fresh snake and a new apple, with high score and
    /// timer as they are.
    pub fn restart(&mut self)
        requires
            old(self)@.wf(),
        ensures
            final(self)@ == old(self)@.restart(final(self)@.apple),
            final(self)@.wf(),
            final(self)@.snake.is_contiguous(),
    {
        self.snake = Snake::new();
        self.apple = Apple::new(&self.snake);
        self.phase = GamePhase::Playing;
    }

    /// Plays one frame: `input` holds the intents raised in it, and
    /// `elapsed_micros` is the time since the frame before, in microseconds.
    ///
    /// While the game is played, the snake is steered, and moved by one tick
    /// if one is due. Once the game has ended, a restart intent starts a new
    /// one. Returned is the high score to be stored, if the frame has set one.
    pub fn frame(&mut self, input: FrameInput, elapsed_micros: u64) -> (stored: Option<i32>)
        requires
            old(self)@.wf(),
        ensures
            final(self)@ == old(self)@.frame(input, elapsed_micros as int, final(self)@.apple),
            final(self)@.wf(),
            stored == old(self)@.frame_stores(input, elapsed_micros as int),
            old(self)@.snake.is_contiguous() ==> final(self)@.snake.is_contiguous(),
    {
        self.timer.add_elapsed(elapsed_micros);
        match self.phase {
            GamePhase::Playing => {
                self.steer(input);
                if self.timer.consume_tick_if_due(self.snake.tick_interval_micros()) {
                    self.tick()
                } else {
                    None
                }
            },
            GamePhase::GameOver => {
                if input.restart {
                    self.restart();
                }
                None
            },
        }
    }
}

/// An apple that is eaten does no harm: in a well-formed game that is being
/// played, a snake that eats the apple survives the tick.
pub proof fn lemma_eating_is_safe(game: GameView)
    requires
        game.wf(),
        game.phase == GamePhase::Playing,
        game.snake.advance(game.apple).has_eaten,
    ensures
        game.snake.advance(game.apple).alive,
{
    let after = game.snake.advance(game.apple);
    assert forall|i: int| 0 <= i < after.segments.skip(1).len() implies after.segments.skip(1)[i]
        != after.head() by {
        assert(after.segments.skip(1)[i] == game.snake.segments[i]);
    }
}

/// The high score at the end of a session: when a frame ends the game, the
/// high score is the greater of the high score before and the score of the
/// session, and it is handed out to be stored exactly if it has changed.
pub proof fn lemma_game_over_keeps_best(
    game: GameView,
    input: FrameInput,
    elapsed: int,
    fresh_apple: GridPosition,
)
    requires
        game.phase == GamePhase::Playing,
        game.frame(input, elapsed, fresh_apple).phase == GamePhase::GameOver,
    ensures
        game.frame(input, elapsed, fresh_apple).high_score == best_of(
            game.high_score,
            game.frame(input, elapsed, fresh_apple).snake.score,
        ),
        game.frame_stores(input, elapsed) is Some <==> game.frame(
            input,
            elapsed,
            fresh_apple,
        ).high_score != game.high_score,
        game.wf() && game.frame_stores(input, elapsed) is Some ==> game.frame_stores(
            input,
            elapsed,
        )->0 == game.frame(input, elapsed, fresh_apple).high_score,
{
    if game.wf() {
        lemma_living_snake_fits_board(game.prepared(input, elapsed).snake);
    }
}

/// The high score never falls, and only a frame that ends the game changes
/// it.
pub proof fn lemma_high_score_never_falls(
    game: GameView,
    input: FrameInput,
    elapsed: int,
    fresh_apple: GridPosition,
)
    ensures
        game.frame(input, elapsed, fresh_apple).high_score >= game.high_score,
        game.frame(input, elapsed, fresh_apple).phase == game.phase ==> game.frame(
            input,
            elapsed,
            fresh_apple,
        ).high_score == game.high_score,
        game.phase == GamePhase::GameOver ==> game.frame(input, elapsed, fresh_apple).high_score
            == game.high_score,
{
}

/// A restart gives a fresh game: the snake is one segment on the start cell
/// with no points, the game is played, and the high score is kept.
pub proof fn lemma_restart_is_fresh(
    game: GameView,
    input: FrameInput,
    elapsed: int,
    fresh_apple: GridPosition,
)
    requires
        game.phase == GamePhase::GameOver,
        input.restart,
    ensures
        game.frame(input, elapsed, fresh_apple).snake == SnakeView::initial(),
        game.frame(input, elapsed, fresh_apple).apple == fresh_apple,
        game.frame(input, elapsed, fresh_apple).phase == GamePhase::Playing,
        game.frame(input, elapsed, fresh_apple).high_score == game.high_score,
{
}

} // verus!
