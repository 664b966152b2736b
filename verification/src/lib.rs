//! A Snake game on a fixed 10×10 board, with its rules verified.
//!
//! The library holds the game's state and rules: how the snake moves, grows
//! and dies, where a new apple may appear, when a movement tick is due and
//! how the high score is kept. Drawing, key polling, the clock and the
//! high-score file belong to the program that drives it.

pub mod apple;
pub mod game;
pub mod grid;
pub mod high_score;
pub mod scheduler;
pub mod snake;

pub use apple::Apple;
pub use game::{FrameInput, Game, GamePhase, GameView};
pub use grid::{Direction, GridPosition, BOARD_CELLS, BOARD_HEIGHT, BOARD_WIDTH};
pub use high_score::HighScore;
pub use scheduler::TickTimer;
pub use snake::{Snake, SnakeView};
