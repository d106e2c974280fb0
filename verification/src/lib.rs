//! A two-player tic-tac-toe engine with verified rules.
//!
//! The library owns everything that can be stated and proved: the board
//! model, the win and draw rules, the move parser, and the turn-taking
//! game state. A thin unverified front end supplies the terminal I/O.

pub mod board;
pub mod game;
pub mod reader;
pub mod rules;
pub mod task;
pub mod text;

pub use board::{Board, BoardError, Cell, PlayerMark};
pub use game::{GameState, StepResult};
pub use reader::parse_move;
pub use rules::{is_draw, outcome, winner, Outcome};
pub use task::Task;
pub use text::append_string;
