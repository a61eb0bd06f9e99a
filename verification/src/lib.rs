//! A decision engine for a turn-based multi-agent grid survival game.
//!
//! Each tick the engine chooses one of four cardinal moves for a controlled
//! snake sharing a bounded grid with rival snakes and food. The board model,
//! move-legality filter, state-transition function, heuristic evaluator and
//! depth-bounded minimax search are all verified; the caller supplies a
//! snapshot of the game and receives exactly one direction back.

pub mod board;
pub mod legality;
pub mod transition;
pub mod eval;
pub mod search;
pub mod pruning;
pub mod driver;

pub use crate::board::Battlesnake;
pub use crate::board::Board;
pub use crate::board::Coord;
pub use crate::board::Direction;
pub use crate::board::Game;
pub use crate::driver::end;
pub use crate::driver::get_move;
pub use crate::driver::start;
pub use crate::eval::evaluate_board;
pub use crate::search::minimax;
pub use crate::search::minimax_plain;
pub use crate::transition::simulate_move;
