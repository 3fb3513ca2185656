//! Simulation core of a falling-block puzzle game.
//!
//! The crate owns the playing grid, the falling piece, the queue of upcoming
//! pieces, scoring, and the rules for movement, rotation, collision, line
//! clearing, holding, and loss detection. It is driven by discrete time
//! deltas and discrete player intents; rendering and the host embedding are
//! left to the caller.

pub mod bag;
pub mod game;
pub mod rng;
pub mod tetrimino;
pub mod utils;

pub use bag::SevenGenerator;
pub use game::{ActivePiece, Game, Intents, State};
pub use rng::Rng;
pub use tetrimino::{Color, PieceType, Tetrimino};
pub use utils::shuffle;
