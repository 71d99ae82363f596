//! Movement and collision engine of a wrap-around snake game.
//!
//! The body is kept in run-length form (a head, the length of the straight
//! run behind it, and a queue of bends), so that every mutation is O(1);
//! the occupied cells are only materialized by [`Snake::rasterize`].
mod clock;
pub mod direction;
pub mod game;
pub mod pixel;
pub mod snake;

pub use direction::Direction;
pub use game::{adjust_term_size, generate_game};
pub use pixel::Pixel;
pub use snake::{Raster, Snake, SnakeView, INITIAL_LENGTH};
