//! Setting up a round, and the grid that a terminal holds.
use vstd::prelude::*;

use crate::pixel::Pixel;
use crate::snake::Snake;
use crate::snake::SnakeView;

verus! {

/// A new round on a grid of the given size: a fresh body and a piece of
/// food, each placed from the clock strictly inside the grid.
pub fn generate_game(term_size: Pixel) -> (r: (Snake, Pixel))
    requires
        term_size.x > 0,
        term_size.y > 0,
    ensures
        r.0@ == SnakeView::fresh(r.0@.head),
        r.0@.ready(),
        r.0@.head.x < term_size.x,
        r.0@.head.y < term_size.y,
        r.1.x < term_size.x,
        r.1.y < term_size.y,
{
    (Snake::new(Pixel::randomize(term_size)), Pixel::randomize(term_size))
}

/// The grid that a terminal of `cols` columns and `rows` rows shows, each
/// cell two columns wide: the largest column and row that fit.
pub fn adjust_term_size(cols: u16, rows: u16) -> (r: Pixel)
    requires
        cols >= 1,
        rows >= 1,
    ensures
        r.x == (cols - 1) / 2,
        r.y == rows - 1,
{
    Pixel { x: (cols - 1) / 2, y: rows - 1 }
}

} // verus!
