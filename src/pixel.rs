use vstd::prelude::*;

use crate::clock::unix_epoch;
use crate::snake::raster_cells;
use crate::snake::Raster;
use std::time::SystemTime;

verus! {

broadcast use {
    vstd::std_specs::hash::group_hash_axioms,
    vstd::std_specs::btree::group_btree_axioms,
    vstd::laws_cmp::group_laws_cmp,
};

/// A cell of the grid; a grid size is written as a pixel too, whose
/// coordinates are the largest addressable column and row.
#[derive(Clone, Copy, Debug, Default, PartialEq, Eq, Structural)]
pub struct Pixel {
    pub x: u16,
    pub y: u16,
}

impl Pixel {
    /// Whether this cell is among the occupied cells of `m`.
    pub fn is_in(&self, m: &Raster) -> (r: bool)
        ensures
            r == raster_cells(m@).contains(*self),
    {
        match m.get(&self.y) {
            Some(v) => v.contains(&self.x),
            None => false,
        }
    }

    /// The cell that a clock reading seeds on a grid of the given size:
    /// the column from the nanoseconds, the row from the milliseconds.
    pub fn from_seed(nanos: u128, millis: u128, size: Pixel) -> (r: Pixel)
        requires
            size.x > 0,
            size.y > 0,
        ensures
            r.x == nanos % (size.x as u128),
            r.y == millis % (size.y as u128),
    {
        Pixel { x: (nanos % (size.x as u128)) as u16, y: (millis % (size.y as u128)) as u16 }
    }

    /// A cell picked from the system clock, strictly inside `size` on
    /// both axes; a clock that reads before the epoch seeds with zero.
    pub fn randomize(size: Pixel) -> (r: Pixel)
        requires
            size.x > 0,
            size.y > 0,
        ensures
            r.x < size.x,
            r.y < size.y,
    {
        match SystemTime::now().duration_since(unix_epoch()) {
            Ok(seed) => Pixel::from_seed(seed.as_nanos(), seed.as_millis(), size),
            Err(_) => Pixel::from_seed(0, 0, size),
        }
    }
}

} // verus!
