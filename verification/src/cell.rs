//! One slot of the grid.

use vstd::prelude::*;
use crate::materials::Material;

verus! {

/// The content of one grid slot: a material, two auxiliary bytes that travel
/// with it, and the generation stamp of the last write to the slot.
#[derive(Clone, Copy, Debug, PartialEq, Eq, Structural)]
pub struct Cell {
    pub material: Material,
    pub ra: u8,
    pub rb: u8,
    pub clock: u8,
}

impl Cell {
    /// The empty cell that carries the given stamp.
    pub open spec fn vacant(clock: u8) -> Cell {
        Cell { material: Material::Empty, ra: 0, rb: 0, clock }
    }

    /// A cell of the given material with cleared auxiliary bytes.
    pub open spec fn fresh(material: Material, clock: u8) -> Cell {
        Cell { material, ra: 0, rb: 0, clock }
    }

    /// The same cell carrying another stamp.
    pub open spec fn stamped(self, clock: u8) -> Cell {
        Cell { clock, ..self }
    }

    /// An empty cell carrying the given stamp.
    #[inline]
    pub fn empty_with_clock(clock: u8) -> (cell: Cell)
        ensures
            cell == Cell::vacant(clock),
    {
        Cell { material: Material::Empty, ra: 0, rb: 0, clock }
    }
}

} // verus!
