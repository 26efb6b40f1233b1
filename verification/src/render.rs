//! The projection from cells to the RGBA pixel buffer.

use vstd::prelude::*;
use crate::cell::Cell;
use crate::materials::color;

verus! {

/// The pixel buffer that shows `cells`: four bytes per cell, in cell order,
/// each cell in the colour of its material varied by its `ra` byte.
pub open spec fn render(cells: Seq<Cell>) -> Seq<u8> {
    Seq::new(
        (4 * cells.len()) as nat,
        |p: int| color(cells[p / 4].material, cells[p / 4].ra)[p % 4],
    )
}

/// The pixel buffer after the four bytes of cell `i` are replaced by `rgba`.
pub open spec fn with_pixel(pixels: Seq<u8>, i: int, rgba: Seq<u8>) -> Seq<u8> {
    pixels.update(4 * i, rgba[0]).update(4 * i + 1, rgba[1]).update(4 * i + 2, rgba[2]).update(
        4 * i + 3,
        rgba[3],
    )
}

} // verus!
