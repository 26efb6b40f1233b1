//! Editing a world from outside: making it, drawing on it, clearing it, and
//! bringing its pixels up to date.

use vstd::prelude::*;
use crate::cell::Cell;
use crate::materials::{color, Material};
use crate::render::{render, with_pixel};
use crate::rng;
use crate::world::World;

verus! {

/// Whether `(x, y)` lies within `radius` of `(cx, cy)`, the rim included.
pub open spec fn in_circle(x: int, y: int, cx: int, cy: int, radius: int) -> bool {
    (x - cx) * (x - cx) + (y - cy) * (y - cy) <= radius * radius
}

impl World {
    /// A new world of the given dimensions: every cell empty and unstamped,
    /// every pixel opaque black.
    pub open spec fn fresh(width: nat, height: nat) -> World {
        let cells = Seq::new(width * height, |i: int| Cell::vacant(0));
        World { width, height, cells, pixels: render(cells), generation: 0, rng: rng::SEED }
    }

    /// The world with its pixel buffer brought up to date.
    pub open spec fn refreshed(self) -> World {
        World { pixels: render(self.cells), ..self }
    }

    /// Whether the pixel buffer shows the cells as they are.
    pub open spec fn in_sync(self) -> bool {
        self.pixels == render(self.cells)
    }

    /// The world after the cell at `(x, y)` is replaced by a fresh cell of the
    /// material that `id` stands for, and its pixel repainted. Coordinates
    /// outside the grid change nothing.
    pub open spec fn set_cell(self, x: int, y: int, id: u8) -> World {
        if self.in_bounds(x, y) {
            let i: int = self.index(x, y);
            let material = Material::of_id(id);
            World {
                cells: self.cells.update(i, Cell::fresh(material, self.stamp())),
                pixels: with_pixel(self.pixels, i, color(material, 0)),
                ..self
            }
        } else {
            self
        }
    }

    /// The world after every cell within `radius` of `(cx, cy)` is replaced
    /// by a fresh cell of the material that `id` stands for, and the pixel
    /// buffer brought up to date.
    pub open spec fn paint_circle(self, cx: int, cy: int, radius: int, id: u8) -> World {
        let painted = Cell::fresh(Material::of_id(id), self.stamp());
        let cells = Seq::new(
            self.cells.len(),
            |i: int|
                if in_circle(i % (self.width as int), i / (self.width as int), cx, cy, radius) {
                    painted
                } else {
                    self.cells[i]
                },
        );
        World { cells, ..self }.refreshed()
    }

    /// The world after every cell is emptied and the pixel buffer brought up
    /// to date.
    pub open spec fn cleared(self) -> World {
        let cells = Seq::new(self.cells.len(), |i: int| Cell::vacant(self.stamp()));
        World { cells, ..self }.refreshed()
    }
}

} // verus!
