//! The mathematical model of a simulation: the grid as a sequence of cells,
//! the pixel buffer, the generation counter and the random state, with the
//! movement primitives as functions from world to world.

use vstd::prelude::*;
use crate::cell::Cell;
use crate::materials::Material;
use crate::rng;

verus! {

/// The whole state of a simulation as plain mathematical values.
pub struct World {
    pub width: nat,
    pub height: nat,
    /// Row-major, top row first: the cell at `(x, y)` is at `y * width + x`.
    pub cells: Seq<Cell>,
    /// Four bytes per cell, in the order of `cells`.
    pub pixels: Seq<u8>,
    /// The tick counter, modulo 256.
    pub generation: u8,
    /// The state of the random source.
    pub rng: u64,
}

/// What a cell does on its turn.
pub enum Action {
    /// It stays where it is.
    Rest,
    /// It moves to the neighbour at the offset.
    Move { dx: int, dy: int },
    /// It trades places with the neighbour at the offset.
    Swap { dx: int, dy: int },
}

impl World {
    /// There is exactly one cell and one pixel per coordinate.
    pub open spec fn wf(self) -> bool {
        &&& self.cells.len() == self.width * self.height
        &&& self.pixels.len() == 4 * self.cells.len()
    }

    /// Whether `(x, y)` is a coordinate of the grid.
    pub open spec fn in_bounds(self, x: int, y: int) -> bool {
        0 <= x < self.width && 0 <= y < self.height
    }

    /// The position of `(x, y)` in `cells`.
    pub open spec fn index(self, x: int, y: int) -> int {
        y * self.width + x
    }

    /// The stamp that every write of the current tick carries: the value the
    /// generation counter takes next.
    pub open spec fn stamp(self) -> u8 {
        self.generation.wrapping_add(1)
    }

    /// What a read outside the grid sees: solid wall.
    pub open spec fn boundary(self) -> Cell {
        Cell { material: Material::Wall, ra: 0, rb: 0, clock: self.generation }
    }

    /// The cell at `(x, y)`; outside the grid, the boundary wall.
    pub open spec fn get(self, x: int, y: int) -> Cell {
        if self.in_bounds(x, y) {
            self.cells[self.index(x, y)]
        } else {
            self.boundary()
        }
    }

    /// The world after `cell`, freshly stamped, is written at `(x, y)`; a
    /// write outside the grid changes nothing.
    pub open spec fn put(self, x: int, y: int, cell: Cell) -> World {
        if self.in_bounds(x, y) {
            World { cells: self.cells.update(self.index(x, y), cell.stamped(self.stamp())), ..self }
        } else {
            self
        }
    }

    /// The world after the slot at `(x, y)` is emptied.
    pub open spec fn clear_at(self, x: int, y: int) -> World {
        self.put(x, y, Cell::vacant(0))
    }

    /// Whether the slot at `(x, y)` is free to move into.
    pub open spec fn is_open(self, x: int, y: int) -> bool {
        self.get(x, y).material == Material::Empty
    }

    /// The world after `cell` leaves `(x, y)` for the neighbour at offset
    /// `(dx, dy)`: written there, and the source emptied.
    pub open spec fn moved(self, x: int, y: int, dx: int, dy: int, cell: Cell) -> World {
        self.put(x + dx, y + dy, cell).clear_at(x, y)
    }

    /// A move that happens only into an empty neighbour.
    pub open spec fn try_move(self, x: int, y: int, dx: int, dy: int, cell: Cell) -> World {
        if self.is_open(x + dx, y + dy) {
            self.moved(x, y, dx, dy, cell)
        } else {
            self
        }
    }

    /// The world after `cell` and the neighbour at offset `(dx, dy)` trade
    /// places: `cell` is written there and the neighbour's old content at
    /// `(x, y)`.
    pub open spec fn swapped(self, x: int, y: int, dx: int, dy: int, cell: Cell) -> World {
        self.put(x + dx, y + dy, cell).put(x, y, self.get(x + dx, y + dy))
    }

    /// A swap that happens only with a neighbour of an allowed material.
    pub open spec fn try_move_into(
        self,
        x: int,
        y: int,
        dx: int,
        dy: int,
        cell: Cell,
        allowed: Seq<Material>,
    ) -> World {
        if allowed.contains(self.get(x + dx, y + dy).material) {
            self.swapped(x, y, dx, dy, cell)
        } else {
            self
        }
    }

    /// The world after `cell`, the cell at `(x, y)`, has done `action`.
    pub open spec fn act(self, x: int, y: int, cell: Cell, action: Action) -> World {
        match action {
            Action::Rest => self,
            Action::Move { dx, dy } => self.moved(x, y, dx, dy, cell),
            Action::Swap { dx, dy } => self.swapped(x, y, dx, dy, cell),
        }
    }

    /// Whether the cell at `(x, y)` may do `action`: a move needs an empty
    /// target, a swap a target inside the grid.
    pub open spec fn permits(self, x: int, y: int, action: Action) -> bool {
        match action {
            Action::Rest => true,
            Action::Move { dx, dy } => self.is_open(x + dx, y + dy),
            Action::Swap { dx, dy } => self.in_bounds(x + dx, y + dy),
        }
    }

    /// The world after one random draw.
    pub open spec fn drawn(self) -> World {
        World { rng: rng::advance(self.rng), ..self }
    }

    /// The value that the next random draw gives.
    pub open spec fn next_draw(self) -> u32 {
        rng::output(rng::advance(self.rng))
    }
}

/// In a well-formed world every coordinate inside the grid has its own
/// position in the cell sequence.
pub proof fn lemma_index_in_range(w: World, x: int, y: int)
    requires
        w.wf(),
        w.in_bounds(x, y),
    ensures
        0 <= y * w.width <= w.index(x, y) < w.cells.len(),
{
    assert(0 <= y * w.width && y * w.width + w.width <= w.width * w.height) by (nonlinear_arith)
        requires
            0 <= y < w.height,
    ;
}

/// Distinct coordinates inside the grid have distinct positions in the cell
/// sequence.
pub proof fn lemma_index_injective(w: World, x1: int, y1: int, x2: int, y2: int)
    requires
        w.in_bounds(x1, y1),
        w.in_bounds(x2, y2),
    ensures
        w.index(x1, y1) == w.index(x2, y2) <==> (x1 == x2 && y1 == y2),
{
    if y1 < y2 {
        assert(y1 * w.width + w.width <= y2 * w.width) by (nonlinear_arith)
            requires
                y1 + 1 <= y2,
                w.width >= 0,
        ;
    } else if y2 < y1 {
        assert(y2 * w.width + w.width <= y1 * w.width) by (nonlinear_arith)
            requires
                y2 + 1 <= y1,
                w.width >= 0,
        ;
    }
}

/// What no movement changes: the dimensions, the number of cells, the pixel
/// buffer and the generation.
pub open spec fn same_frame(a: World, b: World) -> bool {
    &&& a.width == b.width
    &&& a.height == b.height
    &&& a.cells.len() == b.cells.len()
    &&& a.pixels == b.pixels
    &&& a.generation == b.generation
}

/// A write changes nothing but cells.
pub proof fn lemma_put_frame(w: World, x: int, y: int, cell: Cell)
    requires
        w.wf(),
    ensures
        same_frame(w, w.put(x, y, cell)),
        w.put(x, y, cell).rng == w.rng,
        w.put(x, y, cell).wf(),
{
    if w.in_bounds(x, y) {
        lemma_index_in_range(w, x, y);
    }
}

/// An action changes nothing but cells.
pub proof fn lemma_act_frame(w: World, x: int, y: int, cell: Cell, action: Action)
    requires
        w.wf(),
    ensures
        same_frame(w, w.act(x, y, cell, action)),
        w.act(x, y, cell, action).rng == w.rng,
        w.act(x, y, cell, action).wf(),
{
    match action {
        Action::Rest => {},
        Action::Move { dx, dy } => {
            lemma_put_frame(w, x + dx, y + dy, cell);
            lemma_put_frame(w.put(x + dx, y + dy, cell), x, y, Cell::vacant(0));
        },
        Action::Swap { dx, dy } => {
            lemma_put_frame(w, x + dx, y + dy, cell);
            lemma_put_frame(w.put(x + dx, y + dy, cell), x, y, w.get(x + dx, y + dy));
        },
    }
}

} // verus!
