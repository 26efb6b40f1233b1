//! The schedule of a tick: which cells take a turn, in what order, and what
//! a batch of ticks comes to.

use vstd::prelude::*;
use crate::materials::{behave, lemma_behave_frame, Material};
use crate::world::{same_frame, World};

verus! {

impl World {
    /// The world after the cell at `(x, y)` has had its turn: nothing happens
    /// to a cell stamped with the current generation or to an empty one; any
    /// other acts by its material.
    pub open spec fn update_at(self, x: int, y: int) -> World {
        let cell = self.get(x, y);
        if cell.clock == self.generation || cell.material == Material::Empty {
            self
        } else {
            behave(self, x, y, cell)
        }
    }

    /// The column visited at step `k` of a row scan: left to right in even
    /// generations, right to left in odd ones.
    pub open spec fn column(self, k: int) -> int {
        if self.generation % 2 == 0 {
            k
        } else {
            self.width - 1 - k
        }
    }

    /// The step of a row scan at which column `x` is visited.
    pub open spec fn turn_of(self, x: int) -> int {
        if self.generation % 2 == 0 {
            x
        } else {
            self.width - 1 - x
        }
    }

    /// The world after the first `n` cells of row `y`, in scan order, have
    /// had their turn.
    pub open spec fn scan_row(self, y: int, n: nat) -> World
        decreases n,
    {
        if n == 0 {
            self
        } else {
            let before = self.scan_row(y, (n - 1) as nat);
            before.update_at(before.column(n - 1), y)
        }
    }

    /// The world after the bottom `n` rows have been scanned, lowest first.
    pub open spec fn scan_rows(self, n: nat) -> World
        decreases n,
    {
        if n == 0 {
            self
        } else {
            let before = self.scan_rows((n - 1) as nat);
            before.scan_row(before.height - n, before.width)
        }
    }

    /// The world at the start of its next tick: the generation advanced by
    /// one, wrapping, and nothing scanned yet.
    pub open spec fn advanced(self) -> World {
        World { generation: self.stamp(), ..self }
    }

    /// The world one tick later: the generation advances and every row is
    /// scanned, from the bottom row up.
    pub open spec fn tick(self) -> World {
        self.advanced().scan_rows(self.height)
    }

    /// The world `ticks` ticks later.
    pub open spec fn run(self, ticks: nat) -> World
        decreases ticks,
    {
        if ticks == 0 {
            self
        } else {
            self.run((ticks - 1) as nat).tick()
        }
    }

    /// The world after a batch of `ticks` ticks and one render pass.
    pub open spec fn step(self, ticks: nat) -> World {
        self.run(ticks).refreshed()
    }
}

/// The scan of a row gives every column exactly one turn: steps and columns
/// correspond one to one.
pub proof fn lemma_scan_visits_each_column_once(w: World, x: int, k: int)
    ensures
        0 <= x < w.width ==> 0 <= w.turn_of(x) < w.width && w.column(w.turn_of(x)) == x,
        0 <= k < w.width ==> 0 <= w.column(k) < w.width && w.turn_of(w.column(k)) == k,
{
}

/// A cell's turn changes nothing but cells and the random state.
pub proof fn lemma_update_at_frame(w: World, x: int, y: int)
    requires
        w.wf(),
    ensures
        same_frame(w, w.update_at(x, y)),
        w.update_at(x, y).wf(),
{
    let cell = w.get(x, y);
    if cell.clock != w.generation {
        lemma_behave_frame(w, x, y, cell);
    }
}

/// Scanning part of a row changes nothing but cells and the random state.
pub proof fn lemma_scan_row_frame(w: World, y: int, n: nat)
    requires
        w.wf(),
    ensures
        same_frame(w, w.scan_row(y, n)),
        w.scan_row(y, n).wf(),
    decreases n,
{
    if n > 0 {
        lemma_scan_row_frame(w, y, (n - 1) as nat);
        let before = w.scan_row(y, (n - 1) as nat);
        lemma_update_at_frame(before, before.column(n - 1), y);
    }
}

/// Scanning rows changes nothing but cells and the random state.
pub proof fn lemma_scan_rows_frame(w: World, n: nat)
    requires
        w.wf(),
    ensures
        same_frame(w, w.scan_rows(n)),
        w.scan_rows(n).wf(),
    decreases n,
{
    if n > 0 {
        lemma_scan_rows_frame(w, (n - 1) as nat);
        let before = w.scan_rows((n - 1) as nat);
        lemma_scan_row_frame(before, before.height - n, before.width);
    }
}

/// A tick changes nothing but cells, the random state and the generation,
/// which takes its next value.
pub proof fn lemma_tick_frame(w: World)
    requires
        w.wf(),
    ensures
        same_frame(w.advanced(), w.tick()),
        w.tick().wf(),
{
    lemma_scan_rows_frame(w.advanced(), w.height);
}

/// Running ticks keeps the dimensions, the number of cells and the pixel
/// buffer, and advances the generation by the number of ticks, wrapping.
pub proof fn lemma_run_frame(w: World, ticks: nat)
    requires
        w.wf(),
    ensures
        w.run(ticks).wf(),
        w.run(ticks).width == w.width,
        w.run(ticks).height == w.height,
        w.run(ticks).pixels == w.pixels,
        w.run(ticks).generation == (w.generation + ticks) % 256,
    decreases ticks,
{
    if ticks > 0 {
        lemma_run_frame(w, (ticks - 1) as nat);
        lemma_tick_frame(w.run((ticks - 1) as nat));
    }
}

/// Running `a` ticks and then `b` ticks is running `a + b` ticks.
pub proof fn lemma_run_adds(w: World, a: nat, b: nat)
    ensures
        w.run(a + b) == w.run(a).run(b),
    decreases b,
{
    if b > 0 {
        lemma_run_adds(w, a, (b - 1) as nat);
    }
}

} // verus!
