//! Conservation of mass: movement relocates material and never creates or
//! destroys it.

use vstd::prelude::*;
use crate::cell::Cell;
use crate::materials::{behave, lean, sand_choice, water_choice, Material};
use crate::schedule::{lemma_run_frame, lemma_scan_row_frame, lemma_scan_rows_frame};
use crate::world::{lemma_index_in_range, lemma_put_frame, Action, World};

verus! {

/// How many of `cells` hold the material with identifier `id`.
pub open spec fn count(cells: Seq<Cell>, id: u8) -> nat
    decreases cells.len(),
{
    if cells.len() == 0 {
        0
    } else {
        count(cells.drop_last(), id) + if cells.last().material.spec_id() == id {
            1nat
        } else {
            0nat
        }
    }
}

impl World {
    /// How many cells hold the material with identifier `id`.
    pub open spec fn count(self, id: u8) -> nat {
        count(self.cells, id)
    }
}

/// One if `cell` holds the material with identifier `id`, zero otherwise.
pub open spec fn weight(cell: Cell, id: u8) -> int {
    if cell.material.spec_id() == id {
        1
    } else {
        0
    }
}

/// Replacing one cell changes the count by the difference of the weights.
pub proof fn lemma_count_update(cells: Seq<Cell>, i: int, cell: Cell, id: u8)
    requires
        0 <= i < cells.len(),
    ensures
        count(cells.update(i, cell), id) == count(cells, id) - weight(cells[i], id) + weight(cell, id),
    decreases cells.len(),
{
    let after = cells.update(i, cell);
    if i == cells.len() - 1 {
        assert(after.drop_last() =~= cells.drop_last());
    } else {
        assert(after.drop_last() =~= cells.drop_last().update(i, cell));
        lemma_count_update(cells.drop_last(), i, cell, id);
    }
}

/// A write inside the grid changes the count by the difference of the
/// weights of the cell written and the cell overwritten.
pub proof fn lemma_put_count(w: World, x: int, y: int, cell: Cell, id: u8)
    requires
        w.wf(),
        w.in_bounds(x, y),
    ensures
        w.put(x, y, cell).count(id) == w.count(id) - weight(w.get(x, y), id) + weight(cell, id),
{
    lemma_index_in_range(w, x, y);
    lemma_count_update(w.cells, w.index(x, y), cell.stamped(w.stamp()), id);
}

/// A permitted action of the cell at `(x, y)` leaves every count as it was.
pub proof fn lemma_act_conserves(w: World, x: int, y: int, action: Action, id: u8)
    requires
        w.wf(),
        w.in_bounds(x, y),
        w.permits(x, y, action),
    ensures
        w.act(x, y, w.get(x, y), action).count(id) == w.count(id),
{
    let cell = w.get(x, y);
    match action {
        Action::Rest => {},
        Action::Move { dx, dy } => {
            let mid = w.put(x + dx, y + dy, cell);
            lemma_put_frame(w, x + dx, y + dy, cell);
            lemma_put_count(w, x + dx, y + dy, cell, id);
            lemma_put_count(mid, x, y, Cell::vacant(0), id);
            lemma_index_in_range(w, x, y);
            lemma_index_in_range(w, x + dx, y + dy);
        },
        Action::Swap { dx, dy } => {
            let target = w.get(x + dx, y + dy);
            let mid = w.put(x + dx, y + dy, cell);
            lemma_put_frame(w, x + dx, y + dy, cell);
            lemma_put_count(w, x + dx, y + dy, cell, id);
            lemma_put_count(mid, x, y, target, id);
            lemma_index_in_range(w, x, y);
            lemma_index_in_range(w, x + dx, y + dy);
        },
    }
}

/// The behaviour of the cell at `(x, y)` leaves every count as it was.
pub proof fn lemma_behave_conserves(w: World, x: int, y: int, id: u8)
    requires
        w.wf(),
        w.in_bounds(x, y),
    ensures
        behave(w, x, y, w.get(x, y)).count(id) == w.count(id),
{
    let cell = w.get(x, y);
    let once = w.drawn();
    let sand_does = sand_choice(w, x, y, lean(w.generation, w.next_draw()));
    let water_does = water_choice(w, x, y, lean(w.generation, once.next_draw()));
    match cell.material {
        Material::Sand => {
            if w.is_open(x, y + 1) {
                lemma_act_conserves(w, x, y, sand_does, id);
            } else {
                lemma_act_conserves(once, x, y, sand_does, id);
            }
        },
        Material::Water => {
            if w.next_draw() % 4 != 0 {
                if w.is_open(x, y + 1) {
                    lemma_act_conserves(once, x, y, water_does, id);
                } else {
                    lemma_act_conserves(once.drawn(), x, y, water_does, id);
                }
            }
        },
        _ => {},
    }
}

/// A cell's turn leaves every count as it was.
pub proof fn lemma_update_at_conserves(w: World, x: int, y: int, id: u8)
    requires
        w.wf(),
    ensures
        w.update_at(x, y).count(id) == w.count(id),
{
    if w.in_bounds(x, y) {
        lemma_behave_conserves(w, x, y, id);
    }
}

/// Scanning part of a row leaves every count as it was.
pub proof fn lemma_scan_row_conserves(w: World, y: int, n: nat, id: u8)
    requires
        w.wf(),
    ensures
        w.scan_row(y, n).count(id) == w.count(id),
    decreases n,
{
    if n > 0 {
        let before = w.scan_row(y, (n - 1) as nat);
        lemma_scan_row_conserves(w, y, (n - 1) as nat, id);
        lemma_scan_row_frame(w, y, (n - 1) as nat);
        lemma_update_at_conserves(before, before.column(n - 1), y, id);
    }
}

/// Scanning rows leaves every count as it was.
pub proof fn lemma_scan_rows_conserves(w: World, n: nat, id: u8)
    requires
        w.wf(),
    ensures
        w.scan_rows(n).count(id) == w.count(id),
    decreases n,
{
    if n > 0 {
        let before = w.scan_rows((n - 1) as nat);
        lemma_scan_rows_conserves(w, (n - 1) as nat, id);
        lemma_scan_rows_frame(w, (n - 1) as nat);
        lemma_scan_row_conserves(before, before.height - n, before.width, id);
    }
}

/// Running any number of ticks leaves every count as it was.
pub proof fn lemma_run_conserves(w: World, ticks: nat, id: u8)
    requires
        w.wf(),
    ensures
        w.run(ticks).count(id) == w.count(id),
    decreases ticks,
{
    if ticks > 0 {
        let before = w.run((ticks - 1) as nat);
        lemma_run_conserves(w, (ticks - 1) as nat, id);
        lemma_run_frame(w, (ticks - 1) as nat);
        lemma_scan_rows_conserves(before.advanced(), before.height, id);
    }
}

/// Mass conservation: a batch of ticks leaves the number of cells of every
/// material as it was. Materials only relocate; none appears or vanishes.
pub proof fn lemma_step_conserves_mass(w: World, ticks: nat, id: u8)
    requires
        w.wf(),
    ensures
        w.step(ticks).count(id) == w.count(id),
{
    lemma_run_conserves(w, ticks, id);
}

} // verus!
