//! What the scan order guarantees: within one tick a grain of sand changes
//! its position at most once.
//!
//! Sand moves only by its own turn, and only into the row below, which the
//! bottom-up scan has passed. Once there, nothing touches it until the tick
//! is over: no cell moves into a slot that holds sand, and sand is not traded
//! away.

use vstd::prelude::*;
use crate::cell::Cell;
use crate::materials::{is_solid, Material};
use crate::schedule::{lemma_scan_row_frame, lemma_scan_rows_frame};
use crate::turn::{
    destination, goes_down, lemma_turn_brings_sand_below, lemma_turn_spares_solid, turn_action,
};
use crate::world::{lemma_index_in_range, lemma_index_injective, Action, World};

verus! {

/// Going on with the scan of a row leaves a solid slot of any other row as
/// it was.
pub proof fn lemma_scan_row_spares_solid(w: World, y: int, done: nat, n: nat, i: int, j: int)
    requires
        w.wf(),
        done <= n,
        w.in_bounds(i, j),
        j != y,
        is_solid(w.scan_row(y, done), i, j),
    ensures
        w.scan_row(y, n).get(i, j) == w.scan_row(y, done).get(i, j),
    decreases n,
{
    if n > done {
        lemma_scan_row_spares_solid(w, y, done, (n - 1) as nat, i, j);
        let before = w.scan_row(y, (n - 1) as nat);
        lemma_scan_row_frame(w, y, (n - 1) as nat);
        lemma_turn_spares_solid(before, before.column(n - 1), y, i, j);
    }
}

/// Going on with the scan of the rows above leaves a solid slot of a row
/// already scanned as it was.
pub proof fn lemma_scan_rows_spare_solid(w: World, done: nat, n: nat, i: int, j: int)
    requires
        w.wf(),
        done <= n <= w.height,
        w.in_bounds(i, j),
        j >= w.height - done,
        is_solid(w.scan_rows(done), i, j),
    ensures
        w.scan_rows(n).get(i, j) == w.scan_rows(done).get(i, j),
    decreases n,
{
    if n > done {
        lemma_scan_rows_spare_solid(w, done, (n - 1) as nat, i, j);
        let before = w.scan_rows((n - 1) as nat);
        lemma_scan_rows_frame(w, (n - 1) as nat);
        lemma_scan_row_spares_solid(before, before.height - n, 0, before.width, i, j);
    }
}

/// Going on with the scan of a row brings no sand into that row or the rows
/// above it: a slot there that holds sand afterwards held the same cell
/// before.
pub proof fn lemma_scan_row_brings_no_sand_up(w: World, y: int, n: nat, i: int, j: int)
    requires
        w.wf(),
        w.in_bounds(i, j),
        j <= y,
        w.scan_row(y, n).get(i, j).material == Material::Sand,
    ensures
        w.scan_row(y, n).get(i, j) == w.get(i, j),
    decreases n,
{
    if n > 0 {
        let before = w.scan_row(y, (n - 1) as nat);
        lemma_scan_row_frame(w, y, (n - 1) as nat);
        if before.update_at(before.column(n - 1), y).get(i, j) != before.get(i, j) {
            lemma_turn_brings_sand_below(before, before.column(n - 1), y, i, j);
        }
        lemma_scan_row_brings_no_sand_up(w, y, (n - 1) as nat, i, j);
    }
}

/// The scan of the bottom `n` rows brings no sand into the rows above them
/// or into the highest of them.
pub proof fn lemma_scan_rows_bring_no_sand_up(w: World, n: nat, i: int, j: int)
    requires
        w.wf(),
        n <= w.height,
        w.in_bounds(i, j),
        j <= w.height - n,
        w.scan_rows(n).get(i, j).material == Material::Sand,
    ensures
        w.scan_rows(n).get(i, j) == w.get(i, j),
    decreases n,
{
    if n > 0 {
        let before = w.scan_rows((n - 1) as nat);
        lemma_scan_rows_frame(w, (n - 1) as nat);
        lemma_scan_row_brings_no_sand_up(before, before.height - n, before.width, i, j);
        lemma_scan_rows_bring_no_sand_up(w, (n - 1) as nat, i, j);
    }
}

/// The world in the middle of the tick that follows `w`: the generation is
/// advanced, the bottom `rows` rows are scanned, and the first `turns` cells
/// of the next row up have had their turn.
pub open spec fn mid_tick(w: World, rows: nat, turns: nat) -> World {
    w.advanced().scan_rows(rows).scan_row(w.height - rows - 1, turns)
}

/// A solid cell below the row being scanned is there, unchanged, when the
/// tick is over.
pub proof fn lemma_solid_behind_scan_is_final(w: World, rows: nat, turns: nat, i: int, j: int)
    requires
        w.wf(),
        rows < w.height,
        turns <= w.width,
        w.in_bounds(i, j),
        j > w.height - rows - 1,
        is_solid(mid_tick(w, rows, turns), i, j),
    ensures
        w.tick().get(i, j) == mid_tick(w, rows, turns).get(i, j),
{
    let start = w.advanced();
    let before = start.scan_rows(rows);
    lemma_scan_rows_frame(start, rows);
    lemma_scan_row_spares_solid(before, w.height - rows - 1, turns, w.width, i, j);
    lemma_scan_rows_spare_solid(start, rows + 1, w.height, i, j);
}

/// Sand in a row that the scan has not left is the sand the tick began
/// with: a slot in the row being scanned, or above it, that holds sand holds
/// the cell it held before the tick.
pub proof fn lemma_sand_ahead_of_scan_is_untouched(w: World, rows: nat, turns: nat, i: int, j: int)
    requires
        w.wf(),
        rows < w.height,
        w.in_bounds(i, j),
        j <= w.height - rows - 1,
        mid_tick(w, rows, turns).get(i, j).material == Material::Sand,
    ensures
        mid_tick(w, rows, turns).get(i, j) == w.get(i, j),
{
    let start = w.advanced();
    let before = start.scan_rows(rows);
    lemma_scan_rows_frame(start, rows);
    lemma_scan_row_brings_no_sand_up(before, w.height - rows - 1, turns, i, j);
    lemma_scan_rows_bring_no_sand_up(start, rows, i, j);
}

/// No double movement of sand. A grain of sand that takes its turn has not
/// moved in this tick: it is the cell its slot held when the tick began.
/// When it moves, it moves into the row below, which the scan has passed,
/// and when the tick is over it is still in the slot it moved to: it takes
/// no second turn and nothing displaces it. The grain's turn is turn `turns`
/// of the row above the bottom `rows` rows, in the tick that follows `w`.
pub proof fn lemma_sand_moves_once_a_tick(w: World, rows: nat, turns: nat)
    requires
        w.wf(),
        rows < w.height,
        turns < w.width,
        ({
            let now = mid_tick(w, rows, turns);
            let x: int = now.column(turns as int);
            let y: int = w.height - rows - 1;
            now.get(x, y).material == Material::Sand && turn_action(now, x, y) != Action::Rest
        }),
    ensures
        ({
            let now = mid_tick(w, rows, turns);
            let x: int = now.column(turns as int);
            let y: int = w.height - rows - 1;
            let grain = now.get(x, y);
            let to = destination(x, y, turn_action(now, x, y));
            &&& grain == w.get(x, y)
            &&& to.1 == y + 1
            &&& w.in_bounds(to.0, to.1)
            &&& mid_tick(w, rows, turns + 1).get(to.0, to.1) == grain.stamped(now.stamp())
            &&& w.tick().get(to.0, to.1) == grain.stamped(now.stamp())
        }),
{
    let start = w.advanced();
    let before = start.scan_rows(rows);
    let now = mid_tick(w, rows, turns);
    let x: int = now.column(turns as int);
    let y: int = w.height - rows - 1;
    let grain = now.get(x, y);
    let action = turn_action(now, x, y);
    let to = destination(x, y, action);
    lemma_scan_rows_frame(start, rows);
    lemma_scan_row_frame(before, y, turns);
    lemma_landing(now, x, y, grain, action);
    lemma_solid_behind_scan_is_final(w, rows, turns + 1, to.0, to.1);
    lemma_sand_ahead_of_scan_is_untouched(w, rows, turns, x, y);
}

/// After a cell has moved or traded places, it is in the slot it went to,
/// with the stamp of the tick.
proof fn lemma_landing(w: World, x: int, y: int, cell: Cell, action: Action)
    requires
        w.wf(),
        w.in_bounds(x, y),
        w.in_bounds(destination(x, y, action).0, destination(x, y, action).1),
        goes_down(action),
    ensures
        w.act(x, y, cell, action).get(destination(x, y, action).0, destination(x, y, action).1)
            == cell.stamped(w.stamp()),
{
    let to = destination(x, y, action);
    lemma_index_in_range(w, x, y);
    lemma_index_in_range(w, to.0, to.1);
    lemma_index_injective(w, x, y, to.0, to.1);
}

} // verus!
