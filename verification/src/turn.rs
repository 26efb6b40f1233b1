//! One turn of one cell, seen as a single action: what it may touch, what
//! stamp it leaves, and when the stamp makes a cell wait.

use vstd::prelude::*;
use crate::cell::Cell;
use crate::materials::{is_solid, is_water, lean, sand_choice, water_choice, Material};
use crate::schedule::{lemma_scan_row_frame, lemma_scan_rows_frame};
use crate::world::{lemma_index_in_range, lemma_index_injective, Action, World};

verus! {

/// What the cell at `(x, y)` does on its turn.
pub open spec fn turn_action(w: World, x: int, y: int) -> Action {
    let cell = w.get(x, y);
    if cell.clock == w.generation {
        Action::Rest
    } else {
        match cell.material {
            Material::Sand => sand_choice(w, x, y, lean(w.generation, w.next_draw())),
            Material::Water => if w.next_draw() % 4 == 0 {
                Action::Rest
            } else {
                water_choice(w, x, y, lean(w.generation, w.drawn().next_draw()))
            },
            _ => Action::Rest,
        }
    }
}

/// Whether an action reaches no further than the five neighbours that a
/// cell may go to: beside it or in the row below, at most one column away.
pub open spec fn is_near(action: Action) -> bool {
    match action {
        Action::Rest => true,
        Action::Move { dx, dy } => -1 <= dx <= 1 && 0 <= dy <= 1 && (dx != 0 || dy != 0),
        Action::Swap { dx, dy } => -1 <= dx <= 1 && 0 <= dy <= 1 && (dx != 0 || dy != 0),
    }
}

/// Whether an action takes the cell to the row below.
pub open spec fn goes_down(action: Action) -> bool {
    match action {
        Action::Rest => false,
        Action::Move { dx, dy } => dy == 1,
        Action::Swap { dx, dy } => dy == 1,
    }
}

/// The slot an action takes the cell at `(x, y)` to; the slot itself for a
/// cell that rests.
pub open spec fn destination(x: int, y: int, action: Action) -> (int, int) {
    match action {
        Action::Rest => (x, y),
        Action::Move { dx, dy } => (x + dx, y + dy),
        Action::Swap { dx, dy } => (x + dx, y + dy),
    }
}

/// Whatever side is tried first, what sand and water choose to do is
/// permitted, reaches no further than a neighbour, and ends inside the grid.
pub proof fn lemma_choices_are_near(w: World, x: int, y: int, side: int)
    requires
        w.in_bounds(x, y),
        side == 1 || side == -1,
    ensures
        w.permits(x, y, sand_choice(w, x, y, side)),
        is_near(sand_choice(w, x, y, side)),
        w.in_bounds(
            destination(x, y, sand_choice(w, x, y, side)).0,
            destination(x, y, sand_choice(w, x, y, side)).1,
        ),
        w.permits(x, y, water_choice(w, x, y, side)),
        is_near(water_choice(w, x, y, side)),
        w.in_bounds(
            destination(x, y, water_choice(w, x, y, side)).0,
            destination(x, y, water_choice(w, x, y, side)).1,
        ),
{
}

/// Cells trade places only with water, and only sand does so.
pub proof fn lemma_swaps_are_with_water(w: World, x: int, y: int, side: int)
    ensures
        sand_choice(w, x, y, side) matches Action::Swap { dx, dy } ==> is_water(w, x + dx, y + dy),
        !(water_choice(w, x, y, side) is Swap),
{
}

/// A turn is one action: the grid after the turn of the cell at `(x, y)` is
/// the grid after that cell does `turn_action`, which is permitted, reaches
/// no further than a neighbour, and ends inside the grid.
pub proof fn lemma_turn_is_one_action(w: World, x: int, y: int)
    requires
        w.wf(),
        w.in_bounds(x, y),
    ensures
        w.update_at(x, y).cells == w.act(x, y, w.get(x, y), turn_action(w, x, y)).cells,
        w.permits(x, y, turn_action(w, x, y)),
        is_near(turn_action(w, x, y)),
        w.in_bounds(destination(x, y, turn_action(w, x, y)).0, destination(x, y, turn_action(w, x, y)).1),
{
}

/// Sand only ever goes down: whatever it does on its turn, it rests or ends
/// in the row below, which the scan of the current tick has already passed.
pub proof fn lemma_sand_goes_down(w: World, x: int, y: int, side: int)
    ensures
        sand_choice(w, x, y, side) == Action::Rest || goes_down(sand_choice(w, x, y, side)),
{
}

/// What an action touches: only the slot of the cell and the slot it goes
/// to can change, and a slot that changes carries the stamp of the tick.
pub proof fn lemma_act_footprint(w: World, x: int, y: int, cell: Cell, action: Action, i: int, j: int)
    requires
        w.wf(),
        w.in_bounds(i, j),
        w.act(x, y, cell, action).get(i, j) != w.get(i, j),
    ensures
        (i == x && j == y) || (i, j) == destination(x, y, action),
        w.act(x, y, cell, action).get(i, j).clock == w.stamp(),
{
    lemma_index_in_range(w, i, j);
    match action {
        Action::Rest => {},
        Action::Move { dx, dy } => {
            if w.in_bounds(x + dx, y + dy) {
                lemma_index_in_range(w, x + dx, y + dy);
                lemma_index_injective(w, i, j, x + dx, y + dy);
            }
            if w.in_bounds(x, y) {
                lemma_index_in_range(w, x, y);
                lemma_index_injective(w, i, j, x, y);
            }
        },
        Action::Swap { dx, dy } => {
            if w.in_bounds(x + dx, y + dy) {
                lemma_index_in_range(w, x + dx, y + dy);
                lemma_index_injective(w, i, j, x + dx, y + dy);
            }
            if w.in_bounds(x, y) {
                lemma_index_in_range(w, x, y);
                lemma_index_injective(w, i, j, x, y);
            }
        },
    }
}

/// What a turn touches: the turn of the cell at `(x, y)` can change only
/// that slot and the one neighbour the cell goes to, and a slot that changes
/// carries the stamp of the tick.
pub proof fn lemma_turn_footprint(w: World, x: int, y: int, i: int, j: int)
    requires
        w.wf(),
        w.in_bounds(i, j),
        w.update_at(x, y).get(i, j) != w.get(i, j),
    ensures
        w.in_bounds(x, y),
        (i == x && j == y) || (i, j) == destination(x, y, turn_action(w, x, y)),
        w.update_at(x, y).get(i, j).clock == w.stamp(),
{
    lemma_act_footprint(w, x, y, w.get(x, y), turn_action(w, x, y), i, j);
}

/// A turn leaves every other slot that holds neither nothing nor water as
/// it was: such a slot is no cell's destination.
pub proof fn lemma_turn_spares_solid(w: World, x: int, y: int, i: int, j: int)
    requires
        w.wf(),
        w.in_bounds(i, j),
        !(i == x && j == y),
        is_solid(w, i, j),
    ensures
        w.update_at(x, y).get(i, j) == w.get(i, j),
{
    if w.update_at(x, y).get(i, j) != w.get(i, j) {
        lemma_turn_footprint(w, x, y, i, j);
    }
}

/// A turn brings sand only to the row below: a slot that holds sand after a
/// turn and did not hold the same cell before it lies one row below the
/// cell that took the turn.
pub proof fn lemma_turn_brings_sand_below(w: World, x: int, y: int, i: int, j: int)
    requires
        w.wf(),
        w.in_bounds(i, j),
        w.update_at(x, y).get(i, j).material == Material::Sand,
        w.update_at(x, y).get(i, j) != w.get(i, j),
    ensures
        j == y + 1,
        w.get(x, y).material == Material::Sand,
{
    lemma_turn_footprint(w, x, y, i, j);
    let to = destination(x, y, turn_action(w, x, y));
    lemma_index_in_range(w, x, y);
    lemma_index_in_range(w, to.0, to.1);
}

/// Falling: a sand cell that is due its turn and has an empty slot below it
/// moves into that slot.
pub proof fn lemma_sand_falls(w: World, x: int, y: int)
    requires
        w.wf(),
        w.in_bounds(x, y),
        w.get(x, y).material == Material::Sand,
        w.get(x, y).clock != w.generation,
        w.is_open(x, y + 1),
    ensures
        w.update_at(x, y) == w.moved(x, y, 0, 1, w.get(x, y)),
        w.update_at(x, y).get(x, y).material == Material::Empty,
        w.update_at(x, y).get(x, y + 1).material == Material::Sand,
{
    lemma_footing(w, x, y, 1);
}

/// Sinking: a sand cell that is due its turn, with water straight below and
/// no empty slot on either below-diagonal, trades places with the water.
pub proof fn lemma_sand_sinks(w: World, x: int, y: int)
    requires
        w.wf(),
        w.in_bounds(x, y),
        w.get(x, y).material == Material::Sand,
        w.get(x, y).clock != w.generation,
        is_water(w, x, y + 1),
        !w.is_open(x - 1, y + 1),
        !w.is_open(x + 1, y + 1),
    ensures
        w.update_at(x, y) == w.drawn().swapped(x, y, 0, 1, w.get(x, y)),
        w.update_at(x, y).get(x, y).material == Material::Water,
        w.update_at(x, y).get(x, y + 1).material == Material::Sand,
{
    lemma_footing(w.drawn(), x, y, 1);
}

/// The slot at `(x, y)` and the slot `dy` rows below it, both inside the
/// grid, are different slots with positions inside the cell sequence.
proof fn lemma_footing(w: World, x: int, y: int, dy: int)
    requires
        w.wf(),
        w.in_bounds(x, y),
        w.in_bounds(x, y + dy),
        dy != 0,
    ensures
        0 <= w.index(x, y) < w.cells.len(),
        0 <= w.index(x, y + dy) < w.cells.len(),
        w.index(x, y) != w.index(x, y + dy),
{
    lemma_index_in_range(w, x, y);
    lemma_index_in_range(w, x, y + dy);
    lemma_index_injective(w, x, y, x, y + dy);
}

/// A cell stamped with the current generation waits: its turn changes
/// nothing at all.
pub proof fn lemma_stamped_cell_waits(w: World, x: int, y: int)
    requires
        w.get(x, y).clock == w.generation,
    ensures
        w.update_at(x, y) == w,
{
}

/// Every slot that a scan of part of a row changes carries the stamp of the
/// tick.
pub proof fn lemma_scan_row_stamps(w: World, y: int, n: nat, i: int, j: int)
    requires
        w.wf(),
        w.in_bounds(i, j),
        w.scan_row(y, n).get(i, j) != w.get(i, j),
    ensures
        w.scan_row(y, n).get(i, j).clock == w.stamp(),
    decreases n,
{
    if n > 0 {
        let before = w.scan_row(y, (n - 1) as nat);
        lemma_scan_row_frame(w, y, (n - 1) as nat);
        if before.update_at(before.column(n - 1), y).get(i, j) != before.get(i, j) {
            lemma_turn_footprint(before, before.column(n - 1), y, i, j);
        } else {
            lemma_scan_row_stamps(w, y, (n - 1) as nat, i, j);
        }
    }
}

/// Every slot that a scan of some rows changes carries the stamp of the
/// tick.
pub proof fn lemma_scan_rows_stamps(w: World, n: nat, i: int, j: int)
    requires
        w.wf(),
        w.in_bounds(i, j),
        w.scan_rows(n).get(i, j) != w.get(i, j),
    ensures
        w.scan_rows(n).get(i, j).clock == w.stamp(),
    decreases n,
{
    if n > 0 {
        let before = w.scan_rows((n - 1) as nat);
        lemma_scan_rows_frame(w, (n - 1) as nat);
        if before.scan_row(before.height - n, before.width).get(i, j) != before.get(i, j) {
            lemma_scan_row_stamps(before, before.height - n, before.width, i, j);
        } else {
            lemma_scan_rows_stamps(w, (n - 1) as nat, i, j);
        }
    }
}

/// Every slot whose cell a tick changes carries, after the tick, the value
/// that the generation counter takes in the next tick.
pub proof fn lemma_tick_stamps_what_it_changes(w: World, i: int, j: int)
    requires
        w.wf(),
        w.in_bounds(i, j),
        w.tick().get(i, j) != w.get(i, j),
    ensures
        w.tick().get(i, j).clock == w.tick().stamp(),
{
    let started = w.advanced();
    lemma_scan_rows_frame(started, w.height);
    lemma_scan_rows_stamps(started, w.height, i, j);
}

/// A cell that a tick has written takes no turn in the tick after it: in any
/// world of the next generation that still holds the cell in its slot, the
/// turn of that slot changes nothing.
pub proof fn lemma_written_cell_waits_a_tick(w: World, later: World, i: int, j: int)
    requires
        w.wf(),
        w.in_bounds(i, j),
        w.tick().get(i, j) != w.get(i, j),
        later.generation == w.tick().stamp(),
        later.get(i, j) == w.tick().get(i, j),
    ensures
        later.update_at(i, j) == later,
{
    lemma_tick_stamps_what_it_changes(w, i, j);
}

} // verus!
