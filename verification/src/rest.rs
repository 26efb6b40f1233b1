//! Resting configurations: when a cell stays where it is, and worlds in
//! which nothing moves any more.

use vstd::prelude::*;
use crate::materials::{in_pool, is_solid, sand_choice, water_choice, Material};
use crate::schedule::{lemma_run_frame, lemma_scan_row_frame, lemma_scan_rows_frame};
use crate::turn::lemma_turn_spares_solid;
use crate::world::{Action, World};

verus! {

/// Whether the cell at `(x, y)` stays where it is on its turn, whatever the
/// random source says: it is neither sand nor water, or it finds no slot to
/// go to on either side.
pub open spec fn at_rest(w: World, x: int, y: int) -> bool {
    match w.get(x, y).material {
        Material::Sand => sand_choice(w, x, y, -1) == Action::Rest && sand_choice(w, x, y, 1)
            == Action::Rest,
        Material::Water => water_choice(w, x, y, -1) == Action::Rest && water_choice(w, x, y, 1)
            == Action::Rest,
        _ => true,
    }
}

/// Whether every cell of the grid is at rest.
pub open spec fn settled(w: World) -> bool {
    forall|x: int, y: int| w.in_bounds(x, y) ==> #[trigger] at_rest(w, x, y)
}

/// Whether two worlds hold the same grid: the same dimensions and the same
/// cells, stamps included.
pub open spec fn same_grid(a: World, b: World) -> bool {
    a.width == b.width && a.height == b.height && a.cells == b.cells
}

/// Being at rest depends on the grid alone, not on the generation, the
/// random state or the pixels.
pub proof fn lemma_rest_depends_on_grid(a: World, b: World, x: int, y: int)
    requires
        same_grid(a, b),
    ensures
        at_rest(a, x, y) == at_rest(b, x, y),
{
}

/// Being settled depends on the grid alone.
pub proof fn lemma_settled_depends_on_grid(a: World, b: World)
    requires
        same_grid(a, b),
    ensures
        settled(a) == settled(b),
{
    if settled(a) {
        assert forall|x: int, y: int| b.in_bounds(x, y) implies #[trigger] at_rest(b, x, y) by {
            lemma_rest_depends_on_grid(a, b, x, y);
        }
    }
    if settled(b) {
        assert forall|x: int, y: int| a.in_bounds(x, y) implies #[trigger] at_rest(a, x, y) by {
            lemma_rest_depends_on_grid(a, b, x, y);
        }
    }
}

/// Sand rests on solid ground: with wall, stone or sand straight below and
/// on both below-diagonals it has nowhere to go.
pub proof fn lemma_sand_rests_on_solid(w: World, x: int, y: int)
    requires
        w.get(x, y).material == Material::Sand,
        is_solid(w, x, y + 1),
        is_solid(w, x - 1, y + 1),
        is_solid(w, x + 1, y + 1),
    ensures
        at_rest(w, x, y),
{
}

/// Water in a pool never moves sideways: with wall or water below, left and
/// right of it, all it can do is rest or slip to a below-diagonal.
pub proof fn lemma_pool_water_keeps_its_level(w: World, x: int, y: int, side: int)
    requires
        in_pool(w, x, y),
        side == 1 || side == -1,
    ensures
        water_choice(w, x, y, side) == Action::Rest || water_choice(w, x, y, side) == (Action::Move {
            dx: side,
            dy: 1,
        }) || water_choice(w, x, y, side) == (Action::Move { dx: -side, dy: 1 }),
{
}

/// Water in a pool whose below-diagonals are taken is at rest.
pub proof fn lemma_pool_water_rests(w: World, x: int, y: int)
    requires
        w.get(x, y).material == Material::Water,
        in_pool(w, x, y),
        !w.is_open(x - 1, y + 1),
        !w.is_open(x + 1, y + 1),
    ensures
        at_rest(w, x, y),
{
}

/// The turn of a cell at rest leaves the grid as it was.
pub proof fn lemma_turn_at_rest(w: World, x: int, y: int)
    requires
        w.wf(),
        w.in_bounds(x, y) ==> at_rest(w, x, y),
    ensures
        same_grid(w, w.update_at(x, y)),
{
}

/// Scanning part of a row of a settled world leaves the grid as it was.
pub proof fn lemma_scan_row_settled(w: World, y: int, n: nat)
    requires
        w.wf(),
        settled(w),
    ensures
        same_grid(w, w.scan_row(y, n)),
    decreases n,
{
    if n > 0 {
        let before = w.scan_row(y, (n - 1) as nat);
        lemma_scan_row_settled(w, y, (n - 1) as nat);
        lemma_scan_row_frame(w, y, (n - 1) as nat);
        lemma_settled_depends_on_grid(w, before);
        lemma_turn_at_rest(before, before.column(n - 1), y);
    }
}

/// Scanning rows of a settled world leaves the grid as it was.
pub proof fn lemma_scan_rows_settled(w: World, n: nat)
    requires
        w.wf(),
        settled(w),
    ensures
        same_grid(w, w.scan_rows(n)),
    decreases n,
{
    if n > 0 {
        let before = w.scan_rows((n - 1) as nat);
        lemma_scan_rows_settled(w, (n - 1) as nat);
        lemma_scan_rows_frame(w, (n - 1) as nat);
        lemma_settled_depends_on_grid(w, before);
        lemma_scan_row_settled(before, before.height - n, before.width);
    }
}

/// A settled world stays as it is: however many ticks run, every cell is
/// where it was, with the stamp it had.
pub proof fn lemma_settled_stays(w: World, ticks: nat)
    requires
        w.wf(),
        settled(w),
    ensures
        same_grid(w, w.run(ticks)),
        settled(w.run(ticks)),
        w.step(ticks).cells == w.cells,
    decreases ticks,
{
    if ticks > 0 {
        let before = w.run((ticks - 1) as nat);
        lemma_settled_stays(w, (ticks - 1) as nat);
        lemma_run_frame(w, (ticks - 1) as nat);
        let started = before.advanced();
        lemma_settled_depends_on_grid(w, started);
        lemma_scan_rows_settled(started, before.height);
    }
    lemma_settled_depends_on_grid(w, w.run(ticks));
}

/// Whether a material never moves: wall and stone.
pub open spec fn is_inert(m: Material) -> bool {
    m == Material::Wall || m == Material::Stone
}

/// No turn, its own or another cell's, changes a slot that holds wall or
/// stone.
pub proof fn lemma_turn_spares_inert(w: World, x: int, y: int, i: int, j: int)
    requires
        w.wf(),
        w.in_bounds(i, j),
        is_inert(w.get(i, j).material),
    ensures
        w.update_at(x, y).get(i, j) == w.get(i, j),
{
    if !(i == x && j == y) {
        lemma_turn_spares_solid(w, x, y, i, j);
    }
}

/// No scan of part of a row changes a slot that holds wall or stone.
pub proof fn lemma_scan_row_spares_inert(w: World, y: int, n: nat, i: int, j: int)
    requires
        w.wf(),
        w.in_bounds(i, j),
        is_inert(w.get(i, j).material),
    ensures
        w.scan_row(y, n).get(i, j) == w.get(i, j),
    decreases n,
{
    if n > 0 {
        let before = w.scan_row(y, (n - 1) as nat);
        lemma_scan_row_spares_inert(w, y, (n - 1) as nat, i, j);
        lemma_scan_row_frame(w, y, (n - 1) as nat);
        lemma_turn_spares_inert(before, before.column(n - 1), y, i, j);
    }
}

/// No scan of rows changes a slot that holds wall or stone.
pub proof fn lemma_scan_rows_spare_inert(w: World, n: nat, i: int, j: int)
    requires
        w.wf(),
        w.in_bounds(i, j),
        is_inert(w.get(i, j).material),
    ensures
        w.scan_rows(n).get(i, j) == w.get(i, j),
    decreases n,
{
    if n > 0 {
        let before = w.scan_rows((n - 1) as nat);
        lemma_scan_rows_spare_inert(w, (n - 1) as nat, i, j);
        lemma_scan_rows_frame(w, (n - 1) as nat);
        lemma_scan_row_spares_inert(before, before.height - n, before.width, i, j);
    }
}

/// Wall and stone never move: a slot that holds either holds the very same
/// cell after any number of ticks.
pub proof fn lemma_inert_stays(w: World, ticks: nat, i: int, j: int)
    requires
        w.wf(),
        w.in_bounds(i, j),
        is_inert(w.get(i, j).material),
    ensures
        w.run(ticks).get(i, j) == w.get(i, j),
        w.step(ticks).get(i, j) == w.get(i, j),
    decreases ticks,
{
    if ticks > 0 {
        let before = w.run((ticks - 1) as nat);
        lemma_inert_stays(w, (ticks - 1) as nat, i, j);
        lemma_run_frame(w, (ticks - 1) as nat);
        let started = before.advanced();
        lemma_scan_rows_spare_inert(started, before.height, i, j);
    }
}

} // verus!
