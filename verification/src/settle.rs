//! Settling: a lone grain of sand above a flat floor falls one row every
//! other tick and comes to rest on the floor.

use vstd::prelude::*;
use crate::materials::Material;
use crate::rest::{at_rest, lemma_settled_stays, settled};
use crate::schedule::lemma_run_adds;
use crate::world::{lemma_index_in_range, lemma_index_injective, World};

verus! {

/// A world that holds one grain of sand, at `(x, y)`, above a floor of wall
/// that fills row `floor`, and is empty otherwise.
pub open spec fn lone_grain(w: World, x: int, y: int, floor: int) -> bool {
    &&& w.wf()
    &&& w.in_bounds(x, y)
    &&& y < floor < w.height
    &&& w.get(x, y).material == Material::Sand
    &&& forall|i: int, j: int|
        w.in_bounds(i, j) && !(i == x && j == y) ==> (#[trigger] w.get(i, j)).material == (if j
            == floor {
            Material::Wall
        } else {
            Material::Empty
        })
}

/// What the grain's own turn does: nothing if the grain carries the current
/// generation's stamp; otherwise it falls one row, without a draw, if it is
/// not yet on the floor, and rests, after one draw, if it is. Either way the
/// world still holds a lone grain.
pub proof fn lemma_grain_turn(w: World, x: int, y: int, floor: int)
    requires
        lone_grain(w, x, y, floor),
    ensures
        w.get(x, y).clock == w.generation ==> w.update_at(x, y) == w,
        w.get(x, y).clock != w.generation && y + 1 < floor ==> {
            &&& w.update_at(x, y) == w.moved(x, y, 0, 1, w.get(x, y))
            &&& lone_grain(w.update_at(x, y), x, y + 1, floor)
            &&& w.update_at(x, y).get(x, y + 1).clock == w.stamp()
        },
        w.get(x, y).clock != w.generation && y + 1 == floor ==> w.update_at(x, y) == w.drawn(),
{
    let cell = w.get(x, y);
    if cell.clock != w.generation {
        if y + 1 < floor {
            let after = w.moved(x, y, 0, 1, cell);
            lemma_index_in_range(w, x, y);
            lemma_index_in_range(w, x, y + 1);
            assert forall|i: int, j: int|
                after.in_bounds(i, j) && !(i == x && j == y + 1) implies (#[trigger] after.get(
                i,
                j,
            )).material == (if j == floor {
                Material::Wall
            } else {
                Material::Empty
            }) by {
                lemma_index_in_range(w, i, j);
                lemma_index_injective(w, i, j, x, y + 1);
                if !(i == x && j == y) {
                    assert(after.get(i, j) == w.get(i, j));
                }
            }
        }
    }
}

/// Whether the grain lies lone in `w` whatever the generation and the random
/// state: being a lone grain depends on the grid alone.
pub proof fn lemma_lone_grain_depends_on_grid(a: World, b: World, x: int, y: int, floor: int)
    requires
        lone_grain(a, x, y, floor),
        b.wf(),
        a.width == b.width,
        a.height == b.height,
        a.cells == b.cells,
    ensures
        lone_grain(b, x, y, floor),
{
    assert forall|i: int, j: int| b.in_bounds(i, j) && !(i == x && j == y) implies (#[trigger] b.get(
        i,
        j,
    )).material == (if j == floor {
        Material::Wall
    } else {
        Material::Empty
    }) by {
        assert(b.get(i, j) == a.get(i, j));
    }
}

/// After its turn the grain is still alone, in its row or in the row below.
pub proof fn lemma_grain_turn_keeps_alone(w: World, x: int, y: int, floor: int) -> (row: int)
    requires
        lone_grain(w, x, y, floor),
    ensures
        row == y || row == y + 1,
        lone_grain(w.update_at(x, y), x, row, floor),
        w.update_at(x, y).generation == w.generation,
{
    lemma_grain_turn(w, x, y, floor);
    if w.get(x, y).clock == w.generation {
        y
    } else if y + 1 < floor {
        y + 1
    } else {
        lemma_lone_grain_depends_on_grid(w, w.drawn(), x, y, floor);
        y
    }
}

/// Scanning a row that does not hold the grain changes nothing.
pub proof fn lemma_scan_of_empty_row(w: World, x: int, y: int, floor: int, row: int, n: nat)
    requires
        lone_grain(w, x, y, floor),
        row != y,
    ensures
        w.scan_row(row, n) == w,
    decreases n,
{
    if n > 0 {
        lemma_scan_of_empty_row(w, x, y, floor, row, (n - 1) as nat);
    }
}

/// Scanning the grain's row comes to the grain's turn and nothing else.
pub proof fn lemma_scan_of_grain_row(w: World, x: int, y: int, floor: int, n: nat)
    requires
        lone_grain(w, x, y, floor),
    ensures
        w.scan_row(y, n) == (if w.turn_of(x) < n {
            w.update_at(x, y)
        } else {
            w
        }),
    decreases n,
{
    if n > 0 {
        lemma_scan_of_grain_row(w, x, y, floor, (n - 1) as nat);
        if w.turn_of(x) < n - 1 {
            // The grain has had its turn; the slots after it are idle.
            lemma_grain_turn_keeps_alone(w, x, y, floor);
        }
    }
}

/// Scanning the bottom `n` rows comes to the grain's turn, once the scan has
/// reached the grain's row, and nothing else.
pub proof fn lemma_scan_of_rows(w: World, x: int, y: int, floor: int, n: nat)
    requires
        lone_grain(w, x, y, floor),
        n <= w.height,
    ensures
        w.scan_rows(n) == (if w.height - n <= y {
            w.update_at(x, y)
        } else {
            w
        }),
    decreases n,
{
    if n > 0 {
        lemma_scan_of_rows(w, x, y, floor, (n - 1) as nat);
        let before = w.scan_rows((n - 1) as nat);
        let row: int = w.height - n;
        if row > y {
            lemma_scan_of_empty_row(w, x, y, floor, row, w.width);
        } else if row == y {
            lemma_scan_of_grain_row(w, x, y, floor, w.width);
        } else {
            let now: int = lemma_grain_turn_keeps_alone(w, x, y, floor);
            lemma_scan_of_empty_row(before, x, now, floor, row, before.width);
        }
    }
}

/// A tick of a world with a lone grain: the generation advances and the
/// grain takes its turn; nothing else happens.
pub proof fn lemma_tick_of_lone_grain(w: World, x: int, y: int, floor: int)
    requires
        lone_grain(w, x, y, floor),
    ensures
        w.tick() == w.advanced().update_at(x, y),
        lone_grain(w.advanced(), x, y, floor),
{
    let started = w.advanced();
    lemma_lone_grain_depends_on_grid(w, started, x, y, floor);
    lemma_scan_of_rows(started, x, y, floor, w.height);
}

/// How many ticks the grain needs to come to rest on the floor: two for
/// every row it has to fall, one of waiting and one of falling, less one if
/// the grain does not carry the stamp that makes it wait out the next tick.
pub open spec fn ticks_to_rest(w: World, x: int, y: int, floor: int) -> int {
    let rows: int = floor - 1 - y;
    if rows == 0 {
        0
    } else if w.get(x, y).clock == w.stamp() {
        2 * rows
    } else {
        2 * rows - 1
    }
}

/// One tick brings the grain one tick nearer to its rest; a grain at rest
/// stays. After the tick the grain is alone in row `row`.
pub proof fn lemma_tick_brings_rest_nearer(w: World, x: int, y: int, floor: int) -> (row: int)
    requires
        lone_grain(w, x, y, floor),
    ensures
        lone_grain(w.tick(), x, row, floor),
        ticks_to_rest(w, x, y, floor) > 0 ==> ticks_to_rest(w.tick(), x, row, floor)
            == ticks_to_rest(w, x, y, floor) - 1,
        ticks_to_rest(w, x, y, floor) == 0 ==> row == y && w.tick().cells == w.cells,
{
    let started = w.advanced();
    lemma_tick_of_lone_grain(w, x, y, floor);
    lemma_grain_turn(started, x, y, floor);
    let cell = w.get(x, y);
    if cell.clock == started.generation {
        y
    } else if y + 1 < floor {
        y + 1
    } else {
        lemma_lone_grain_depends_on_grid(w, started.drawn(), x, y, floor);
        y
    }
}

/// Where the grain is after any number of ticks: alone in row `row`, with
/// as many ticks less to go as have run.
pub proof fn lemma_grain_after(w: World, x: int, y: int, floor: int, ticks: nat) -> (row: int)
    requires
        lone_grain(w, x, y, floor),
    ensures
        lone_grain(w.run(ticks), x, row, floor),
        ticks <= ticks_to_rest(w, x, y, floor) ==> ticks_to_rest(w.run(ticks), x, row, floor)
            == ticks_to_rest(w, x, y, floor) - ticks,
        ticks >= ticks_to_rest(w, x, y, floor) ==> ticks_to_rest(w.run(ticks), x, row, floor) == 0,
    decreases ticks,
{
    if ticks == 0 {
        y
    } else {
        let before: int = lemma_grain_after(w, x, y, floor, (ticks - 1) as nat);
        lemma_tick_brings_rest_nearer(w.run((ticks - 1) as nat), x, before, floor)
    }
}

/// A lone grain on the floor is at rest, and so is everything around it.
pub proof fn lemma_grain_on_floor_is_settled(w: World, x: int, floor: int)
    requires
        lone_grain(w, x, floor - 1, floor),
    ensures
        settled(w),
{
    assert forall|i: int, j: int| w.in_bounds(i, j) implies #[trigger] at_rest(w, i, j) by {
        // The grain has wall below it on all three sides; nothing else moves.
        assert(w.get(i, j).material == Material::Sand ==> i == x && j == floor - 1);
    }
}

/// Settling: a lone grain of sand above a flat floor of wall comes to rest
/// on the floor after exactly `ticks_to_rest` ticks, not before, and from
/// then on no cell of the grid ever changes.
pub proof fn lemma_lone_grain_settles(w: World, x: int, y: int, floor: int, ticks: nat, more: nat)
    requires
        lone_grain(w, x, y, floor),
    ensures
        ticks >= ticks_to_rest(w, x, y, floor) ==> {
            &&& lone_grain(w.run(ticks), x, floor - 1, floor)
            &&& settled(w.run(ticks))
            &&& w.run(ticks + more).cells == w.run(ticks).cells
        },
        ticks < ticks_to_rest(w, x, y, floor) ==> w.run(ticks).get(x, floor - 1).material
            != Material::Sand,
{
    let row: int = lemma_grain_after(w, x, y, floor, ticks);
    let now = w.run(ticks);
    if ticks >= ticks_to_rest(w, x, y, floor) {
        lemma_grain_on_floor_is_settled(now, x, floor);
        lemma_settled_stays(now, more);
        lemma_run_adds(w, ticks, more);
    }
}

/// A world that is empty above and below a floor of wall filling row
/// `floor`.
pub open spec fn bare_floor(w: World, floor: int) -> bool {
    &&& w.wf()
    &&& 0 <= floor < w.height
    &&& forall|i: int, j: int|
        w.in_bounds(i, j) ==> (#[trigger] w.get(i, j)).material == (if j == floor {
            Material::Wall
        } else {
            Material::Empty
        })
}

/// Settling of a dropped grain: a grain of sand set by `set_cell` at
/// `(x, y)` above a bare floor waits one tick and falls one row in the next,
/// so it rests on the floor after twice as many ticks as it has rows to
/// fall, and not before. It rests within as many ticks as the grid is high
/// exactly when it has at most half as many rows to fall.
pub proof fn lemma_dropped_grain_settles(w: World, x: int, y: int, floor: int, ticks: nat)
    requires
        bare_floor(w, floor),
        w.in_bounds(x, y),
        y < floor,
    ensures
        ({
            let dropped = w.set_cell(x, y, Material::Sand.spec_id());
            let rested = dropped.run(ticks).get(x, floor - 1).material == Material::Sand;
            &&& rested <==> ticks >= 2 * (floor - 1 - y)
            &&& rested ==> dropped.run(ticks + 1).cells == dropped.run(ticks).cells
            &&& (dropped.run(w.height).get(x, floor - 1).material == Material::Sand) <==> 2 * (floor
                - 1 - y) <= w.height
        }),
{
    let dropped = w.set_cell(x, y, Material::Sand.spec_id());
    lemma_index_in_range(w, x, y);
    assert forall|i: int, j: int|
        dropped.in_bounds(i, j) && !(i == x && j == y) implies (#[trigger] dropped.get(
        i,
        j,
    )).material == (if j == floor {
        Material::Wall
    } else {
        Material::Empty
    }) by {
        lemma_index_in_range(w, i, j);
        lemma_index_injective(w, i, j, x, y);
        assert(dropped.get(i, j) == w.get(i, j));
    }
    lemma_lone_grain_settles(dropped, x, y, floor, ticks, 1);
    lemma_lone_grain_settles(dropped, x, y, floor, w.height, 1);
}

} // verus!
