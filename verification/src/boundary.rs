//! The edge of the grid behaves as an endless solid wall.

use vstd::prelude::*;
use crate::cell::Cell;
use crate::materials::{is_solid, Material};
use crate::rest::at_rest;
use crate::world::World;

verus! {

/// The edge is solid: a read beyond it sees wall, a write beyond it is lost,
/// and a move across it does not happen.
pub proof fn lemma_edge_is_solid(w: World, x: int, y: int, dx: int, dy: int, cell: Cell)
    requires
        !w.in_bounds(x + dx, y + dy),
    ensures
        w.get(x + dx, y + dy).material == Material::Wall,
        w.put(x + dx, y + dy, cell) == w,
        w.try_move(x, y, dx, dy, cell) == w,
{
}

/// A swap across the edge does not happen unless wall itself is allowed.
pub proof fn lemma_no_swap_across_edge(
    w: World,
    x: int,
    y: int,
    dx: int,
    dy: int,
    cell: Cell,
    allowed: Seq<Material>,
)
    requires
        !w.in_bounds(x + dx, y + dy),
        !allowed.contains(Material::Wall),
    ensures
        w.try_move_into(x, y, dx, dy, cell, allowed) == w,
{
}

/// Sand in the leftmost column, with solid ground straight below and below
/// to its right, is at rest: the only other way out lies beyond the edge.
pub proof fn lemma_sand_rests_against_left_edge(w: World, y: int)
    requires
        w.get(0, y).material == Material::Sand,
        is_solid(w, 0, y + 1),
        is_solid(w, 1, y + 1),
    ensures
        at_rest(w, 0, y),
{
}

/// Sand in the rightmost column, with solid ground straight below and below
/// to its left, is at rest.
pub proof fn lemma_sand_rests_against_right_edge(w: World, y: int)
    requires
        w.get(w.width - 1, y).material == Material::Sand,
        is_solid(w, w.width - 1, y + 1),
        is_solid(w, w.width - 2, y + 1),
    ensures
        at_rest(w, w.width - 1, y),
{
}

} // verus!
