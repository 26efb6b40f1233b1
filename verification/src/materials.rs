//! The material table: the closed set of materials, their stable integer
//! identifiers, their colours and their behaviours.
//!
//! A behaviour is stated in two parts: what the cell chooses to do, as an
//! `Action`, and what the world is after it, random state included.

use vstd::prelude::*;
use crate::cell::Cell;
use crate::simulation::SimAPI;
use crate::world::{lemma_act_frame, same_frame, Action, World};

verus! {

/// What a grid cell is made of.
#[derive(Clone, Copy, Debug, PartialEq, Eq, Structural)]
pub enum Material {
    Empty,
    Wall,
    Sand,
    Water,
    /// Immovable solid.
    Stone,
}

impl Material {
    /// The material that an identifier stands for; unknown identifiers stand
    /// for `Empty`.
    pub open spec fn of_id(id: u8) -> Material {
        if id == 1 {
            Material::Wall
        } else if id == 2 {
            Material::Sand
        } else if id == 3 {
            Material::Water
        } else if id == 4 {
            Material::Stone
        } else {
            Material::Empty
        }
    }

    /// The stable identifier of a material.
    pub open spec fn spec_id(self) -> u8 {
        match self {
            Material::Empty => 0,
            Material::Wall => 1,
            Material::Sand => 2,
            Material::Water => 3,
            Material::Stone => 4,
        }
    }

    /// The material that `id` stands for; `Empty` for an unknown identifier.
    #[inline]
    pub fn from_id(id: u8) -> (m: Material)
        ensures
            m == Material::of_id(id),
    {
        match id {
            1 => Material::Wall,
            2 => Material::Sand,
            3 => Material::Water,
            4 => Material::Stone,
            _ => Material::Empty,
        }
    }

    /// The stable identifier of the material.
    #[inline]
    #[verifier::when_used_as_spec(spec_id)]
    pub fn id(self) -> (id: u8)
        ensures
            id == self.spec_id(),
    {
        match self {
            Material::Empty => 0,
            Material::Wall => 1,
            Material::Sand => 2,
            Material::Water => 3,
            Material::Stone => 4,
        }
    }
}

/// Decoding an identifier and encoding it again gives the identifier back
/// exactly when it names a material; every material survives the round trip.
pub proof fn lemma_id_round_trip(m: Material, id: u8)
    ensures
        Material::of_id(m.spec_id()) == m,
        id <= 4 ==> Material::of_id(id).spec_id() == id,
        id > 4 ==> Material::of_id(id) == Material::Empty,
{
}

/// Red, green, blue and alpha of a material before any variation.
pub open spec fn base_color(m: Material) -> Seq<u8> {
    match m {
        Material::Empty => seq![0u8, 0u8, 0u8, 255u8],
        Material::Wall => seq![120u8, 120u8, 120u8, 255u8],
        Material::Stone => seq![90u8, 90u8, 90u8, 255u8],
        Material::Sand => seq![216u8, 180u8, 90u8, 255u8],
        Material::Water => seq![64u8, 120u8, 220u8, 255u8],
    }
}

/// The signed brightness offset that a variation byte stands for: the byte is
/// centred at 128 and the distance from the centre is quartered, rounding
/// towards zero. The offset ranges from -32 to 31.
pub open spec fn brightness(ra: u8) -> int {
    if ra >= 128 {
        (ra - 128) / 4
    } else {
        -((128 - ra) / 4)
    }
}

/// A channel value brought back into the range of a byte.
pub open spec fn clamp_channel(v: int) -> u8 {
    if v < 0 {
        0u8
    } else if v > 255 {
        255u8
    } else {
        v as u8
    }
}

/// The colour shown for a material with a variation byte: the base colour
/// with the brightness offset added to red, green and blue, each clamped.
/// Alpha is never varied, and neither is `Empty`.
pub open spec fn color(m: Material, ra: u8) -> Seq<u8> {
    let base = base_color(m);
    if m == Material::Empty {
        base
    } else {
        seq![
            clamp_channel(base[0] + brightness(ra)),
            clamp_channel(base[1] + brightness(ra)),
            clamp_channel(base[2] + brightness(ra)),
            base[3],
        ]
    }
}

/// A colour channel with the brightness offset added, clamped to a byte.
fn shade(channel: u8, offset: i16) -> (out: u8)
    requires
        -32 <= offset <= 31,
    ensures
        out == clamp_channel(channel + offset),
{
    let v: i16 = channel as i16 + offset;
    if v < 0 {
        0
    } else if v > 255 {
        255
    } else {
        v as u8
    }
}

/// The colour shown for material `s` with variation byte `ra`, as red,
/// green, blue and alpha.
#[inline]
pub fn color_of(s: Material, ra: u8) -> (rgba: [u8; 4])
    ensures
        rgba@ == color(s, ra),
{
    let base: [u8; 4] = match s {
        Material::Empty => [0, 0, 0, 255],
        Material::Wall => [120, 120, 120, 255],
        Material::Stone => [90, 90, 90, 255],
        Material::Sand => [216, 180, 90, 255],
        Material::Water => [64, 120, 220, 255],
    };
    if s == Material::Empty {
        return base;
    }
    let offset: i16 = if ra >= 128 {
        ((ra - 128) / 4) as i16
    } else {
        -(((128 - ra) / 4) as i16)
    };
    [shade(base[0], offset), shade(base[1], offset), shade(base[2], offset), base[3]]
}

/// The side a cell tries first, as a column offset: left (-1) when the
/// generation and the draw have the same parity, that is, when the low bit
/// of their exclusive or is clear; right (1) otherwise.
pub open spec fn lean(generation: u8, draw: u32) -> int {
    if generation % 2 == draw % 2 {
        -1
    } else {
        1
    }
}

/// Whether the slot at `(x, y)` holds water.
pub open spec fn is_water(w: World, x: int, y: int) -> bool {
    w.get(x, y).material == Material::Water
}

/// Whether the slot at `(x, y)` holds neither nothing nor water, so that no
/// cell can move into it or sink through it. The slots beyond the edge are
/// solid.
pub open spec fn is_solid(w: World, x: int, y: int) -> bool {
    !w.is_open(x, y) && !is_water(w, x, y)
}

/// Whether a material closes a pool in: wall or water.
pub open spec fn confines(m: Material) -> bool {
    m == Material::Wall || m == Material::Water
}

/// Whether the slot at `(x, y)` lies in a pool: the neighbours below, left
/// and right are each wall or water.
pub open spec fn in_pool(w: World, x: int, y: int) -> bool {
    &&& confines(w.get(x, y + 1).material)
    &&& confines(w.get(x - 1, y).material)
    &&& confines(w.get(x + 1, y).material)
}

/// What a sand cell at `(x, y)` does when `side` is the side it tries first.
///
/// It falls straight down if the slot below is empty; else into the first
/// empty below-diagonal; else it sinks into the first slot holding water
/// among straight below and the two below-diagonals, trading places with the
/// water; else it rests.
pub open spec fn sand_choice(w: World, x: int, y: int, side: int) -> Action {
    if w.is_open(x, y + 1) {
        Action::Move { dx: 0, dy: 1 }
    } else if w.is_open(x + side, y + 1) {
        Action::Move { dx: side, dy: 1 }
    } else if w.is_open(x - side, y + 1) {
        Action::Move { dx: -side, dy: 1 }
    } else if is_water(w, x, y + 1) {
        Action::Swap { dx: 0, dy: 1 }
    } else if is_water(w, x + side, y + 1) {
        Action::Swap { dx: side, dy: 1 }
    } else if is_water(w, x - side, y + 1) {
        Action::Swap { dx: -side, dy: 1 }
    } else {
        Action::Rest
    }
}

/// The move to the first of four neighbours, given as offsets in order of
/// preference, that is empty; rest if none is.
pub open spec fn first_open(
    w: World,
    x: int,
    y: int,
    a: (int, int),
    b: (int, int),
    c: (int, int),
    d: (int, int),
) -> Action {
    if w.is_open(x + a.0, y + a.1) {
        Action::Move { dx: a.0, dy: a.1 }
    } else if w.is_open(x + b.0, y + b.1) {
        Action::Move { dx: b.0, dy: b.1 }
    } else if w.is_open(x + c.0, y + c.1) {
        Action::Move { dx: c.0, dy: c.1 }
    } else if w.is_open(x + d.0, y + d.1) {
        Action::Move { dx: d.0, dy: d.1 }
    } else {
        Action::Rest
    }
}

/// What a water cell at `(x, y)` that does not rest out of viscosity does
/// when `side` is the side it tries first.
///
/// It falls straight down if the slot below is empty. Otherwise it takes the
/// first empty slot among its two sides and its two below-diagonals: the
/// sides first when the slot above it is empty (surface water spreads), the
/// diagonals first when it is not (submerged water seeks the lowest point).
/// With no empty slot among the five it rests.
pub open spec fn water_choice(w: World, x: int, y: int, side: int) -> Action {
    if w.is_open(x, y + 1) {
        Action::Move { dx: 0, dy: 1 }
    } else if w.is_open(x, y - 1) {
        first_open(w, x, y, (side, 0), (-side, 0), (side, 1), (-side, 1))
    } else {
        first_open(w, x, y, (side, 1), (-side, 1), (side, 0), (-side, 0))
    }
}

/// One update of a sand cell at `(x, y)`: the cell does what `sand_choice`
/// says. The random source is consulted, once, only when the slot below is
/// not empty; the draw picks the side tried first.
pub open spec fn sand(w: World, x: int, y: int, cell: Cell) -> World {
    let base = if w.is_open(x, y + 1) {
        w
    } else {
        w.drawn()
    };
    base.act(x, y, cell, sand_choice(w, x, y, lean(w.generation, w.next_draw())))
}

/// One update of a water cell at `(x, y)`.
///
/// A first draw makes the cell rest one time in four. Otherwise the cell does
/// what `water_choice` says; unless it falls straight down, a second draw
/// picks the side tried first.
///
/// Water that has found all five slots taken and does not lie in a pool
/// tries its two sides once more. They were just found taken, so the attempt
/// changes nothing, and it has no part in this statement.
pub open spec fn water(w: World, x: int, y: int, cell: Cell) -> World {
    let once = w.drawn();
    if w.next_draw() % 4 == 0 {
        once
    } else {
        let base = if w.is_open(x, y + 1) {
            once
        } else {
            once.drawn()
        };
        base.act(x, y, cell, water_choice(w, x, y, lean(w.generation, once.next_draw())))
    }
}

/// One update of `cell` at `(x, y)`, by its material. Only sand and water
/// ever move.
pub open spec fn behave(w: World, x: int, y: int, cell: Cell) -> World {
    match cell.material {
        Material::Sand => sand(w, x, y, cell),
        Material::Water => water(w, x, y, cell),
        _ => w,
    }
}

/// A behaviour changes nothing but cells and the random state.
pub proof fn lemma_behave_frame(w: World, x: int, y: int, cell: Cell)
    requires
        w.wf(),
    ensures
        same_frame(w, behave(w, x, y, cell)),
        behave(w, x, y, cell).wf(),
{
    let once = w.drawn();
    let sand_does = sand_choice(w, x, y, lean(w.generation, w.next_draw()));
    let water_does = water_choice(w, x, y, lean(w.generation, once.next_draw()));
    lemma_act_frame(w, x, y, cell, sand_does);
    lemma_act_frame(once, x, y, cell, sand_does);
    lemma_act_frame(once, x, y, cell, water_does);
    lemma_act_frame(once.drawn(), x, y, cell, water_does);
}

/// Dispatches one cell to the behaviour of its material.
pub fn update_cell(cell: Cell, api: SimAPI)
    ensures
        final(api.sim)@ == behave(api.world(), api.x as int, api.y as int, cell),
{
    match cell.material {
        Material::Sand => update_sand(cell, api),
        Material::Water => update_water(cell, api),
        _ => {},
    }
}

/// Whether the left side is tried first.
fn left_first(generation: u8, draw: u32) -> (left: bool)
    ensures
        left == (lean(generation, draw) == -1),
{
    let g: u32 = generation as u32;
    assert(((g ^ draw) & 1 == 0) == (g % 2 == draw % 2)) by (bit_vector);
    (g ^ draw) & 1 == 0
}

/// One update of a sand cell: fall, slide, sink or rest.
fn update_sand(cell: Cell, api: SimAPI)
    ensures
        final(api.sim)@ == sand(api.world(), api.x as int, api.y as int, cell),
{
    let mut api = api;
    if api.try_move(0, 1, cell) {
        return;
    }
    // Straight down is blocked: try the two diagonals, in a random order.
    let left_first: bool = left_first(api.generation(), api.rand_u32());
    if left_first {
        if api.try_move(-1, 1, cell) {
            return;
        }
        if api.try_move(1, 1, cell) {
            return;
        }
    } else {
        if api.try_move(1, 1, cell) {
            return;
        }
        if api.try_move(-1, 1, cell) {
            return;
        }
    }

    // Blocked all round: sink through water, straight down first.
    let through: [Material; 1] = [Material::Water];
    if api.try_move_into(0, 1, cell, &through) {
        return;
    }
    if left_first {
        if api.try_move_into(-1, 1, cell, &through) {
            return;
        }
        if api.try_move_into(1, 1, cell, &through) {
            return;
        }
    } else {
        if api.try_move_into(1, 1, cell, &through) {
            return;
        }
        if api.try_move_into(-1, 1, cell, &through) {
            return;
        }
    }
}

/// One update of a water cell: rest, fall, spread or slip down.
fn update_water(cell: Cell, api: SimAPI)
    ensures
        final(api.sim)@ == water(api.world(), api.x as int, api.y as int, cell),
{
    let mut api = api;
    // Viscosity: one time in four the cell does not move.
    if api.rand_u32() % 4 == 0 {
        return;
    }
    if api.try_move(0, 1, cell) {
        return;
    }
    let above: Material = api.get(0, -1).material;
    let is_surface: bool = above == Material::Empty;

    let left_first: bool = left_first(api.generation(), api.rand_u32());

    if is_surface {
        // Surface water spreads sideways before it falls.
        if left_first {
            if api.try_move(-1, 0, cell) {
                return;
            }
            if api.try_move(1, 0, cell) {
                return;
            }
            if api.try_move(-1, 1, cell) {
                return;
            }
            if api.try_move(1, 1, cell) {
                return;
            }
        } else {
            if api.try_move(1, 0, cell) {
                return;
            }
            if api.try_move(-1, 0, cell) {
                return;
            }
            if api.try_move(1, 1, cell) {
                return;
            }
            if api.try_move(-1, 1, cell) {
                return;
            }
        }
    } else {
        // Submerged water falls diagonally before it spreads.
        if left_first {
            if api.try_move(-1, 1, cell) {
                return;
            }
            if api.try_move(1, 1, cell) {
                return;
            }
            if api.try_move(-1, 0, cell) {
                return;
            }
            if api.try_move(1, 0, cell) {
                return;
            }
        } else {
            if api.try_move(1, 1, cell) {
                return;
            }
            if api.try_move(-1, 1, cell) {
                return;
            }
            if api.try_move(1, 0, cell) {
                return;
            }
            if api.try_move(-1, 0, cell) {
                return;
            }
        }
    }

    // Water in a pool stays put; elsewhere it tries its sides once more.
    // Both sides were just found occupied, so neither attempt can succeed.
    let below: Material = api.get(0, 1).material;
    let left: Material = api.get(-1, 0).material;
    let right: Material = api.get(1, 0).material;

    let is_in_pool: bool = (below == Material::Wall || below == Material::Water)
        && (left == Material::Wall || left == Material::Water)
        && (right == Material::Wall || right == Material::Water);

    if !is_in_pool {
        if left_first {
            if api.try_move(-1, 0, cell) {
                return;
            }
            if api.try_move(1, 0, cell) {
                return;
            }
        } else {
            if api.try_move(1, 0, cell) {
                return;
            }
            if api.try_move(-1, 0, cell) {
                return;
            }
        }
    }
}

} // verus!
