//! The engine: the grid with its pixel buffer, and the neighbour view that
//! material behaviours act through.

use vstd::prelude::*;
use crate::cell::Cell;
use crate::conservation::{count, lemma_step_conserves_mass};
use crate::edit::in_circle;
use crate::materials::{color_of, update_cell, Material};
use crate::render::render;
use crate::replay::lemma_set_cell_keeps_sync;
use crate::rng;
use crate::schedule::{lemma_scan_row_frame, lemma_scan_rows_frame, lemma_update_at_frame};
use crate::world::{lemma_index_in_range, World};

verus! {

/// A grid of cells with its pixel buffer, generation counter and random
/// state. Its view is the `World` that the contracts speak of.
pub struct Simulation {
    width: u32,
    height: u32,
    cells: Vec<Cell>,
    pixels: Vec<u8>,
    generation: u8,
    rng: u64,
}

impl View for Simulation {
    type V = World;

    closed spec fn view(&self) -> World {
        World {
            width: self.width as nat,
            height: self.height as nat,
            cells: self.cells@,
            pixels: self.pixels@,
            generation: self.generation,
            rng: self.rng,
        }
    }
}

impl Simulation {
    #[verifier::type_invariant]
    closed spec fn inv(&self) -> bool {
        &&& self@.wf()
        &&& self.width <= i32::MAX
        &&& self.height <= i32::MAX
    }

    #[inline]
    fn in_bounds(&self, x: i64, y: i64) -> (inside: bool)
        ensures
            inside == self@.in_bounds(x as int, y as int),
    {
        x >= 0 && y >= 0 && x < self.width as i64 && y < self.height as i64
    }

    /// The position of an in-grid coordinate in the cell vector.
    #[inline]
    fn idx(&self, x: i64, y: i64) -> (i: usize)
        requires
            self@.wf(),
            self@.in_bounds(x as int, y as int),
        ensures
            i == self@.index(x as int, y as int),
            i < self@.cells.len(),
    {
        proof {
            lemma_index_in_range(self@, x as int, y as int);
            assert(self.cells@.len() == self.cells.len());
        }
        (y as usize) * (self.width as usize) + (x as usize)
    }

    /// Whether a grid of these dimensions can be held: both dimensions can be
    /// coordinates, and the pixel buffer's length fits the machine.
    pub open spec fn supports(width: u32, height: u32) -> bool {
        &&& width <= i32::MAX
        &&& height <= i32::MAX
        &&& 4 * (width * height) <= usize::MAX
    }

    /// Tests `supports`.
    pub fn can_hold(width: u32, height: u32) -> (ok: bool)
        ensures
            ok == Simulation::supports(width, height),
    {
        if width > i32::MAX as u32 || height > i32::MAX as u32 {
            return false;
        }
        assert(width * height <= 0x3fff_ffff_0000_0001) by (nonlinear_arith)
            requires
                width <= 0x7fff_ffff,
                height <= 0x7fff_ffff,
        ;
        let area: u64 = width as u64 * height as u64;
        area <= (usize::MAX / 4) as u64
    }

    /// A simulation of the given dimensions with every cell empty, every
    /// pixel opaque black, generation zero and the fixed seed.
    pub fn new(width: u32, height: u32) -> (sim: Simulation)
        requires
            Simulation::supports(width, height),
        ensures
            sim@ == World::fresh(width as nat, height as nat),
            sim@.wf(),
            sim@.in_sync(),
    {
        assert(width * height >= 0) by (nonlinear_arith);
        let len: usize = width as usize * height as usize;
        let blank: Cell = Cell { material: Material::Empty, ra: 0, rb: 0, clock: 0 };
        let cells: Vec<Cell> = vec![blank; len];
        let pixels: Vec<u8> = vec![0u8; len * 4];
        assert(cells@ =~= World::fresh(width as nat, height as nat).cells);
        let mut sim = Simulation { width, height, cells, pixels, generation: 0, rng: rng::SEED };
        sim.write_pixels();
        proof {
            use_type_invariant(&sim);
        }
        sim
    }

    /// A simulation of the given dimensions, if they can be held.
    pub fn try_new(width: u32, height: u32) -> (made: Option<Simulation>)
        ensures
            made is Some <==> Simulation::supports(width, height),
            made matches Some(sim) ==> sim@ == World::fresh(width as nat, height as nat) && sim@.wf()
                && sim@.in_sync(),
    {
        if Simulation::can_hold(width, height) {
            Some(Simulation::new(width, height))
        } else {
            None
        }
    }

    /// Recomputes every pixel from its cell.
    #[inline]
    fn write_pixels(&mut self)
        ensures
            final(self)@ == old(self)@.refreshed(),
    {
        proof {
            use_type_invariant(&*self);
        }
        let n: usize = self.cells.len();
        let mut i: usize = 0;
        while i < n
            invariant
                self.inv(),
                i <= n == self.cells.len(),
                self.pixels.len() == 4 * n,
                self@.cells == old(self)@.cells,
                self@.refreshed() == old(self)@.refreshed(),
                forall|p: int| 0 <= p < 4 * i ==> self.pixels@[p] == render(self.cells@)[p],
            decreases n - i,
        {
            let p: usize = i * 4;
            let c: [u8; 4] = color_of(self.cells[i].material, self.cells[i].ra);
            self.pixels[p] = c[0];
            self.pixels[p + 1] = c[1];
            self.pixels[p + 2] = c[2];
            self.pixels[p + 3] = c[3];
            i += 1;
        }
        assert(self.pixels@ =~= render(self.cells@));
    }

    /// Gives the cell at `(x, y)` its turn.
    #[inline]
    fn update_at(&mut self, x: i32, y: i32)
        requires
            old(self)@.in_bounds(x as int, y as int),
        ensures
            final(self)@ == old(self)@.update_at(x as int, y as int),
    {
        proof {
            use_type_invariant(&*self);
        }
        let i: usize = self.idx(x as i64, y as i64);
        let cell: Cell = self.cells[i];

        // A cell stamped with the current generation has had its turn.
        if cell.clock == self.generation {
            return;
        }
        if cell.material == Material::Empty {
            return;
        }
        let api = SimAPI { x, y, sim: self };
        update_cell(cell, api);
    }

    /// Gives every cell of row `y` its turn, in the scan order of the
    /// current generation.
    fn scan_row(&mut self, y: u32)
        requires
            y < old(self)@.height,
        ensures
            final(self)@ == old(self)@.scan_row(y as int, old(self)@.width),
    {
        proof {
            use_type_invariant(&*self);
        }
        let w: u32 = self.width;
        let generation: u8 = self.generation;
        assert((generation & 1 == 0) == (generation % 2 == 0)) by (bit_vector);
        let left_to_right: bool = (generation & 1) == 0;
        let mut k: u32 = 0;
        while k < w
            invariant
                self@.wf(),
                k <= w == self@.width <= i32::MAX,
                y < self@.height <= i32::MAX,
                self@.generation == generation,
                left_to_right == (generation % 2 == 0),
                self@ == old(self)@.scan_row(y as int, k as nat),
            decreases w - k,
        {
            let x: u32 = if left_to_right {
                k
            } else {
                w - 1 - k
            };
            proof {
                lemma_update_at_frame(self@, x as int, y as int);
            }
            self.update_at(x as i32, y as i32);
            k += 1;
        }
    }

    /// Advances the simulation by one tick.
    fn tick(&mut self)
        ensures
            final(self)@ == old(self)@.tick(),
    {
        proof {
            use_type_invariant(&*self);
        }
        self.generation = self.generation.wrapping_add(1);
        let h: u32 = self.height;
        let ghost start: World = self@;
        let mut done: u32 = 0;
        while done < h
            invariant
                start.wf(),
                done <= h == self@.height,
                start.height == h,
                self@ == start.scan_rows(done as nat),
            decreases h - done,
        {
            proof {
                lemma_scan_rows_frame(start, done as nat);
                lemma_scan_row_frame(self@, h - done - 1, self@.width);
            }
            done += 1;
            self.scan_row(h - done);
        }
    }

    /// Advances the simulation by `ticks` ticks, then brings the pixel
    /// buffer up to date.
    ///
    /// Each tick advances the generation and scans the grid from the bottom
    /// row up, alternating the column order with the parity of the
    /// generation.
    pub fn step(&mut self, ticks: u32)
        ensures
            final(self)@ == old(self)@.step(ticks as nat),
            forall|id: u8| final(self)@.count(id) == old(self)@.count(id),
            final(self)@.wf(),
            final(self)@.in_sync(),
    {
        proof {
            use_type_invariant(&*self);
            assert forall|id: u8| old(self)@.step(ticks as nat).count(id) == old(self)@.count(id) by {
                lemma_step_conserves_mass(old(self)@, ticks as nat, id);
            }
        }
        let mut t: u32 = 0;
        while t < ticks
            invariant
                t <= ticks,
                self@ == old(self)@.run(t as nat),
            decreases ticks - t,
        {
            self.tick();
            t += 1;
        }
        self.write_pixels();
        proof {
            use_type_invariant(&*self);
        }
    }

    /// How many cells hold the material with identifier `material_id`.
    pub fn count_mat(&self, material_id: u8) -> (n: usize)
        ensures
            n == self@.count(material_id),
            self@.wf(),
    {
        proof {
            use_type_invariant(self);
        }
        let mut n: usize = 0;
        let mut i: usize = 0;
        while i < self.cells.len()
            invariant
                i <= self.cells.len(),
                n <= i,
                n == count(self.cells@.take(i as int), material_id),
            decreases self.cells.len() - i,
        {
            assert(self.cells@.take(i + 1).drop_last() =~= self.cells@.take(i as int));
            if self.cells[i].material.id() == material_id {
                n += 1;
            }
            i += 1;
        }
        assert(self.cells@.take(i as int) =~= self.cells@);
        n
    }

    /// Replaces the cell at `(x, y)` by a fresh cell of the material that
    /// `material_id` stands for, stamped with the next generation value, and
    /// repaints its pixel. Coordinates outside the grid are ignored.
    pub fn set_cell(&mut self, x: u32, y: u32, material_id: u8)
        ensures
            final(self)@ == old(self)@.set_cell(x as int, y as int, material_id),
            final(self)@.wf(),
            old(self)@.in_sync() ==> final(self)@.in_sync(),
    {
        proof {
            use_type_invariant(&*self);
            if self@.in_sync() {
                lemma_set_cell_keeps_sync(self@, x as int, y as int, material_id);
            }
        }
        if x >= self.width || y >= self.height {
            return;
        }
        let i: usize = self.idx(x as i64, y as i64);
        let material: Material = Material::from_id(material_id);
        self.cells[i] = Cell { material, ra: 0, rb: 0, clock: self.generation.wrapping_add(1) };

        assert(self.pixels.len() == 4 * self.cells.len());
        let p: usize = i * 4;
        let c: [u8; 4] = color_of(material, 0);
        self.pixels[p] = c[0];
        self.pixels[p + 1] = c[1];
        self.pixels[p + 2] = c[2];
        self.pixels[p + 3] = c[3];
    }

    /// Replaces every cell within `radius` of `(cx, cy)`, the rim included,
    /// by a fresh cell of the material that `material_id` stands for, then
    /// brings the pixel buffer up to date.
    pub fn paint_circle(&mut self, cx: u32, cy: u32, radius: u32, material_id: u8)
        ensures
            final(self)@ == old(self)@.paint_circle(cx as int, cy as int, radius as int, material_id),
            final(self)@.wf(),
            final(self)@.in_sync(),
    {
        proof {
            use_type_invariant(&*self);
        }
        let painted: Cell = Cell {
            material: Material::from_id(material_id),
            ra: 0,
            rb: 0,
            clock: self.generation.wrapping_add(1),
        };
        let w: usize = self.width as usize;
        let n: usize = self.cells.len();
        let mut i: usize = 0;
        while i < n
            invariant
                self.inv(),
                i <= n == self.cells.len(),
                w == self@.width,
                self@.pixels == old(self)@.pixels,
                self@.width == old(self)@.width,
                self@.height == old(self)@.height,
                self@.generation == old(self)@.generation,
                self@.rng == old(self)@.rng,
                old(self)@.cells.len() == n,
                painted == Cell::fresh(Material::of_id(material_id), old(self)@.stamp()),
                forall|j: int|
                    0 <= j < i ==> self.cells@[j] == old(self)@.paint_circle(
                        cx as int,
                        cy as int,
                        radius as int,
                        material_id,
                    ).cells[j],
                forall|j: int| i <= j < n ==> self.cells@[j] == old(self)@.cells[j],
            decreases n - i,
        {
            assert(i / w < self@.height) by (nonlinear_arith)
                requires
                    0 <= i < w * self@.height,
                    w > 0,
            ;
            if within(i % w, i / w, cx, cy, radius) {
                self.cells[i] = painted;
            }
            i += 1;
        }
        assert(self.cells@ =~= old(self)@.paint_circle(
            cx as int,
            cy as int,
            radius as int,
            material_id,
        ).cells);
        self.write_pixels();
        proof {
            use_type_invariant(&*self);
        }
    }

    /// Empties every cell, stamped with the next generation value, then
    /// brings the pixel buffer up to date.
    pub fn clear(&mut self)
        ensures
            final(self)@ == old(self)@.cleared(),
            final(self)@.wf(),
            final(self)@.in_sync(),
    {
        proof {
            use_type_invariant(&*self);
        }
        let blank: Cell = Cell::empty_with_clock(self.generation.wrapping_add(1));
        let n: usize = self.cells.len();
        let mut i: usize = 0;
        while i < n
            invariant
                self.inv(),
                i <= n == self.cells.len(),
                self@.pixels == old(self)@.pixels,
                self@.width == old(self)@.width,
                self@.height == old(self)@.height,
                self@.generation == old(self)@.generation,
                self@.rng == old(self)@.rng,
                old(self)@.cells.len() == n,
                blank == Cell::vacant(old(self)@.stamp()),
                forall|j: int| 0 <= j < i ==> self.cells@[j] == blank,
            decreases n - i,
        {
            self.cells[i] = blank;
            i += 1;
        }
        assert(self.cells@ =~= old(self)@.cleared().cells);
        self.write_pixels();
        proof {
            use_type_invariant(&*self);
        }
    }

    /// The RGBA pixel buffer: row-major, top row first, four bytes per cell.
    #[inline]
    pub fn pixels(&self) -> (pixels: &[u8])
        ensures
            pixels@ == self@.pixels,
    {
        self.pixels.as_slice()
    }

    /// The number of columns.
    #[inline]
    pub fn width(&self) -> (width: u32)
        ensures
            width == self@.width,
    {
        self.width
    }

    /// The number of rows.
    #[inline]
    pub fn height(&self) -> (height: u32)
        ensures
            height == self@.height,
    {
        self.height
    }
}

/// A view of the grid bound to one coordinate. Every operation takes an
/// offset relative to that coordinate, which need not lie inside the grid.
///
/// An operation that takes the view mutably leaves it bound to the same
/// coordinate and to the same simulation.
pub struct SimAPI<'a> {
    pub x: i32,
    pub y: i32,
    pub sim: &'a mut Simulation,
}

impl<'a> SimAPI<'a> {
    /// The state of the simulation that the view is bound to.
    pub open spec fn world(&self) -> World {
        self.sim@
    }

    /// The cell at the given offset; outside the grid, solid wall.
    #[inline]
    pub fn get(&self, dx: i32, dy: i32) -> (cell: Cell)
        ensures
            cell == self.world().get(self.x + dx, self.y + dy),
            self.world().wf(),
    {
        let nx: i64 = self.x as i64 + dx as i64;
        let ny: i64 = self.y as i64 + dy as i64;
        proof {
            use_type_invariant(&*self.sim);
        }
        if !self.sim.in_bounds(nx, ny) {
            return Cell { material: Material::Wall, ra: 0, rb: 0, clock: self.sim.generation };
        }
        self.sim.cells[self.sim.idx(nx, ny)]
    }

    /// Writes `v` at the given offset, stamped with the next generation
    /// value; a write outside the grid is ignored.
    #[inline]
    pub fn set(&mut self, dx: i32, dy: i32, v: Cell)
        ensures
            final(self).x == old(self).x,
            final(self).y == old(self).y,
            *final(final(self).sim) == *final(old(self).sim),
            final(self).world() == old(self).world().put(old(self).x + dx, old(self).y + dy, v),
            final(self).world().wf(),
    {
        let nx: i64 = self.x as i64 + dx as i64;
        let ny: i64 = self.y as i64 + dy as i64;
        proof {
            use_type_invariant(&*self.sim);
        }
        if !self.sim.in_bounds(nx, ny) {
            return;
        }
        let di: usize = self.sim.idx(nx, ny);
        let mut v = v;
        v.clock = self.sim.generation.wrapping_add(1);
        self.sim.cells[di] = v;
        proof {
            use_type_invariant(&*self.sim);
        }
    }

    /// Empties the slot the view is bound to, stamped with the next
    /// generation value.
    #[inline]
    pub fn clear_here(&mut self)
        ensures
            final(self).x == old(self).x,
            final(self).y == old(self).y,
            *final(final(self).sim) == *final(old(self).sim),
            final(self).world() == old(self).world().clear_at(old(self).x as int, old(self).y as int),
            final(self).world().wf(),
    {
        self.set(0, 0, Cell::empty_with_clock(0));
    }

    /// Moves `cell` into the neighbour at the given offset if that neighbour
    /// is empty, and empties the bound slot. Says whether the move happened.
    #[inline]
    pub fn try_move(&mut self, dx: i32, dy: i32, cell: Cell) -> (moved: bool)
        ensures
            final(self).x == old(self).x,
            final(self).y == old(self).y,
            *final(final(self).sim) == *final(old(self).sim),
            moved == old(self).world().is_open(old(self).x + dx, old(self).y + dy),
            final(self).world() == old(self).world().try_move(
                old(self).x as int,
                old(self).y as int,
                dx as int,
                dy as int,
                cell,
            ),
            final(self).world().wf(),
    {
        if self.get(dx, dy).material == Material::Empty {
            self.set(dx, dy, cell);
            self.clear_here();
            true
        } else {
            false
        }
    }

    /// Trades places with the neighbour at the given offset if that
    /// neighbour's material is one of `allowed_materials`: `cell` goes there
    /// and the neighbour's content comes to the bound slot. Says whether the
    /// swap happened.
    #[inline]
    pub fn try_move_into(&mut self, dx: i32, dy: i32, cell: Cell, allowed_materials: &[Material]) -> (moved: bool)
        ensures
            final(self).x == old(self).x,
            final(self).y == old(self).y,
            *final(final(self).sim) == *final(old(self).sim),
            moved == allowed_materials@.contains(
                old(self).world().get(old(self).x + dx, old(self).y + dy).material,
            ),
            final(self).world() == old(self).world().try_move_into(
                old(self).x as int,
                old(self).y as int,
                dx as int,
                dy as int,
                cell,
                allowed_materials@,
            ),
            final(self).world().wf(),
    {
        let target: Cell = self.get(dx, dy);
        if is_allowed(allowed_materials, target.material) {
            self.set(dx, dy, cell);
            self.set(0, 0, target);
            true
        } else {
            false
        }
    }

    /// One draw from the simulation's random source.
    #[inline]
    pub fn rand_u32(&mut self) -> (drawn: u32)
        ensures
            final(self).x == old(self).x,
            final(self).y == old(self).y,
            *final(final(self).sim) == *final(old(self).sim),
            drawn == old(self).world().next_draw(),
            final(self).world() == old(self).world().drawn(),
            final(self).world().wf(),
    {
        proof {
            use_type_invariant(&*self.sim);
        }
        let mut state: u64 = self.sim.rng;
        let drawn: u32 = rng::next(&mut state);
        self.sim.rng = state;
        drawn
    }

    /// The current value of the generation counter.
    #[inline]
    pub fn generation(&self) -> (generation: u8)
        ensures
            generation == self.world().generation,
    {
        self.sim.generation
    }
}

/// Whether the cell in column `x` of row `y` lies within `radius` of
/// `(cx, cy)`.
fn within(x: usize, y: usize, cx: u32, cy: u32, radius: u32) -> (inside: bool)
    requires
        x <= i32::MAX,
        y <= i32::MAX,
    ensures
        inside == in_circle(x as int, y as int, cx as int, cy as int, radius as int),
{
    let dx: i128 = x as i128 - cx as i128;
    let dy: i128 = y as i128 - cy as i128;
    let r: i128 = radius as i128;
    assert(0 <= dx * dx <= 0x1_0000_0000_0000_0000) by (nonlinear_arith)
        requires
            -0x1_0000_0000 <= dx <= 0x1_0000_0000,
    ;
    assert(0 <= dy * dy <= 0x1_0000_0000_0000_0000) by (nonlinear_arith)
        requires
            -0x1_0000_0000 <= dy <= 0x1_0000_0000,
    ;
    assert(0 <= r * r <= 0x1_0000_0000_0000_0000) by (nonlinear_arith)
        requires
            0 <= r <= 0x1_0000_0000,
    ;
    dx * dx + dy * dy <= r * r
}

/// Whether `material` occurs in `allowed`.
fn is_allowed(allowed: &[Material], material: Material) -> (found: bool)
    ensures
        found == allowed@.contains(material),
{
    let mut i: usize = 0;
    while i < allowed.len()
        invariant
            i <= allowed.len(),
            forall|j: int| 0 <= j < i ==> allowed@[j] != material,
        decreases allowed.len() - i,
    {
        if allowed[i] == material {
            return true;
        }
        i += 1;
    }
    false
}

} // verus!
