//! Determinism: the state of a simulation, its pixels included, is a
//! function of its dimensions and of the calls made on it.

use vstd::prelude::*;
use crate::render::render;
use crate::schedule::lemma_run_frame;
use crate::world::{lemma_index_in_range, World};

verus! {

/// One call on a simulation, with its arguments.
pub enum Command {
    /// `set_cell(x, y, material_id)`
    SetCell { x: u32, y: u32, material_id: u8 },
    /// `paint_circle(cx, cy, radius, material_id)`
    PaintCircle { cx: u32, cy: u32, radius: u32, material_id: u8 },
    /// `clear()`
    Clear,
    /// `step(ticks)`
    Step { ticks: u32 },
}

impl World {
    /// The world after one call.
    pub open spec fn apply(self, command: Command) -> World {
        match command {
            Command::SetCell { x, y, material_id } => self.set_cell(x as int, y as int, material_id),
            Command::PaintCircle { cx, cy, radius, material_id } => self.paint_circle(
                cx as int,
                cy as int,
                radius as int,
                material_id,
            ),
            Command::Clear => self.cleared(),
            Command::Step { ticks } => self.step(ticks as nat),
        }
    }

    /// The world after a sequence of calls, made in order.
    pub open spec fn replay(self, commands: Seq<Command>) -> World
        decreases commands.len(),
    {
        if commands.len() == 0 {
            self
        } else {
            self.replay(commands.drop_last()).apply(commands.last())
        }
    }
}

/// A new world is well formed and its pixels show its cells.
pub proof fn lemma_fresh_is_in_sync(width: nat, height: nat)
    ensures
        World::fresh(width, height).wf(),
        World::fresh(width, height).in_sync(),
{
}

/// Repainting one pixel after replacing its cell keeps the pixels showing
/// the cells.
pub proof fn lemma_set_cell_keeps_sync(w: World, x: int, y: int, id: u8)
    requires
        w.wf(),
        w.in_sync(),
    ensures
        w.set_cell(x, y, id).wf(),
        w.set_cell(x, y, id).in_sync(),
{
    if w.in_bounds(x, y) {
        lemma_index_in_range(w, x, y);
        let after = w.set_cell(x, y, id);
        assert(after.pixels =~= render(after.cells));
    }
}

/// Every call keeps a world well formed with its pixels showing its cells.
pub proof fn lemma_apply_keeps_sync(w: World, command: Command)
    requires
        w.wf(),
        w.in_sync(),
    ensures
        w.apply(command).wf(),
        w.apply(command).in_sync(),
{
    match command {
        Command::SetCell { x, y, material_id } => {
            lemma_set_cell_keeps_sync(w, x as int, y as int, material_id);
        },
        Command::PaintCircle { cx, cy, radius, material_id } => {},
        Command::Clear => {},
        Command::Step { ticks } => {
            lemma_run_frame(w, ticks as nat);
        },
    }
}

/// After any sequence of calls on a new simulation the pixel buffer shows
/// the cells as they are.
pub proof fn lemma_replay_keeps_sync(width: nat, height: nat, commands: Seq<Command>)
    ensures
        World::fresh(width, height).replay(commands).wf(),
        World::fresh(width, height).replay(commands).in_sync(),
    decreases commands.len(),
{
    if commands.len() > 0 {
        lemma_replay_keeps_sync(width, height, commands.drop_last());
        lemma_apply_keeps_sync(
            World::fresh(width, height).replay(commands.drop_last()),
            commands.last(),
        );
    }
}

/// Determinism: two new simulations of the same dimensions that receive the
/// same calls are in the same state after each call, and show the same
/// pixels, byte for byte. Every call is a function of the state and its
/// arguments; no call consults anything else.
pub proof fn lemma_replay_is_deterministic(
    a: World,
    b: World,
    width: nat,
    height: nat,
    commands: Seq<Command>,
    made: int,
)
    requires
        a == World::fresh(width, height),
        b == World::fresh(width, height),
        0 <= made <= commands.len(),
    ensures
        a.replay(commands.take(made)) == b.replay(commands.take(made)),
        a.replay(commands.take(made)).pixels == b.replay(commands.take(made)).pixels,
{
}

} // verus!
