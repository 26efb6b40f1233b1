//! A cellular-automaton engine for granular and fluid materials on a 2-D
//! grid: sand falls and piles up, water flows and pools, wall and stone
//! stand. The engine keeps one grid and updates it in place; a pixel buffer
//! shows it.
//!
//! The executable code is in [`simulation`] (the grid, its ticks, and the
//! neighbour view that behaviours act through), [`materials`] (the material
//! table and the behaviours) and [`rng`]. Every function there is verified
//! against a mathematical model of the simulation, the [`world::World`]:
//!
//! - [`world`]: the model and the movement primitives;
//! - [`schedule`]: a cell's turn, the scan order, ticks and batches;
//! - [`edit`] and [`render`]: drawing on the grid and showing it.
//!
//! What follows from the model is proved about it:
//!
//! - [`conservation`]: ticks never change how much there is of a material;
//! - [`boundary`]: the edge of the grid is solid wall;
//! - [`replay`]: the pixels are a function of the calls made;
//! - [`turn`]: a turn is one action on at most two slots, stamped;
//! - [`rest`]: settled worlds stay as they are, pools are still, wall and
//!   stone never move;
//! - [`settle`]: a lone grain falls one row every other tick and rests on
//!   the floor;
//! - [`once`]: within a tick no grain of sand moves twice.

pub mod boundary;
pub mod cell;
pub mod conservation;
pub mod edit;
pub mod materials;
pub mod once;
pub mod render;
pub mod replay;
pub mod rest;
pub mod rng;
pub mod schedule;
pub mod settle;
pub mod simulation;
pub mod turn;
pub mod world;

pub use crate::cell::Cell;
pub use crate::simulation::{SimAPI, Simulation};
