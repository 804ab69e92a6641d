//! Seeded dungeon generation on a tile grid.
//!
//! A seed decides a [`layout`]: how large the grid is, where the rooms lie
//! and how the corridors between them turn. From a layout a [`dungeon`] is
//! built, a [`grid`] of walls and floor with a spawn point. The draws come
//! from the seeded stream of [`rng`], with the weights and ranges of
//! [`config`]; [`room`] holds the rectangles that are placed, and [`reach`]
//! shows that the rooms of a dungeon can be reached from each other.

pub mod config;
pub mod dungeon;
pub mod grid;
pub mod layout;
pub mod reach;
pub mod rng;
pub mod room;
