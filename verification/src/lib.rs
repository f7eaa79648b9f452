//! Dungeon generation, collision-aware movement and visibility bookkeeping
//! for a grid-based roguelike.
//!
//! The crate owns the tile grid, carves it from randomly placed rooms joined
//! by corridors, moves entities against it, and keeps the per-tile memory of
//! what the player has seen. Drawing, key polling and the field-of-view
//! computation itself are left to the caller, which exchanges plain values
//! with the functions here.

pub mod tile;
pub mod rect;
pub mod grid;
pub mod rng;
pub mod reach;
pub mod carve;
pub mod layout;
pub mod mapgen;
pub mod object;
pub mod fov;
pub mod render;
pub mod input;
