//! Conway's Game of Life on a fixed-size rectangular grid.
//!
//! A [`world::World`] holds one [`cell::Cell`] per coordinate of a
//! `rows x columns` grid. Starting from a set of live positions, each call to
//! [`world::World::next_gen`] derives a brand-new grid by applying the classic
//! birth/survival rule to every cell's Moore neighborhood; the grid it was
//! called on is never mutated.

pub mod cell;
pub mod laws;
pub mod position;
pub mod strategy;
pub mod world;
