//! A viewport tiled with fixed-size squares that take a random colour when the
//! pointer passes over them with a button held.
//!
//! Everything here works on whole numbers. A length is a count of units, and
//! the edges of a rectangle, which may fall between two units, are counted in
//! halves of a unit.

pub mod capture;
pub mod chance;
pub mod color;
pub mod draw;
pub mod geometry;
pub mod grid;
pub mod sketch;
pub mod square;
pub mod tiling;
