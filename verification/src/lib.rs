//! Exact geometry for a fractal of cubes.
//!
//! A cube is subdivided into twenty smaller ones, as in one step of a Menger
//! sponge, and every cube carries a wireframe: twelve thin boxes along its
//! edges. Thirds and halves of whole numbers are not whole, so every value
//! lives on a lattice: coordinates and lengths are whole numbers of steps, and
//! a scale says how many steps make one unit. Subdividing makes the lattice
//! three times as fine, a wireframe lives on one twice as fine, and nothing is
//! ever rounded.

pub mod cuboid;
pub mod error;
pub mod model;
pub mod offsets;
pub mod subdivision;
pub mod utils;
