//! Rectangular mazes as graphs of cells joined by passages, with the contract
//! that every maze generator has to meet.

pub mod binary_tree;
pub mod conformance;
pub mod grid;
pub mod laws;
pub mod prelude;
pub mod render;
