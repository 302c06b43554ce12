pub mod chance;
pub mod edge;
pub mod geom;
pub mod graph;
pub mod grid;
pub mod puzz;
pub mod text;

pub use puzz::Puzzle;
