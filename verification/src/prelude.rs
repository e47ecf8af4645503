//! The types that every user of the library needs.

pub mod coordinates;
pub mod direction;
pub mod field;
pub mod generator;
pub mod graph;
pub mod maze;

pub use self::coordinates::Coordinates;
pub use self::direction::Direction;
pub use self::field::{Field, FieldType};
pub use self::generator::Generator;
pub use self::graph::MazeGraph;
pub use self::maze::{Maze, MazeView};
