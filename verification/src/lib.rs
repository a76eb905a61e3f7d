//! Grid model for a small bomb-and-coins arcade game.
//!
//! The library owns the level board: parsing an ASCII map into a typed
//! grid, coordinate transforms between grid cells and render space,
//! movement queries, wall-connectivity search, and bomb blast
//! propagation. Everything dynamic (who stands where, which bombs are
//! armed) is tracked as associations from opaque entity identifiers to
//! grid positions; the surrounding game loop owns the entities
//! themselves.

pub mod blast;
pub mod grid;
pub mod level;
pub mod levels;
pub mod parse;
pub mod search;
pub mod textmap;
pub mod types;

pub use grid::Grid;
pub use level::Level;
pub use types::Block;
pub use types::BlockType;
pub use types::BoardDirection;
pub use types::LevelError;
pub use types::Position;
pub use types::WorldCoord;
