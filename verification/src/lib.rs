//! Game logic of a small first-person maze game: the maze layout and what
//! is built from it, the debug texture, the keyboard controls and the
//! collider tags that the game entities carry.

pub mod components;
pub mod controls;
pub mod maze;
pub mod texture;

pub use components::{ColliderT, ColliderTypes, GameState, Player};
