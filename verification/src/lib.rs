//! Game logic of a small factory-building game: tiles on a grid move,
//! produce and consume items, and the world advances in discrete ticks.
pub mod animation;
pub mod dependency;
pub mod player;
pub mod resources;
pub mod save;
pub mod tiles;
pub mod types;
pub mod utils;
pub mod world;
