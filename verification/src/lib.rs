//! The rules of a whack-a-mole round: the round clock, the mole spawner,
//! each mole's lifetime, whacking moles, scores and the labels shown on
//! screen. The engine that draws and reads input stands around this crate
//! and hands it plain values.

pub mod constants;
pub mod timer;
pub mod resources;
pub mod moles;
pub mod game;
pub mod menu;
pub mod hud;
pub mod laws;
