//! Simulation core of a tile-based bomb arcade game.
//!
//! The host engine owns rendering, physics and audio. It feeds this crate the
//! frame time, the player's input and the overlap notifications of its physics
//! step; the crate answers with the commands the host has to carry out.
//! Chance enters in two places only, the drop roll of a destroyed breakable
//! and the pick of a game-over jingle, and each function that rolls hands
//! back what it rolled.
//!
//! Lengths are whole thousandths of a world unit and times are whole
//! nanoseconds, so every quantity is an integer.

pub mod audio;
pub mod bomb;
pub mod collider;
pub mod constants;
pub mod gameover;
pub mod item;
pub mod logic;
pub mod map;
pub mod menu;
pub mod nextlevel;
pub mod player;
pub mod state;
pub mod tick;
pub mod timer;
pub mod utils;
pub mod world;
