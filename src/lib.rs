//! Simulation core of a two-player arena shooter.
//!
//! All quantities are fixed-point integers: lengths in thousandths of a
//! pixel, time in microseconds, speeds in length units per second.
pub mod geometry;
pub mod entity;
pub mod audio;
pub mod bullet;
pub mod player;
pub mod scenes;
pub mod game;
pub mod button;
pub mod menu;
