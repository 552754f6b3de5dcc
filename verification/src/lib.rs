//! Core of a terminal brick-breaker game: a paddle deflects a ball to break
//! a fixed grid of bricks inside a bounded playfield. This crate holds the
//! verified game logic — construction, deterministic integer-grid physics,
//! input decisions, the loss condition, and render planning. The terminal
//! framework (window, keyboard, drawing) lives outside and drives this core.

pub mod game;
pub mod geom;
pub mod laws;
pub mod render;
