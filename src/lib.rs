//! Simulation and rendering core of a small top-down action game: geometry,
//! animation clips, input translation, power and experience meters, the
//! per-entity decisions of the frame pipeline, and a software compositor.

pub mod geometry;
pub mod random;
pub mod animation;
pub mod power;
pub mod hud;
pub mod control;
pub mod image;
pub mod system;
pub mod world;
