//! Runtime engine of an animated desktop companion: input gestures, the
//! per-frame behaviors, the animation task scheduler and the texture cache.
pub mod behavior;
pub mod definition;
pub mod events;
pub mod gremlin;
pub mod io;
pub mod launch;
pub mod render;
pub mod ui;
pub mod utils;
