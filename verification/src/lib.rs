//! Core simulation of a single-screen arcade game: a bird falls under
//! gravity, jumps on input, and must pass through a stream of paired pipe
//! obstacles while collecting coins.
//!
//! The library holds the per-frame simulation: obstacle and coin lifecycle,
//! collision detection, scoring, and the event queue that defers state
//! mutation to a single drain point each frame. All world coordinates are
//! integer pixels and frame times are integer milliseconds, so every rule is
//! stated and proved exactly. Rendering, input reading and the high-score
//! file live outside the library and hand it plain values.

pub mod bird;
pub mod coins;
pub mod events;
pub mod game;
pub mod motion;
pub mod pipes;
pub mod rng;
pub mod score_text;
pub mod stats;
