//! Verified core of the LimeLight Stream Deck plugin: targets, the light
//! snapshot and its aggregates, the update queue, the action registry and
//! the key artwork.

pub mod actions;
pub mod bridge;
pub mod client;
pub mod daemon;
pub mod keyed;
pub mod poller;
pub mod queue;
pub mod render;
pub mod settings;
pub mod snapshot;
pub mod svg;
pub mod text;
