//! Core logic of a wearable light badge: the presence wire protocol, the presence tracker,
//! the LED animations and the display orchestrator that ties them together.

pub mod animations;
pub mod colour;
pub mod configuration;
pub mod display;
pub mod output;
pub mod presence;
pub mod throbber;
pub mod tracker;
pub mod utils;
