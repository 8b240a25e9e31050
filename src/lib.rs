//! A rectangular grid of cells ("stamp") with quarter-turn rotations,
//! mirroring, overlay with transparency, and wildcard pattern search.
//!
//! The contracts speak of a grid through its view, the sequence of its rows;
//! `model` holds the spec functions they use and `laws` what is proved of
//! the operations taken together.
mod cell;
pub mod laws;
pub mod model;
mod overlay;
mod search;
mod stamp;
mod transform;

pub use cell::{accepts, listed, QueryStampPart, StampError, StampPart};
pub use stamp::{Pattern, Stamp};
