//! Selects sequencing reads by the time at which each read started.
//!
//! A first pass reads one start time per record (`extract`, `records`); the
//! window of times to keep is resolved from the earliest and latest of them
//! and from optional bounds (`window`, `duration`); a second pass writes the
//! records whose time lies in the window (`records`).
pub mod cli;
pub mod duration;
pub mod error;
pub mod extract;
pub mod records;
pub mod timestamp;
pub mod window;

pub use duration::Duration;
pub use error::OntimeError;
pub use timestamp::Timestamp;
