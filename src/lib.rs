//! A typed, synchronous request/acknowledge channel between a `Source` that
//! sends values and a `Sink` that receives them, with its settings file.

mod config;
mod error;
pub mod protocol;
pub mod search;

pub use crate::config::{Config, OverwritePolicy};
pub use crate::error::{Error, Result};
