//! Collapsing of adjacent duplicate lines.

pub mod collapse;
pub mod config;
pub mod detector;
pub mod error;
pub mod format;
pub mod iter;
pub mod line;
pub mod runs;
