//! Verified cores of a small family of line-oriented text utilities.
//!
//! The centre of the crate is [`uniqr`]: a single-pass engine that collapses
//! maximal runs of adjacent equal lines into one record per run. Around it
//! stand the rules of four smaller utilities ([`catr`], [`headr`], [`wcr`],
//! [`findr`]) and what they share: line sources, the cutting of a text into
//! lines, numerals and helpers on strings.
//!
//! Nothing here opens a file or reads the command line. A program reads,
//! hands plain values to these functions and writes what they return.

pub mod catr;
pub mod findr;
pub mod headr;
pub mod numeral;
pub mod source;
pub mod split;
pub mod text;
pub mod uniqr;
pub mod wcr;
