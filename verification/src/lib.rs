//! Verified core of the 198x build tools: machine graphics specifications,
//! BASIC listing builds and lint, beeper phrase notation, WAV and assembly
//! rendering, and the integer stages of the image conversion pipeline.
pub mod basic;
pub mod cli;
pub mod mediaspec;
pub mod text;
pub mod beeper;
pub mod convert;
