//! The command line's own logic: argument parsing, output naming, the JSON
//! reports and the exit-code map, for the `image`, `beeper` and `adf`
//! commands. Reading and writing files stays with the program around the
//! library.
pub mod json;
pub mod image_command;
pub mod report;
pub mod paths;
pub mod preview;
pub mod decode;
pub mod beeper;
pub mod adf;
pub mod amiga_disk;
pub mod usage;
pub mod basic;
