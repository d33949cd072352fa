//! appendfile: moves a media file into a target folder under the next free
//! numbered name of a prefix (`<prefix><n>.<ext>`), and remembers the target
//! folder for later runs.
//!
//! The library holds the rules and decisions; the filesystem, the process
//! environment and the terminal are reached by the program that drives it,
//! one step at a time.
pub mod cli;
pub mod fileops;
pub mod naming;
pub mod number;
pub mod paths;
pub mod storage;
pub mod text;
