//! Configuration, launch planning, persistence and output-relay logic for a
//! small GUI around the `ps3dec` command-line tool.
//!
//! The crate holds everything the GUI decides or computes: the persisted
//! configuration and its text codec, validation and argument construction for
//! a launch, and the folding of relayed subprocess output into the log.
//! Window drawing, file dialogs, the clipboard, the file system and process
//! spawning live outside the library.

pub mod config;
pub mod launch;
pub mod num;
pub mod persist;
pub mod relay;
pub mod text;
