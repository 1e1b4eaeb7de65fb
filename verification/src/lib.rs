//! Runtime discovery, command planning and installer decisions for the
//! OpenClaw desktop manager.
//!
//! Everything here computes on plain values: the paths that exist, the text
//! a command printed, the content of a settings file.  Reading the disk,
//! the environment and running processes is left to the caller.
pub mod text;
pub mod version;
pub mod platform;
pub mod command;
pub mod envfile;
pub mod runtime;
pub mod bundled;
pub mod installer;
pub mod scripts;
