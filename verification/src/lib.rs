//! The decisions behind a tool that runs a coding agent inside an ephemeral
//! macOS virtual machine: which commands are run, in which order, with which
//! arguments, and what is done when one of them fails.
//!
//! Nothing here performs I/O. A caller runs the commands, reads and writes the
//! files, and feeds the outcomes back in.
pub mod agent;
pub mod cli;
pub mod config;
pub mod gc;
pub mod images;
pub mod json;
pub mod mount;
pub mod names;
pub mod paths;
pub mod relay;
pub mod sandbox;
pub mod settings;
pub mod shell;
pub mod table;
pub mod text;
pub mod tools;
pub mod vm;
