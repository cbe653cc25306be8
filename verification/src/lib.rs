//! A declarative bootstrapper for a development host: it compares the snapshot that a host
//! was last brought to with the one that is desired, translates what differs into setup
//! operations, and steers the run that carries them out.

pub mod apply;
pub mod cmd;
pub mod command;
pub mod config;
pub mod consts;
pub mod convergence;
pub mod diff;
pub mod git;
pub mod mapping;
pub mod style;
pub mod text;
