//! A command-line task runner's engine: it merges hierarchical project and
//! home configuration into one command table (the closest definition of a
//! name wins), resolves requested services against statically known names and
//! executables found on the search path by naming convention, composes the
//! shell command lines and environments of child processes, decides how a
//! run's steps proceed around failures, and escalates from a forwarded
//! termination signal to a forceful kill when a child outstays its grace
//! window. Everything here is decision logic over plain values; reading
//! files, spawning processes and delivering signals belong to the caller.

pub mod checkout;
pub mod command;
pub mod config;
pub mod document;
pub mod executor;
pub mod kvlist;
pub mod plugin;
pub mod runner;
pub mod signal;
pub mod text;
pub mod toml_config;
