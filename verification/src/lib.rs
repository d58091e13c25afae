//! Folder-watching automation: which files a rule picks up, how action
//! arguments are rendered, when a growing file counts as ready, and what
//! is reported along the way.
pub mod cli;
pub mod config;
pub mod debounce;
pub mod engine;
pub mod error;
pub mod gui;
pub mod matching;
pub mod paths;
pub mod placeholders;
pub mod runner;
pub mod stable;
pub mod text;
pub mod types;
pub mod validation;
