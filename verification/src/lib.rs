pub mod cli;
pub mod compose;
pub mod config;
pub mod errors;
pub mod install;
pub mod language;
pub mod lock;
pub mod shell;
pub mod strings;
