//! Emitting and reading the line-oriented workflow command protocol.
//!
//! A step of a workflow talks to the runner that supervises it by writing
//! lines of the form `::command key=value,...::payload` to its output, and
//! receives inputs and saved state through environment variables. This crate
//! renders those lines, escapes the text that goes into them, derives the
//! environment variable names, and offers a facade that writes the lines to
//! an injectable sink and reaches variables through an injectable
//! environment.

mod text;
pub mod command;
pub mod env;
pub mod escape;
pub mod facade;
pub mod logger;
pub mod sink;

pub use crate::command::{cmd_arg, encode};
pub use crate::env::{
    input, is_debug, join_key, state, underscore_spaces, var_from_name, var_key,
    Environment, VarError, VarTable,
};
pub use crate::escape::{escape_data, escape_property};
pub use crate::facade::Core;
pub use crate::logger::{format_log, Log, LogLevel};
pub use crate::sink::Sink;
