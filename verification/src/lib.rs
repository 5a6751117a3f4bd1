//! Conversion of snake_case identifiers, one per line, to camelCase.
//!
//! A text is cut into lines. A line that holds one identifier, with white
//! space at most around it, is converted; a blank line is left out, and so
//! is a line with white space inside it, of which a notice is kept. The
//! library reads and writes no file: a [`Run`] says which file it wants
//! read or written and is told how that went.

pub mod camel;
pub mod chars;
pub mod command;
pub mod config;
pub mod lines;
pub mod run;
pub mod split;
pub mod text;
pub mod transform;

pub use crate::command::{Command, Error};
pub use crate::config::Config;
pub use crate::run::{Event, Run};
pub use crate::transform::{ccus, convert, join_lines, uscc, Conversion, Notice};
