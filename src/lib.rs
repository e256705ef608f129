//! A dispatcher for command-line subcommands: it picks the subcommand that
//! the first argument names, sorts the remaining tokens into flag values and
//! positional arguments, and hands the result to the subcommand's handler.
pub mod text;
pub mod context;
pub mod command;
pub mod tokens;
pub mod dispatch;
pub mod laws;

pub use command::{Command, Flag, FlagKind, Handler};
pub use context::{Context, FlagRes};
pub use dispatch::{App, Invocation};
pub use tokens::CliError;
