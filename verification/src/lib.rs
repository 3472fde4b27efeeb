//! A PRQL/SQLite read-eval-print shell: command parsing, input handling,
//! cursor and history state of the terminal interface, and the
//! compilation and rendering steps around the database.
use vstd::prelude::*;

pub mod text;
pub mod cli;
pub mod repl;
pub mod prqlite;

verus! {

} // verus!
