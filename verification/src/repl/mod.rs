//! The read-eval-print loop: its state, its builder and its input events.
use vstd::prelude::*;

pub mod commands;
pub mod simple;
pub mod traits;
pub mod tui;

use crate::prqlite::{compile_query, prql_compiled};
use crate::text::{chars_of, string_from_chars};
use commands::{
    command_outcome, parse_command, CommandError, CommandOutcome, Commands,
    ExecCommand,
};

verus! {

/// The prompt shown when none is set.
pub const DEFAULT_PROMPT: &'static str = ">";

/// The prefix of commands when none is set.
pub const DEFAULT_COMMAND_PREFIX: &'static str = ".";

/// The kind of loop a `Repl` runs.
#[derive(Copy, Clone, PartialEq, Eq, Structural, Debug)]
pub enum ReplMode {
    Normal,
}

/// A configured loop, over the state it reads.
pub struct Repl<'a, C> {
    pub prompt: String,
    pub command_prefix: String,
    pub mode: ReplMode,
    pub state: &'a ReplState<C>,
}

/// The settings of a loop before it is built; unset ones take defaults.
pub struct ReplBuilder<C> {
    pub prompt: Option<String>,
    pub command_prefix: Option<String>,
    pub mode: Option<ReplMode>,
    pub state: Option<ReplState<C>>,
}

impl<'a, C> Repl<'a, C> {
    /// A builder with nothing set.
    pub fn new() -> (r: ReplBuilder<C>)
        ensures
            r.prompt is None,
            r.command_prefix is None,
            r.mode is None,
            r.state is None,
    {
        ReplBuilder { prompt: None, command_prefix: None, mode: None, state: None }
    }

    /// A builder for the normal loop.
    pub fn normal() -> (r: ReplBuilder<C>)
        ensures
            r.prompt is None,
            r.command_prefix is None,
            r.mode == Some(ReplMode::Normal),
            r.state is None,
    {
        ReplBuilder { prompt: None, command_prefix: None, mode: Some(ReplMode::Normal), state: None }
    }
}

/// The value of an optional string setting.
pub open spec fn option_text(o: Option<String>) -> Option<Seq<char>> {
    match o {
        Some(s) => Some(s@),
        None => None,
    }
}

impl<C> ReplBuilder<C> {
    /// Sets the prompt.
    pub fn prompt(&mut self, prompt: &str) -> (r: &mut Self)
        ensures
            option_text(r.prompt) == Some(prompt@),
            r.command_prefix == old(self).command_prefix,
            r.mode == old(self).mode,
            r.state == old(self).state,
            *final(self) == *final(r),
    {
        self.prompt = Some(prompt.to_owned());
        self
    }

    /// Sets the command prefix.
    pub fn command_prefix(&mut self, command_prefix: &str) -> (r: &mut Self)
        ensures
            option_text(r.command_prefix) == Some(command_prefix@),
            r.prompt == old(self).prompt,
            r.mode == old(self).mode,
            r.state == old(self).state,
            *final(self) == *final(r),
    {
        self.command_prefix = Some(command_prefix.to_owned());
        self
    }

    /// Sets the state the loop reads.
    pub fn state(&mut self, state: ReplState<C>) -> (r: &mut Self)
        ensures
            r.state == Some(state),
            r.prompt == old(self).prompt,
            r.command_prefix == old(self).command_prefix,
            r.mode == old(self).mode,
            *final(self) == *final(r),
    {
        self.state = Some(state);
        self
    }

    /// The loop with these settings: the prompt defaults to `>`, the
    /// command prefix to `.`, the mode to the normal loop. The state must be
    /// set.
    pub fn build(&self) -> (r: Repl<'_, C>)
        requires
            self.state is Some,
        ensures
            r.prompt@ == (match self.prompt {
                Some(p) => p@,
                None => DEFAULT_PROMPT@,
            }),
            r.command_prefix@ == (match self.command_prefix {
                Some(p) => p@,
                None => DEFAULT_COMMAND_PREFIX@,
            }),
            r.mode == ReplMode::Normal,
            Some(*r.state) == self.state,
    {
        let prompt = match &self.prompt {
            Some(p) => p.clone(),
            None => DEFAULT_PROMPT.to_owned(),
        };
        let command_prefix = match &self.command_prefix {
            Some(p) => p.clone(),
            None => DEFAULT_COMMAND_PREFIX.to_owned(),
        };
        let mode = match self.mode {
            Some(m) => m,
            None => ReplMode::Normal,
        };
        Repl { prompt, mode, command_prefix, state: self.state.as_ref().unwrap() }
    }
}

/// Why a line could not run.
#[derive(Debug, Clone, PartialEq, Eq)]
pub enum ReplError {
    /// No database is open.
    NotConnected,
    /// The line is not a command.
    Command(CommandError),
    /// Compiling or running the line failed with this message.
    Failed(String),
}

/// The message shown when no database is open.
pub open spec fn not_connected_text() -> Seq<char> {
    "Didn't connected with database, please restart program with '--open <DATABASE_FILE>' flag."@
}

impl ReplError {
    /// The message shown for this error.
    pub fn message(&self) -> (r: String)
        ensures
            r@ == match self {
                ReplError::NotConnected => not_connected_text(),
                ReplError::Command(e) => commands::command_error_message(e@),
                ReplError::Failed(m) => m@,
            },
    {
        match self {
            ReplError::NotConnected => "Didn't connected with database, please restart program with '--open <DATABASE_FILE>' flag.".to_owned(),
            ReplError::Command(e) => e.message(),
            ReplError::Failed(m) => m.clone(),
        }
    }
}

/// What the loop knows: the database connection, once one is open.
#[derive(Debug)]
pub struct ReplState<C> {
    pub prqlite_conn: Option<C>,
}

impl<C> ReplState<C> {
    /// A state without a connection.
    pub fn new() -> (r: Self)
        ensures
            r.prqlite_conn is None,
    {
        ReplState { prqlite_conn: None }
    }

    /// Keeps `conn` as the connection.
    pub fn set_conn(&mut self, conn: C) -> (r: &mut Self)
        ensures
            r.prqlite_conn == Some(conn),
            *final(self) == *final(r),
    {
        self.prqlite_conn = Some(conn);
        self
    }

    /// The connection, or `NotConnected` when there is none.
    pub fn get_prqlite_conn(&self) -> (r: Result<&C, ReplError>)
        ensures
            match self.prqlite_conn {
                Some(c) => r matches Ok(rc) && *rc == c,
                None => r matches Err(e) && e is NotConnected,
            },
    {
        match &self.prqlite_conn {
            Some(conn) => Ok(conn),
            None => Err(ReplError::NotConnected),
        }
    }
}

/// The handler of entered lines, over the loop's state.
pub struct ReplInputEvent<'a, C> {
    pub state: &'a ReplState<C>,
}

impl<'a, C> ReplInputEvent<'a, C> {
    pub fn new(state: &'a ReplState<C>) -> (r: Self)
        ensures
            r.state == state,
    {
        ReplInputEvent { state }
    }

    /// Runs a command line: the line without its first character (the
    /// command prefix, one byte long) is read as a command and run.
    pub fn on_command(&self, buf: &str) -> (r: Result<CommandOutcome, ReplError>)
        requires
            buf@.len() > 0,
            (buf@[0] as u32) < 0x80,
        ensures
            match parse_command(buf@.drop_first()) {
                Ok(c) => r matches Ok(o) && o@ == command_outcome(c),
                Err(e) => r matches Err(ReplError::Command(ce)) && ce@ == e,
            },
    {
        let mut v = chars_of(buf);
        v.remove(0);
        let rest = string_from_chars(&v);
        match Commands::from_str(rest.as_str()) {
            Err(e) => Err(ReplError::Command(e)),
            Ok(cmd) => Ok(cmd.exec()),
        }
    }

    /// Compiles a PRQL query line for the connection: fails when no
    /// database is open, or with the compiler's message; otherwise gives
    /// the connection and the SQL to run on it. The rows that querying it
    /// gives, or the failure to prepare or read it, are shown by
    /// `sql_run_output`.
    pub fn on_regular_input(&self, buf: &str) -> (r: Result<(&'a C, String), ReplError>)
        ensures
            match self.state.prqlite_conn {
                None => r matches Err(e) && e is NotConnected,
                Some(c) => match prql_compiled(buf@, false, false) {
                    Ok(sql) => r matches Ok((rc, s)) && *rc == c && s@ == sql,
                    Err(m) => r matches Err(ReplError::Failed(rm)) && rm@ == m,
                },
            },
    {
        let conn = match self.state.get_prqlite_conn() {
            Err(err) => return Err(err),
            Ok(conn) => conn,
        };
        match compile_query(buf) {
            Ok(sql) => Ok((conn, sql)),
            Err(m) => Err(ReplError::Failed(m)),
        }
    }
}

} // verus!
