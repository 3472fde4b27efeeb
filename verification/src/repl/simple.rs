//! The line-based loop: reading a statement key by key, and preparing it.
use vstd::prelude::*;
use vstd::utf8::encode_utf8;

use crate::repl::ReplState;
use crate::text::{
    chars_of, chars_start_with, remove_first, remove_first_chars, rfind_byte, rfind_char,
    starts_with, string_from_chars, string_push, trim, trim_chars,
};

verus! {

/// The line-based loop over a state.
pub struct SimpleRepl<'a, C> {
    pub prompt: String,
    pub command_prefix: String,
    pub state: &'a ReplState<C>,
}

/// A key pressed while a statement is typed.
#[derive(Copy, Clone, PartialEq, Eq, Structural, Debug)]
pub enum KeyPress {
    Enter,
    Char(char),
    Other,
}

/// An event read while a statement is typed.
#[derive(Copy, Clone, PartialEq, Eq, Structural, Debug)]
pub enum InputEvent {
    Key(KeyPress),
    /// Anything but a key; it ends the reading.
    NotKey,
}

/// What reading does after an event.
#[derive(Copy, Clone, PartialEq, Eq, Structural, Debug)]
pub enum ReadStep {
    /// Read the next event.
    Continue,
    /// The statement goes on on a new line: show the continuation prompt
    /// `..~` and read the next event.
    NextLine,
    /// The statement is complete.
    Done,
}

/// The statement typed so far ends with `;`, once trimmed.
pub open spec fn statement_complete(buf: Seq<char>) -> bool {
    trim(buf).len() > 0 && trim(buf).last() == ';'
}

/// Reading one event is defined: Enter needs a non-blank statement.
pub open spec fn read_defined(buf: Seq<char>, event: InputEvent) -> bool {
    event == InputEvent::Key(KeyPress::Enter) ==> trim(buf).len() > 0
}

/// Takes one event into the statement being typed: a character is added;
/// Enter completes a statement that ends with `;` and otherwise starts a
/// new line of it; any event other than a key ends the reading.
pub fn read_key(buf: &mut String, event: InputEvent) -> (r: ReadStep)
    requires
        read_defined(old(buf)@, event),
    ensures
        match event {
            InputEvent::NotKey => r == ReadStep::Done && final(buf)@ == old(buf)@,
            InputEvent::Key(KeyPress::Char(c)) => r == ReadStep::Continue && final(buf)@ == old(
                buf,
            )@.push(c),
            InputEvent::Key(KeyPress::Other) => r == ReadStep::Continue && final(buf)@ == old(
                buf,
            )@,
            InputEvent::Key(KeyPress::Enter) => if statement_complete(old(buf)@) {
                r == ReadStep::Done && final(buf)@ == old(buf)@
            } else {
                r == ReadStep::NextLine && final(buf)@ == old(buf)@.push('\n')
            },
        },
{
    match event {
        InputEvent::NotKey => ReadStep::Done,
        InputEvent::Key(KeyPress::Char(c)) => {
            string_push(buf, c);
            ReadStep::Continue
        },
        InputEvent::Key(KeyPress::Other) => ReadStep::Continue,
        InputEvent::Key(KeyPress::Enter) => {
            let v = chars_of(buf.as_str());
            let t = trim_chars(&v);
            if t[t.len() - 1] != ';' {
                string_push(buf, '\n');
                ReadStep::NextLine
            } else {
                ReadStep::Done
            }
        },
    }
}

/// The statement as it is run: trimmed, and with as many of its first
/// `;` removed as the byte offset of the last `;` in the typed text.
pub open spec fn prepared_line(raw: Seq<char>) -> Seq<char> {
    remove_first(trim(raw), ';', rfind_byte(raw, ';')->0)
}

impl<'a, C> SimpleRepl<'a, C> {
    pub fn new(prompt: &str, command_prefix: &str, state: &'a ReplState<C>) -> (r: Self)
        ensures
            r.prompt@ == prompt@,
            r.command_prefix@ == command_prefix@,
            r.state == state,
    {
        SimpleRepl { prompt: prompt.to_owned(), command_prefix: command_prefix.to_owned(), state }
    }

    /// Prepares a typed statement to run (see `prepared_line`); it must
    /// hold a `;`.
    pub fn prepare_line(raw: &str) -> (r: String)
        requires
            rfind_byte(raw@, ';') is Some,
            encode_utf8(raw@).len() <= usize::MAX,
        ensures
            r@ == prepared_line(raw@),
    {
        let v = chars_of(raw);
        let t = trim_chars(&v);
        let last = rfind_char(&v, ';').unwrap();
        let cleaned = remove_first_chars(&t, ';', last);
        string_from_chars(&cleaned)
    }

    /// Whether a prepared statement is a command: trimmed, it begins with
    /// the command prefix.
    pub fn is_command(&self, line: &str) -> (r: bool)
        ensures
            r == starts_with(trim(line@), self.command_prefix@),
    {
        let v = chars_of(line);
        let t = trim_chars(&v);
        let p = chars_of(self.command_prefix.as_str());
        chars_start_with(&t, &p)
    }
}

} // verus!
