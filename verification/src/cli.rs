//! Command-line arguments of the shell.
use vstd::prelude::*;

use crate::text::chars_equal_str;
use crate::text::chars_of;

verus! {

/// The arguments the shell is started with.
#[derive(Debug, Clone, PartialEq, Eq)]
pub struct Args {
    /// Which REPL to run (the simple one when absent).
    pub mode: Option<ReplMode>,
}

/// The kind of REPL.
#[derive(Copy, Clone, PartialEq, Eq, Structural, PartialOrd, Ord, Debug)]
pub enum ReplMode {
    Simple,
    Tui,
}

impl Default for ReplMode {
    fn default() -> (r: ReplMode)
        ensures
            r == ReplMode::Simple,
    {
        ReplMode::Simple
    }
}

/// What `str::to_lowercase` returns for `s`.
pub uninterp spec fn lowercase(s: Seq<char>) -> Seq<char>;

/// Calls `str::to_lowercase`. The contract claims only that the result is a
/// function of `s`, named `lowercase`.
#[verifier::external_body]
fn to_lowercase(s: &str) -> (r: String)
    ensures
        r@ == lowercase(s@),
{
    s.to_lowercase()
}

/// The mode that a lower-cased name stands for, or the hint shown otherwise.
pub open spec fn mode_named(lower: Seq<char>) -> Result<ReplMode, Seq<char>> {
    if lower == "simple"@ {
        Ok(ReplMode::Simple)
    } else if lower == "tui"@ {
        Ok(ReplMode::Tui)
    } else {
        Err("type help to show avaliable option."@)
    }
}

/// The value of a mode result.
pub open spec fn mode_result_view(r: Result<ReplMode, String>) -> Result<ReplMode, Seq<char>> {
    match r {
        Ok(m) => Ok(m),
        Err(e) => Err(e@),
    }
}

impl ReplMode {
    /// The mode named by an already lower-cased text (see `mode_named`).
    pub fn from_lowercase(lower: &str) -> (r: Result<ReplMode, String>)
        ensures
            mode_result_view(r) == mode_named(lower@),
    {
        let v = chars_of(lower);
        if chars_equal_str(&v, "simple") {
            Ok(ReplMode::Simple)
        } else if chars_equal_str(&v, "tui") {
            Ok(ReplMode::Tui)
        } else {
            Err("type help to show avaliable option.".to_owned())
        }
    }

    /// The mode named by `s`, in any case (see `mode_named` over `lowercase`).
    pub fn from_str(s: &str) -> (r: Result<ReplMode, String>)
        ensures
            mode_result_view(r) == mode_named(lowercase(s@)),
    {
        let lower = to_lowercase(s);
        ReplMode::from_lowercase(lower.as_str())
    }
}

impl core::str::FromStr for ReplMode {
    type Err = String;

    fn from_str(s: &str) -> (r: Result<ReplMode, String>)
        ensures
            mode_result_view(r) == mode_named(lowercase(s@)),
    {
        ReplMode::from_str(s)
    }
}

} // verus!
