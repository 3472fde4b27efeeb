//! What a loop runner offers.
use vstd::prelude::*;

use crate::repl::ReplError;

verus! {

/// A loop that can be run until it ends.
pub trait Runner {
    fn run(&self) -> Result<(), ReplError>;
}

} // verus!
