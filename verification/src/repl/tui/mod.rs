//! The terminal interface's state and the decisions that drive it.
use vstd::prelude::*;

pub mod app;
pub mod coords;
pub mod ui;

verus! {

} // verus!
