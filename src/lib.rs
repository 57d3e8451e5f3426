//! Pseudo-terminal process execution: the command specs that commands and
//! the fork helper run with, the child's environment, and the rules that
//! govern a child's lifecycle, its terminal and its output stream.

use vstd::prelude::*;

pub mod child;
pub mod command;
pub mod env;
pub mod output;
pub mod path;

verus! {

} // verus!
