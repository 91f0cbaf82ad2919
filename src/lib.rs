//! Decision logic for managing per-branch git worktrees: parsing what git
//! reports, deciding which worktrees are safe to remove, and the small
//! naming rules around them.
pub mod cleanup;
pub mod config;
pub mod git;
pub mod output;
pub mod port;
pub mod safety;
pub mod setup;
pub mod text;
pub mod tmux;

use vstd::prelude::*;

verus! {

/// The library's entry point; it has nothing to do on its own.
pub fn run() -> (r: Result<(), String>)
    ensures
        r is Ok,
{
    Ok(())
}

} // verus!
