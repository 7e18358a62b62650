//! The decisions of the Astral Party auto patcher: which target and mode a
//! launch asks for, where the game and its downloaded data live, which release
//! assets to take, what to remove, and the install, patch and remove
//! workflows with the progress they report.
use vstd::prelude::*;

pub mod bundle;
pub mod error;
pub mod install;
pub mod launch;
pub mod lookup;
pub mod release;
pub mod removal;
pub mod report;
pub mod semver;
pub mod steam;
pub mod target;
pub mod text;
pub mod workflow;

verus! {

} // verus!
