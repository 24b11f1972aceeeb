//! Update orchestration for several independently installed package managers:
//! a fixed catalog of managers, the safety checks a command must pass before it
//! runs, detection of the managers that are present, the plan for one command,
//! the classification of its output, and the run state machine that turns a
//! selection of sources into an ordered stream of events.

use vstd::prelude::*;

pub mod catalog;
pub mod config;
pub mod detect;
pub mod run;
pub mod runner;
pub mod security;
pub mod summary;
pub mod text;
pub mod updater;

verus! {

/// Identifier under which the desktop application registers itself.
pub const APP_ID: &'static str = "org.gnome.UpToDate";

} // verus!
