//! A monorepo task runner: selects the packages touched by a set of changed
//! files, resolves the script each package should run, schedules the jobs on a
//! bounded set of workers and folds the outcomes into one exit status.
use vstd::prelude::*;

pub mod detect;
pub mod dispatch;
pub mod jobs;
pub mod status;

verus! {

} // verus!
