use vstd::prelude::*;

pub mod action;
pub mod checks;
pub mod filter;
pub mod glob;
pub mod mode;
pub mod outcome;
pub mod paths;
pub mod plan;
pub mod run;
pub mod stash;

verus! {

} // verus!
