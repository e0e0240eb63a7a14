use vstd::prelude::*;

pub mod checkpoint;
pub mod text;
pub mod config;
pub mod number;
pub mod env_file;
pub mod clock;
pub mod run_output;
pub mod sweep;
pub mod run_info;
pub mod logging;

verus! {

} // verus!
