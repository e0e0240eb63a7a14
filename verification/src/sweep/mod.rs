pub mod rng;
pub mod candidate_space;
pub mod halton;
pub mod parse;
pub mod optimizer;
pub mod trial;
pub mod trial_row;
