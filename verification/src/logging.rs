use vstd::prelude::*;

verus! {

/// Where a logged training step took its batch from.
pub struct StepLogContext<'a> {
    pub step: usize,
    pub source: &'a str,
    pub offset: usize,
    pub batch_size: usize,
    pub seq_len: usize,
}

} // verus!
