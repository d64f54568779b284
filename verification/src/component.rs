//! What every component of a flow or pipeline declares: the type it takes,
//! the type it gives, and the type of its errors.
use vstd::prelude::*;

verus! {

/// The types a flow component works on.
pub trait FlowComponent {
    type Input;
    type Output;
    type Error;
}

/// The types a pipeline component works on.
pub trait PipelineComponent {
    type Input;
    type Output;
    type Error;
}

} // verus!
