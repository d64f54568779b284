//! Ready-made processors.
use vstd::prelude::*;
use core::marker::PhantomData;
use crate::component::FlowComponent;
use crate::error::FlowError;
use vstd::string::StringExecFns;

verus! {

/// `e` is what `E::from` gives for the processing error "Item filtered out".
pub open spec fn filtered_out<E: From<FlowError>>(e: E) -> bool {
    exists|m: String| m@ == "Item filtered out"@ && #[trigger] call_ensures(<E as From<FlowError>>::from, (FlowError::Process(m),), e)
}

/// A processor that keeps the items its predicate accepts: an accepted item
/// goes on unchanged, any other is filtered out with an error.
pub struct FilterProcessor<T, F, E> {
    predicate: F,
    _phantom: PhantomData<(T, E)>,
}

impl<T, F: Fn(&T) -> bool, E: From<FlowError>> FilterProcessor<T, F, E> {
    /// The predicate that decides which items go on.
    pub closed spec fn predicate(&self) -> F {
        self.predicate
    }

    /// Creates a filter processor with the given predicate.
    pub fn new(predicate: F) -> (p: Self)
        ensures
            p.predicate() == predicate,
    {
        FilterProcessor { predicate, _phantom: PhantomData }
    }

    /// Asks the predicate once about `input`. When it holds, the item comes
    /// back unchanged; when it does not, the item is filtered out and the
    /// result is the processing error "Item filtered out", converted to `E`
    /// by `E::from`.
    pub fn apply(&self, input: T) -> (r: Result<T, E>)
        requires
            self.predicate().requires((&input,)),
        ensures
            r matches Ok(x) ==> x == input && self.predicate().ensures((&input,), true),
            r is Err ==> self.predicate().ensures((&input,), false),
            r matches Err(e) ==> filtered_out(e),
    {
        if (self.predicate)(&input) {
            Ok(input)
        } else {
            let message = String::from_str("Item filtered out");
            let ghost text = message;
            let error = FlowError::Process(message);
            // Called as a function value, so that the result is known as one
            // that `E::from` gives for this error.
            let convert = <E as From<FlowError>>::from;
            let e = convert(error);
            proof {
                assert(call_ensures(<E as From<FlowError>>::from, (FlowError::Process(text),), e));
            }
            Err(e)
        }
    }
}

impl<T, F, E> FlowComponent for FilterProcessor<T, F, E> {
    type Input = T;
    type Output = T;
    type Error = E;
}

/// A processor that turns each item into another with a function.
pub struct TransformProcessor<I, O, F, E> {
    transform: F,
    _phantom: PhantomData<(I, O, E)>,
}

impl<I, O, F: Fn(I) -> O, E> TransformProcessor<I, O, F, E> {
    /// The function the processor applies.
    pub closed spec fn transform(&self) -> F {
        self.transform
    }

    /// Creates a transform processor with the given function.
    pub fn new(transform: F) -> (p: Self)
        ensures
            p.transform() == transform,
    {
        TransformProcessor { transform, _phantom: PhantomData }
    }

    /// Applies the function to `input`; never fails.
    pub fn apply(&self, input: I) -> (r: Result<O, E>)
        requires
            self.transform().requires((input,)),
        ensures
            r matches Ok(o) && self.transform().ensures((input,), o),
    {
        let output = (self.transform)(input);
        Ok(output)
    }
}

impl<I, O, F, E> FlowComponent for TransformProcessor<I, O, F, E> {
    type Input = I;
    type Output = O;
    type Error = E;
}

} // verus!
