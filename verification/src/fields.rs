//! Processors and conditions that compare one field of an item, given by an
//! extractor function, with an expected value.
use vstd::prelude::*;
use vstd::string::StringExecFns;
use core::marker::PhantomData;
use crate::component::FlowComponent;
use crate::error::FlowError;

verus! {

/// The message of a field mismatch.
pub open spec fn mismatch_message(expected: Seq<char>, actual: Seq<char>) -> Seq<char> {
    "Field mismatch: expected "@ + expected + ", got "@ + actual
}

/// A processor that lets an item through only when the extracted field
/// equals the expected value.
pub struct FieldFilter<T, F> {
    field_extractor: F,
    expected_value: String,
    _phantom: PhantomData<T>,
}

impl<T, F: Fn(&T) -> String> FieldFilter<T, F> {
    pub closed spec fn extractor(&self) -> F {
        self.field_extractor
    }

    pub closed spec fn expected(&self) -> Seq<char> {
        self.expected_value@
    }

    /// Creates a filter comparing the field given by `field_extractor` with `expected_value`.
    pub fn new(field_extractor: F, expected_value: String) -> (p: Self)
        ensures
            p.extractor() == field_extractor,
            p.expected() == expected_value@,
    {
        FieldFilter { field_extractor, expected_value, _phantom: PhantomData }
    }

    /// Gives `input` back when its field equals the expected value, else a
    /// processing error naming both values.
    pub fn apply(&self, input: T) -> (r: Result<T, FlowError>)
        requires
            self.extractor().requires((&input,)),
        ensures
            exists|actual: String| {
                &&& #[trigger] self.extractor().ensures((&input,), actual)
                &&& actual@ == self.expected() ==> r == Ok::<T, FlowError>(input)
                &&& actual@ != self.expected() ==> (r matches Err(FlowError::Process(m)) && m@ == mismatch_message(self.expected(), actual@))
            },
    {
        let actual = (self.field_extractor)(&input);
        if actual == self.expected_value {
            Ok(input)
        } else {
            let message = String::from_str("Field mismatch: expected ")
                .concat(self.expected_value.as_str())
                .concat(", got ")
                .concat(actual.as_str());
            Err(FlowError::Process(message))
        }
    }
}

impl<T, F> FlowComponent for FieldFilter<T, F> {
    type Input = T;
    type Output = T;
    type Error = FlowError;
}

/// A condition that holds when the extracted field equals the expected value.
pub struct FieldCondition<T, F> {
    field_extractor: F,
    expected_value: String,
    _phantom: PhantomData<T>,
}

impl<T, F: Fn(&T) -> String> FieldCondition<T, F> {
    pub closed spec fn extractor(&self) -> F {
        self.field_extractor
    }

    pub closed spec fn expected(&self) -> Seq<char> {
        self.expected_value@
    }

    /// Creates a condition comparing the field given by `field_extractor` with `expected_value`.
    pub fn new(field_extractor: F, expected_value: String) -> (c: Self)
        ensures
            c.extractor() == field_extractor,
            c.expected() == expected_value@,
    {
        FieldCondition { field_extractor, expected_value, _phantom: PhantomData }
    }

    /// Whether the field of `input` equals the expected value; the second
    /// part of the answer is always `Some(true)`.
    pub fn evaluate(&self, input: T) -> (r: Result<(bool, Option<bool>), FlowError>)
        requires
            self.extractor().requires((&input,)),
        ensures
            exists|actual: String| {
                &&& #[trigger] self.extractor().ensures((&input,), actual)
                &&& r == Ok::<(bool, Option<bool>), FlowError>((actual@ == self.expected(), Some(true)))
            },
    {
        let actual = (self.field_extractor)(&input);
        Ok((actual == self.expected_value, Some(true)))
    }
}

impl<T, F> FlowComponent for FieldCondition<T, F> {
    type Input = T;
    type Output = bool;
    type Error = FlowError;
}

} // verus!
