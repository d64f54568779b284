//! Errors raised by flows.
use vstd::prelude::*;
use vstd::string::StringExecFns;

verus! {

/// Error type specific to flow operations.
#[derive(Debug)]
pub enum FlowError {
    Source(String),
    Process(String),
    Condition(String),
    NoSource,
    NoSink,
    Sink(String),
    Custom(String),
}

impl Clone for FlowError {
    /// A copy equal to the original: same variant, same text.
    fn clone(&self) -> (r: Self)
        ensures
            r == *self,
    {
        match self {
            FlowError::Source(m) => FlowError::Source(m.clone()),
            FlowError::Process(m) => FlowError::Process(m.clone()),
            FlowError::Condition(m) => FlowError::Condition(m.clone()),
            FlowError::NoSource => FlowError::NoSource,
            FlowError::NoSink => FlowError::NoSink,
            FlowError::Sink(m) => FlowError::Sink(m.clone()),
            FlowError::Custom(m) => FlowError::Custom(m.clone()),
        }
    }
}

impl FlowError {
    /// The human-readable text of the error.
    pub open spec fn message(&self) -> Seq<char> {
        match self {
            FlowError::Source(msg) => "Source error: "@ + msg@,
            FlowError::Process(msg) => "Process error: "@ + msg@,
            FlowError::Condition(msg) => "Condition error: "@ + msg@,
            FlowError::NoSource => "Flow error: No source configured"@,
            FlowError::NoSink => "Flow error: No sink configured"@,
            FlowError::Sink(msg) => "Sink error: "@ + msg@,
            FlowError::Custom(msg) => "Flow error: "@ + msg@,
        }
    }

    /// Renders the error as text.
    pub fn to_string(&self) -> (text: String)
        ensures
            text@ == self.message(),
    {
        match self {
            FlowError::Source(msg) => String::from_str("Source error: ").concat(msg.as_str()),
            FlowError::Process(msg) => String::from_str("Process error: ").concat(msg.as_str()),
            FlowError::Condition(msg) => String::from_str("Condition error: ").concat(msg.as_str()),
            FlowError::NoSource => String::from_str("Flow error: No source configured"),
            FlowError::NoSink => String::from_str("Flow error: No sink configured"),
            FlowError::Sink(msg) => String::from_str("Sink error: ").concat(msg.as_str()),
            FlowError::Custom(msg) => String::from_str("Flow error: ").concat(msg.as_str()),
        }
    }
}

} // verus!
