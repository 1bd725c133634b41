//! The signals that end a run early.
use vstd::prelude::*;

verus! {

/// Why a run stopped before completing: control signals raised by the
/// harness itself, and the errors of the program under test.
#[derive(Debug, PartialEq, Eq)]
pub enum RunError {
    /// `skip()` was reached; the entrypoint is reported as skipped.
    Skip,
    /// The step budget ran out after the given number of executed steps.
    StepBudgetExceeded(u64),
    /// An annotation named no registered handler; holds the annotation's text.
    UnknownHint(String),
    /// A handler was given arguments it cannot use; holds the handler's name.
    InvalidHintArguments(String),
    /// A cell already holds another value than the one being written.
    MemoryConflict(u64),
    /// A cell that had to be read holds no value.
    UnsetMemory(u64),
    /// A register or address would leave the addressable range.
    AddressOverflow,
    /// Any other failure of the program under test, with the engine's message.
    Engine(String),
}

impl RunError {
    /// True for the signals that an expected revert does not excuse: the
    /// skip sentinel and an exhausted step budget.
    pub open spec fn is_harness_signal(&self) -> bool {
        self is Skip || self is StepBudgetExceeded
    }
}

} // verus!
