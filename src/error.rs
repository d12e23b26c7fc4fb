use vstd::prelude::*;

verus! {

/// Failures of the counter's state transitions.
#[derive(Debug, Clone, Copy, PartialEq, Eq, Structural)]
pub enum CounterError {
    /// The counter account already exists.
    AlreadyInitialized,
    /// The counter account does not hold a valid counter.
    NotInitialized,
    /// The counter cannot go below zero.
    Underflow,
    /// The instruction could not be carried out as given.
    Invalid,
    /// The counter cannot go above `u64::MAX`.
    ArithmeticOverflow,
}

impl CounterError {
    /// A short human-readable description of the failure.
    pub fn message(&self) -> (r: &'static str)
        ensures
            r@ == error_message(*self),
    {
        match self {
            CounterError::AlreadyInitialized => "Counter already initialized",
            CounterError::NotInitialized => "Counter not initialized",
            CounterError::Underflow => "Counter underflow",
            CounterError::Invalid => "Invalid instruction",
            CounterError::ArithmeticOverflow => "Arithmetic overflow",
        }
    }

    /// The numeric code under which the host reports this failure.
    pub fn code(&self) -> (r: u32)
        ensures
            r == error_code(*self),
    {
        match self {
            CounterError::AlreadyInitialized => 0,
            CounterError::NotInitialized => 1,
            CounterError::Underflow => 2,
            CounterError::Invalid => 3,
            CounterError::ArithmeticOverflow => 4,
        }
    }
}

/// The text that describes each failure.
pub open spec fn error_message(e: CounterError) -> Seq<char> {
    match e {
        CounterError::AlreadyInitialized => "Counter already initialized"@,
        CounterError::NotInitialized => "Counter not initialized"@,
        CounterError::Underflow => "Counter underflow"@,
        CounterError::Invalid => "Invalid instruction"@,
        CounterError::ArithmeticOverflow => "Arithmetic overflow"@,
    }
}

/// The position of each failure in the declaration above.
pub open spec fn error_code(e: CounterError) -> u32 {
    match e {
        CounterError::AlreadyInitialized => 0,
        CounterError::NotInitialized => 1,
        CounterError::Underflow => 2,
        CounterError::Invalid => 3,
        CounterError::ArithmeticOverflow => 4,
    }
}

} // verus!
