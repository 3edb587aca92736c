use vstd::prelude::*;

verus! {

/// Why the execution engine stopped a transaction before it completed.
#[derive(Clone, Copy, Debug, PartialEq, Eq, Structural)]
pub enum HaltReason {
    OutOfGas,
    OpcodeNotFound,
    InvalidOpcode,
    StackUnderflow,
    StackOverflow,
    OutOfFunds,
    CallTooDeep,
    /// The engine refused the transaction before running it (for instance,
    /// the sender cannot pay for it).
    InvalidTransaction,
    Other,
}

/// The failures a simulation reports to its caller.
#[derive(Debug)]
pub enum SimError {
    /// The remote node could not answer a query.
    Upstream(String),
    /// A fetch or an override failed before execution began.
    Setup(String),
    /// The simulated transaction reverted (`halt` is `None`) or halted.
    ExecutionReverted { halt: Option<HaltReason>, data: Vec<u8> },
}

} // verus!
