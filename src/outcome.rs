use vstd::prelude::*;

use crate::error::{HaltReason, SimError};

verus! {

/// What the execution engine reports for one transaction.
pub enum ExecutionOutcome {
    Success { gas_used: u64, output: Vec<u8> },
    Revert { gas_used: u64, output: Vec<u8> },
    Halt { gas_used: u64, reason: HaltReason },
}

/// The transaction did not complete successfully.
pub open spec fn reverted(outcome: ExecutionOutcome) -> bool {
    match outcome {
        ExecutionOutcome::Success { .. } => false,
        _ => true,
    }
}

/// `e` is the error a failed outcome is reported as: Execution Reverted, where a
/// revert carries its returned data and a halt its reason.
pub open spec fn is_revert_error(e: SimError, outcome: ExecutionOutcome) -> bool {
    match outcome {
        ExecutionOutcome::Revert { output, .. } => match e {
            SimError::ExecutionReverted { halt, data } => halt is None && data@ == output@,
            _ => false,
        },
        ExecutionOutcome::Halt { reason, .. } => match e {
            SimError::ExecutionReverted { halt, data } => halt == Some(reason) && data@.len()
                == 0,
            _ => false,
        },
        ExecutionOutcome::Success { .. } => false,
    }
}

fn revert_error(outcome: ExecutionOutcome) -> (e: SimError)
    requires
        reverted(outcome),
    ensures
        is_revert_error(e, outcome),
{
    match outcome {
        ExecutionOutcome::Revert { output, .. } => SimError::ExecutionReverted {
            halt: None,
            data: output,
        },
        ExecutionOutcome::Halt { reason, .. } => SimError::ExecutionReverted {
            halt: Some(reason),
            data: Vec::new(),
        },
        ExecutionOutcome::Success { .. } => SimError::Setup(String::new()),
    }
}

/// The answer to a gas estimate: the gas a successful transaction used, or
/// Execution Reverted.
pub fn estimate_result(outcome: ExecutionOutcome) -> (r: Result<u64, SimError>)
    ensures
        match outcome {
            ExecutionOutcome::Success { gas_used, .. } => r == Ok::<u64, SimError>(gas_used),
            _ => match r {
                Ok(_) => false,
                Err(e) => is_revert_error(e, outcome),
            },
        },
{
    match outcome {
        ExecutionOutcome::Success { gas_used, .. } => Ok(gas_used),
        _ => Err(revert_error(outcome)),
    }
}

/// The answer to a call: the bytes a successful transaction returned, or
/// Execution Reverted.
pub fn call_result(outcome: ExecutionOutcome) -> (r: Result<Vec<u8>, SimError>)
    ensures
        match outcome {
            ExecutionOutcome::Success { output, .. } => match r {
                Ok(bytes) => bytes@ == output@,
                Err(_) => false,
            },
            _ => match r {
                Ok(_) => false,
                Err(e) => is_revert_error(e, outcome),
            },
        },
{
    match outcome {
        ExecutionOutcome::Success { output, .. } => Ok(output),
        _ => Err(revert_error(outcome)),
    }
}

} // verus!
