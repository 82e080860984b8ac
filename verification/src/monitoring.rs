//! Figures derived from the operation counters.
//!
//! The counters themselves are kept by whoever runs the contract; what is
//! computed from them is computed here.

use vstd::prelude::*;

verus! {

/// How the contract has been used.
#[derive(Clone, Copy, Debug, PartialEq, Eq, Structural)]
pub struct Analytics {
    pub operation_count: u64,
    pub unique_users: u64,
    pub error_count: u64,
    /// Failed operations per ten thousand operations.
    pub error_rate: u32,
}

/// The counters at one point in time.
#[derive(Clone, Copy, Debug, PartialEq, Eq, Structural)]
pub struct StateSnapshot {
    pub timestamp: u64,
    pub total_operations: u64,
    pub total_users: u64,
    pub total_errors: u64,
}

/// Failed operations per ten thousand operations, rounded down; zero where
/// there was no operation. Where more failures than operations are counted,
/// only the low 32 bits of the quotient are kept.
pub open spec fn error_rate(operations: u64, errors: u64) -> u32 {
    if operations > 0 {
        ((errors * 10_000) / (operations as int)) as u32
    } else {
        0
    }
}

/// The time per call, rounded down; zero where there was no call.
pub open spec fn average_time(calls: u64, total_time: u64) -> u64 {
    if calls > 0 {
        (total_time / calls) as u64
    } else {
        0
    }
}

/// Puts the analytics together from the counters.
pub fn get_analytics(operations: u64, users: u64, errors: u64) -> (analytics: Analytics)
    ensures
        analytics == (Analytics {
            operation_count: operations,
            unique_users: users,
            error_count: errors,
            error_rate: error_rate(operations, errors),
        }),
        errors <= operations ==> analytics.error_rate <= 10_000,
{
    let rate: u32 = if operations > 0 {
        let scaled: u128 = errors as u128 * 10_000;
        let quotient: u128 = scaled / operations as u128;
        proof {
            if errors <= operations {
                assert(quotient <= 10_000) by (nonlinear_arith)
                    requires
                        quotient == (errors * 10_000) / (operations as int),
                        errors <= operations,
                        operations > 0,
                ;
            }
        }
        #[verifier::truncate]
        (quotient as u32)
    } else {
        0
    };
    Analytics { operation_count: operations, unique_users: users, error_count: errors, error_rate: rate }
}

/// Puts a snapshot of the counters together.
pub fn get_state_snapshot(timestamp: u64, operations: u64, users: u64, errors: u64) -> (snapshot:
    StateSnapshot)
    ensures
        snapshot == (StateSnapshot {
            timestamp,
            total_operations: operations,
            total_users: users,
            total_errors: errors,
        }),
{
    StateSnapshot { timestamp, total_operations: operations, total_users: users, total_errors: errors }
}

/// Computes the time per call.
pub fn get_average_time(calls: u64, total_time: u64) -> (average: u64)
    ensures
        average == average_time(calls, total_time),
{
    if calls > 0 {
        total_time / calls
    } else {
        0
    }
}

} // verus!
