//! Argument-count validation for decoded commands.

use vstd::prelude::*;

use crate::db::errors::TransientError;

verus! {

/// Whether `received` elements satisfy a command's arity: between the
/// minimum and `expected` when a minimum is given, at most `expected`
/// otherwise.
pub open spec fn spec_arity_ok(expected: u32, received: u32, min_expected: Option<u32>) -> bool {
    match min_expected {
        Some(mn) => mn <= received <= expected,
        None => received <= expected,
    }
}

/// Validates the element count of a command frame. A violation reports
/// the command, the count that was needed (the minimum where one is
/// given) and the count received.
pub fn check_argument(
    command: String,
    expected: u32,
    received: u32,
    min_expected: Option<u32>,
) -> (r: Result<(), TransientError>)
    ensures
        r is Ok <==> spec_arity_ok(expected, received, min_expected),
        r matches Err(e) ==> e matches TransientError::WrongNumberOfArguments {
            command: c,
            expected: ex,
            received: rc,
        } && c@ == command@ && ex == (match min_expected {
            Some(mn) => mn,
            None => expected,
        }) && rc == received,
{
    match min_expected {
        Some(mn) => {
            if received < mn || received > expected {
                return Err(
                    TransientError::WrongNumberOfArguments { command, expected: mn, received },
                );
            }
        },
        None => {
            if received > expected {
                return Err(
                    TransientError::WrongNumberOfArguments { command, expected, received },
                );
            }
        },
    }
    Ok(())
}

} // verus!
