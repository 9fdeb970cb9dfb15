//! What the `op` binary leaves behind.

use vstd::prelude::*;

verus! {

/// The code to exit with after `op` did: its own, or 1 where a signal ended it.
pub open spec fn passed_on(code: Option<i32>) -> i32 {
    match code {
        Some(c) => c,
        None => 1,
    }
}

/// The code to exit with after `op` did.
pub fn exit_code(code: Option<i32>) -> (r: i32)
    ensures
        r == passed_on(code),
{
    match code {
        Some(c) => c,
        None => 1,
    }
}

/// A code is passed on as it is, whatever it is; where there is none, it is 1.
pub proof fn codes_are_passed_on(code: i32)
    ensures
        passed_on(Some(code)) == code,
        passed_on(None) == 1,
{
}

} // verus!
