//! Process exit codes, reported by the library and mapped to the OS by the
//! caller: success, a general unrecovered error, and death by interrupt.

use vstd::prelude::*;

verus! {

#[derive(Debug, Copy, Clone, PartialEq, Eq, Structural)]
pub enum ExitCode {
    Success,
    GeneralError,
    KilledBySigint,
}

impl ExitCode {
    /// The numeric process exit status this code stands for.
    pub open spec fn spec_code(self) -> int {
        match self {
            ExitCode::Success => 0,
            ExitCode::GeneralError => 1,
            ExitCode::KilledBySigint => 130,
        }
    }

    /// The numeric process exit status: 0 for success, 1 for a general
    /// error, 130 for termination by interrupt.
    pub fn code(self) -> (r: i32)
        ensures
            r == self.spec_code(),
    {
        match self {
            ExitCode::Success => 0,
            ExitCode::GeneralError => 1,
            ExitCode::KilledBySigint => 130,
        }
    }
}

} // verus!
