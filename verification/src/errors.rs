//! The error taxonomy of the host: every fallible operation of the library
//! reports one of these conditions.

use vstd::prelude::*;

verus! {

/// Why a ledger or host-interface operation was refused.
#[derive(Clone, Copy, Debug, PartialEq, Eq, Structural)]
pub enum ExecError {
    /// The addressed account has no ledger entry.
    NotFound,
    /// A debit would drive a balance below zero.
    InsufficientBalance,
    /// A credit would overflow the 64-bit balance.
    BalanceOverflow,
    /// A datastore write to an address the current frame may not touch.
    AccessDenied,
    /// A call-stack read or pop on an empty stack.
    EmptyStack,
}

impl ExecError {
    /// A short human-readable description of the error.
    pub fn describe(&self) -> (r: &'static str)
        ensures
            r@ == self.spec_describe(),
    {
        match self {
            ExecError::NotFound => "ledger entry not found",
            ExecError::InsufficientBalance => "balance is too low",
            ExecError::BalanceOverflow => "balance would overflow",
            ExecError::AccessDenied => "no write access to this entry",
            ExecError::EmptyStack => "the call stack is empty",
        }
    }

    /// The text `describe` returns for each variant.
    pub open spec fn spec_describe(self) -> Seq<char> {
        match self {
            ExecError::NotFound => "ledger entry not found"@,
            ExecError::InsufficientBalance => "balance is too low"@,
            ExecError::BalanceOverflow => "balance would overflow"@,
            ExecError::AccessDenied => "no write access to this entry"@,
            ExecError::EmptyStack => "the call stack is empty"@,
        }
    }
}

} // verus!
