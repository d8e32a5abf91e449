//! Cost-ledger errors.
use vstd::prelude::*;

verus! {

/// Why a ledger write failed.
#[derive(Debug)]
pub enum LedgerError {
    Backend(String),
}

impl LedgerError {
    /// The error's message, as its `Display` reads.
    pub fn message(&self) -> (r: String)
        ensures
            r@ == (match self {
                LedgerError::Backend(s) => "ledger backend error: "@ + s@,
            }),
    {
        proof {
            reveal_strlit("ledger backend error: ");
        }
        match self {
            LedgerError::Backend(s) => String::from_str("ledger backend error: ").concat(s.as_str()),
        }
    }
}

} // verus!
