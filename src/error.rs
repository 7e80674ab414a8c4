use vstd::prelude::*;

verus! {

/// Why a call of the handler was refused.
#[derive(Debug, Clone, Copy, PartialEq, Eq, Structural)]
pub enum BalanceError {
    /// The sequence of account references was empty.
    MissingAccount,
    /// The target account is not owned by the calling program.
    Unauthorized,
    /// The account data is not a 4-byte little-endian `u32`.
    MalformedRecord,
    /// The updated record could not be written back into the account data.
    EncodingFailure,
}

} // verus!
