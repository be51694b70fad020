use vstd::prelude::*;

verus! {

/// An id that does not resolve to a stored record.
#[derive(Clone, Copy, Debug, PartialEq, Eq, Structural)]
pub struct NotFoundError;

/// Authentication failures, reported to the caller.
#[derive(Clone, Copy, Debug, PartialEq, Eq, Structural)]
pub enum AuthError {
    /// No supplier is registered under the given email.
    NotFound,
    /// The password does not match the stored credential digest.
    BadCredential,
    /// The credentials are valid but the account still awaits approval.
    PendingApproval,
}

/// Why a registration was refused.
#[derive(Clone, Copy, Debug, PartialEq, Eq, Structural)]
pub enum RegisterError {
    /// The email is already registered to another supplier.
    Conflict,
    /// The credential-hashing collaborator failed; nothing was stored.
    Hashing,
}

/// Why a winner selection was refused.
#[derive(Clone, Copy, Debug, PartialEq, Eq, Structural)]
pub enum SelectWinnerError {
    /// The offer id does not resolve.
    NotFound,
    /// Another offer of the same request already holds the winning status.
    Conflict,
}

} // verus!
