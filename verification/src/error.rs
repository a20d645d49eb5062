//! The ways in which a provisioning call can fail.

use vstd::prelude::*;

verus! {

/// What went wrong, for diagnostics.
#[derive(Clone, Copy, PartialEq, Eq, Structural, Debug, Hash)]
pub enum ErrorKind {
    /// No connection could be had from the pool.
    Connection,
    /// No transaction could be opened on the connection.
    Transaction,
    /// The security context could not be bound to the transaction.
    SecurityBind,
    /// The lookup of the primary organisation failed, or gave more than one row.
    Lookup,
    /// The organisation row could not be inserted.
    InsertOrganisation,
    /// The membership row could not be inserted.
    InsertMembership,
    /// Another transaction provisioned the same user first, and the primary
    /// organisation it created could not be read back.
    DuplicatePrimary,
    /// The transaction could not be committed.
    Commit,
}

/// The one failure that a caller sees. It is opaque but for the kind, which is
/// meant for logs.
#[derive(Clone, Copy, PartialEq, Eq, Structural, Debug, Hash)]
pub struct ProvisioningFailed {
    pub kind: ErrorKind,
}

} // verus!
