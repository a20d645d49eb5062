//! Identifiers of users and organisations.

use vstd::prelude::*;

verus! {

/// Identifies a user. The value is established by the authentication layer and
/// is never inspected here.
#[derive(Clone, Copy, PartialEq, Eq, Structural, Debug, Hash)]
pub struct UserId(pub i32);

/// Identifies an organisation (a tenant). The database generates the value
/// when the organisation row is inserted.
#[derive(Clone, Copy, PartialEq, Eq, Structural, Debug, Hash)]
pub struct OrganisationId(pub i32);

} // verus!
