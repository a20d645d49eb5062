//! The provisioning flow as a state machine.
//!
//! A call starts at [`Stage::Start`]. In every state one statement is
//! outstanding ([`Provisioning::pending`]); the driver issues it against the
//! database and hands what came back, as a [`Reply`], to
//! [`Provisioning::step`]. The call is over when the state is finished; the
//! outstanding action is then [`Action::Finish`], on which the driver lets go
//! of the connection, and with it of a transaction that was not committed.
//!
//! ```text
//! Start -> Connected -> InTransaction -> ContextBound -+-> AlreadyPrimary
//!                                                      |
//!                                                      +-> LookedUp -> OrganisationInserted -+-> MembershipInserted -> Provisioned
//!                                                                                            |
//!                                                                                            +-> Contended -> AlreadyPrimary
//! ```
//!
//! Every state but the finished ones also leads to `Failed`.

use vstd::prelude::*;
use crate::error::{ErrorKind, ProvisioningFailed};
use crate::identity::{OrganisationId, UserId};
use crate::roles::RoleSet;

verus! {

/// How far a call has come.
#[derive(Clone, Copy, PartialEq, Eq, Structural, Debug, Hash)]
pub enum Stage {
    /// Nothing is held yet.
    Start,
    /// A connection is held.
    Connected,
    /// A transaction is open; no security context is bound to it.
    InTransaction,
    /// The transaction is scoped to the user's security principal.
    ContextBound,
    /// The lookup found no primary organisation for the user.
    LookedUp,
    /// The organisation row is inserted in the transaction.
    OrganisationInserted(OrganisationId),
    /// The membership row is inserted too; nothing is committed.
    MembershipInserted(OrganisationId),
    /// The membership insert met a primary organisation that another
    /// transaction had committed for the same user.
    Contended,
    /// Finished: the user had a primary organisation, and nothing was written.
    AlreadyPrimary(OrganisationId),
    /// Finished: the organisation and the membership were committed.
    Provisioned(OrganisationId),
    /// Finished: the call failed, and nothing was committed.
    Failed(ErrorKind),
}

/// The state of one provisioning call.
#[derive(Clone, Copy, PartialEq, Eq, Structural, Debug, Hash)]
pub struct Provisioning {
    pub user: UserId,
    pub stage: Stage,
}

/// What the driver is to do next.
#[derive(Clone, Copy, PartialEq, Eq, Structural, Debug, Hash)]
pub enum Action {
    /// Take a connection from the pool.
    AcquireConnection,
    /// Open a transaction on the connection.
    BeginTransaction,
    /// Scope the transaction to the security principal of `user`.
    BindSecurityContext { user: UserId },
    /// Read the primary organisations of `user`.
    FindPrimary { user: UserId },
    /// Insert a new organisation row and report the id that it was given.
    InsertOrganisation,
    /// Insert the membership row that links `user` to `organisation`.
    InsertMembership { user: UserId, organisation: OrganisationId, roles: RoleSet },
    /// Commit the transaction.
    Commit,
    /// Let go of the connection. A transaction that is still open on it is
    /// rolled back.
    Finish,
}

/// What came back from the database for the outstanding action.
#[derive(Clone, Copy, PartialEq, Eq, Structural, Debug, Hash)]
pub enum Reply {
    /// The statement succeeded and returned nothing.
    Done,
    /// The lookup returned no row.
    NoRow,
    /// The lookup returned exactly one row, with this organisation.
    Row(OrganisationId),
    /// The lookup returned more than one row.
    ManyRows,
    /// The organisation insert succeeded and generated this id.
    Inserted(OrganisationId),
    /// The insert was refused because the user already has a primary
    /// organisation.
    Duplicate,
    /// The statement failed in any other way.
    Failed,
}

impl Reply {
    /// The reply that stands for the rows of a lookup.
    pub open spec fn of_rows(rows: Seq<OrganisationId>) -> Reply {
        if rows.len() == 0 {
            Reply::NoRow
        } else if rows.len() == 1 {
            Reply::Row(rows[0])
        } else {
            Reply::ManyRows
        }
    }

    /// Turns the rows that a lookup returned into a reply: none, the single
    /// one, or too many. No row is ever picked out of several.
    pub fn from_rows(rows: &[OrganisationId]) -> (reply: Reply)
        ensures
            reply == Reply::of_rows(rows@),
    {
        if rows.len() == 0 {
            Reply::NoRow
        } else if rows.len() == 1 {
            Reply::Row(rows[0])
        } else {
            Reply::ManyRows
        }
    }
}

impl Action {
    /// Whether the action reads or writes rows.
    pub open spec fn is_data_access(self) -> bool {
        self is FindPrimary || self.is_write()
    }

    /// Whether the action writes: an insert, or the commit that makes the
    /// inserts visible.
    pub open spec fn is_write(self) -> bool {
        self is InsertOrganisation || self is InsertMembership || self is Commit
    }
}

impl Stage {
    /// Whether the call is over.
    pub open spec fn finished(self) -> bool {
        self is AlreadyPrimary || self is Provisioned || self is Failed
    }

    /// The stages of a call that has issued no insert.
    pub open spec fn read_only(self) -> bool {
        ||| self is Start
        ||| self is Connected
        ||| self is InTransaction
        ||| self is ContextBound
        ||| self is AlreadyPrimary
        ||| self is Failed
    }

    /// The stage that follows when `reply` answers the outstanding action.
    ///
    /// A reply that is not a success of the outstanding action counts as its
    /// failure. The one failure that is not final is a duplicate at the
    /// membership insert: the lookup is then made once more, and whatever it
    /// gives but a single row makes the duplicate final.
    pub open spec fn after(self, reply: Reply) -> Stage {
        match self {
            Stage::Start => match reply {
                Reply::Done => Stage::Connected,
                _ => Stage::Failed(ErrorKind::Connection),
            },
            Stage::Connected => match reply {
                Reply::Done => Stage::InTransaction,
                _ => Stage::Failed(ErrorKind::Transaction),
            },
            Stage::InTransaction => match reply {
                Reply::Done => Stage::ContextBound,
                _ => Stage::Failed(ErrorKind::SecurityBind),
            },
            Stage::ContextBound => match reply {
                Reply::Row(organisation) => Stage::AlreadyPrimary(organisation),
                Reply::NoRow => Stage::LookedUp,
                _ => Stage::Failed(ErrorKind::Lookup),
            },
            Stage::LookedUp => match reply {
                Reply::Inserted(organisation) => Stage::OrganisationInserted(organisation),
                _ => Stage::Failed(ErrorKind::InsertOrganisation),
            },
            Stage::OrganisationInserted(organisation) => match reply {
                Reply::Done => Stage::MembershipInserted(organisation),
                Reply::Duplicate => Stage::Contended,
                _ => Stage::Failed(ErrorKind::InsertMembership),
            },
            Stage::MembershipInserted(organisation) => match reply {
                Reply::Done => Stage::Provisioned(organisation),
                _ => Stage::Failed(ErrorKind::Commit),
            },
            Stage::Contended => match reply {
                Reply::Row(organisation) => Stage::AlreadyPrimary(organisation),
                _ => Stage::Failed(ErrorKind::DuplicatePrimary),
            },
            Stage::AlreadyPrimary(_) | Stage::Provisioned(_) | Stage::Failed(_) => self,
        }
    }
}

impl Provisioning {
    /// The state in which a call for `user` starts.
    pub open spec fn initial(user: UserId) -> Provisioning {
        Provisioning { user, stage: Stage::Start }
    }

    /// The action that is outstanding in this state.
    pub open spec fn pending(self) -> Action {
        match self.stage {
            Stage::Start => Action::AcquireConnection,
            Stage::Connected => Action::BeginTransaction,
            Stage::InTransaction => Action::BindSecurityContext { user: self.user },
            Stage::ContextBound => Action::FindPrimary { user: self.user },
            Stage::LookedUp => Action::InsertOrganisation,
            Stage::OrganisationInserted(organisation) => Action::InsertMembership {
                user: self.user,
                organisation,
                roles: RoleSet::spec_initial(),
            },
            Stage::MembershipInserted(_) => Action::Commit,
            Stage::Contended => Action::FindPrimary { user: self.user },
            Stage::AlreadyPrimary(_) | Stage::Provisioned(_) | Stage::Failed(_) => Action::Finish,
        }
    }

    /// The state that follows when `reply` answers the outstanding action.
    pub open spec fn next(self, reply: Reply) -> Provisioning {
        Provisioning { user: self.user, stage: self.stage.after(reply) }
    }

    /// Whether the call is over.
    pub open spec fn finished(self) -> bool {
        self.stage.finished()
    }

    /// What the call returns: the primary organisation of the user, or the
    /// failure; nothing while the call is under way.
    pub open spec fn result(self) -> Option<Result<OrganisationId, ProvisioningFailed>> {
        match self.stage {
            Stage::AlreadyPrimary(organisation) => Some(Ok(organisation)),
            Stage::Provisioned(organisation) => Some(Ok(organisation)),
            Stage::Failed(kind) => Some(Err(ProvisioningFailed { kind })),
            _ => None,
        }
    }

    /// Starts a call for `user` and says what to do first.
    pub fn start(user: UserId) -> (begun: (Provisioning, Action))
        ensures
            begun.0 == Provisioning::initial(user),
            begun.1 == begun.0.pending(),
    {
        (Provisioning { user, stage: Stage::Start }, Action::AcquireConnection)
    }

    /// The action that is outstanding.
    pub fn action(&self) -> (action: Action)
        ensures
            action == self.pending(),
    {
        match self.stage {
            Stage::Start => Action::AcquireConnection,
            Stage::Connected => Action::BeginTransaction,
            Stage::InTransaction => Action::BindSecurityContext { user: self.user },
            Stage::ContextBound | Stage::Contended => Action::FindPrimary { user: self.user },
            Stage::LookedUp => Action::InsertOrganisation,
            Stage::OrganisationInserted(organisation) => Action::InsertMembership {
                user: self.user,
                organisation,
                roles: RoleSet::initial(),
            },
            Stage::MembershipInserted(_) => Action::Commit,
            Stage::AlreadyPrimary(_) | Stage::Provisioned(_) | Stage::Failed(_) => Action::Finish,
        }
    }

    /// Takes the reply to the outstanding action and says what to do next.
    pub fn step(self, reply: Reply) -> (stepped: (Provisioning, Action))
        ensures
            stepped.0 == self.next(reply),
            stepped.1 == stepped.0.pending(),
    {
        let stage = match self.stage {
            Stage::Start => connected(reply),
            Stage::Connected => opened(reply),
            Stage::InTransaction => bound(reply),
            Stage::ContextBound => looked_up(reply),
            Stage::LookedUp => organisation_inserted(reply),
            Stage::OrganisationInserted(organisation) => membership_inserted(organisation, reply),
            Stage::MembershipInserted(organisation) => committed(organisation, reply),
            Stage::Contended => looked_up_again(reply),
            Stage::AlreadyPrimary(_) | Stage::Provisioned(_) | Stage::Failed(_) => self.stage,
        };
        let next = Provisioning { user: self.user, stage };
        let action = next.action();
        (next, action)
    }

    /// Whether the call is over.
    pub fn is_finished(&self) -> (over: bool)
        ensures
            over == self.finished(),
            over == self.result().is_some(),
            over == (self.pending() == Action::Finish),
    {
        match self.stage {
            Stage::AlreadyPrimary(_) | Stage::Provisioned(_) | Stage::Failed(_) => true,
            _ => false,
        }
    }

    /// What the call returns, once it is over.
    pub fn outcome(&self) -> (outcome: Option<Result<OrganisationId, ProvisioningFailed>>)
        ensures
            outcome == self.result(),
    {
        match self.stage {
            Stage::AlreadyPrimary(organisation) => Some(Ok(organisation)),
            Stage::Provisioned(organisation) => Some(Ok(organisation)),
            Stage::Failed(kind) => Some(Err(ProvisioningFailed { kind })),
            _ => None,
        }
    }
}

/// After the pool was asked for a connection.
fn connected(reply: Reply) -> (stage: Stage)
    ensures
        stage == Stage::Start.after(reply),
{
    match reply {
        Reply::Done => Stage::Connected,
        _ => Stage::Failed(ErrorKind::Connection),
    }
}

/// After the transaction was asked for.
fn opened(reply: Reply) -> (stage: Stage)
    ensures
        stage == Stage::Connected.after(reply),
{
    match reply {
        Reply::Done => Stage::InTransaction,
        _ => Stage::Failed(ErrorKind::Transaction),
    }
}

/// After the security context was bound: no statement follows a bind that
/// failed.
fn bound(reply: Reply) -> (stage: Stage)
    ensures
        stage == Stage::InTransaction.after(reply),
        reply != Reply::Done ==> stage == Stage::Failed(ErrorKind::SecurityBind),
{
    match reply {
        Reply::Done => Stage::ContextBound,
        _ => Stage::Failed(ErrorKind::SecurityBind),
    }
}

/// After the lookup: a single row ends the call, no row leads on to
/// provisioning, and anything else is a failure of the lookup.
fn looked_up(reply: Reply) -> (stage: Stage)
    ensures
        stage == Stage::ContextBound.after(reply),
{
    match reply {
        Reply::Row(organisation) => Stage::AlreadyPrimary(organisation),
        Reply::NoRow => Stage::LookedUp,
        _ => Stage::Failed(ErrorKind::Lookup),
    }
}

/// After the organisation insert.
fn organisation_inserted(reply: Reply) -> (stage: Stage)
    ensures
        stage == Stage::LookedUp.after(reply),
{
    match reply {
        Reply::Inserted(organisation) => Stage::OrganisationInserted(organisation),
        _ => Stage::Failed(ErrorKind::InsertOrganisation),
    }
}

/// After the membership insert: a duplicate leads to the second lookup.
fn membership_inserted(organisation: OrganisationId, reply: Reply) -> (stage: Stage)
    ensures
        stage == Stage::OrganisationInserted(organisation).after(reply),
{
    match reply {
        Reply::Done => Stage::MembershipInserted(organisation),
        Reply::Duplicate => Stage::Contended,
        _ => Stage::Failed(ErrorKind::InsertMembership),
    }
}

/// After the commit.
fn committed(organisation: OrganisationId, reply: Reply) -> (stage: Stage)
    ensures
        stage == Stage::MembershipInserted(organisation).after(reply),
{
    match reply {
        Reply::Done => Stage::Provisioned(organisation),
        _ => Stage::Failed(ErrorKind::Commit),
    }
}

/// After the second lookup, which is the last: there is no third.
fn looked_up_again(reply: Reply) -> (stage: Stage)
    ensures
        stage == Stage::Contended.after(reply),
        stage.finished(),
{
    match reply {
        Reply::Row(organisation) => Stage::AlreadyPrimary(organisation),
        _ => Stage::Failed(ErrorKind::DuplicatePrimary),
    }
}

} // verus!
