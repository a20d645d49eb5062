//! What holds of a call whatever the database replies.
//!
//! A call is followed here from its start through any sequence of replies.
//! The laws of this module hold for every such sequence: they rest on the
//! state machine alone, not on how a database behaves.

use vstd::prelude::*;
use crate::error::{ErrorKind, ProvisioningFailed};
use crate::identity::{OrganisationId, UserId};
use crate::protocol::{Action, Provisioning, Reply, Stage};
use crate::roles::{Role, RoleSet};

verus! {

/// The state of a call for `user` after the driver has handed in `replies`,
/// one after the other.
pub open spec fn state_after(user: UserId, replies: Seq<Reply>) -> Provisioning
    decreases replies.len(),
{
    if replies.len() == 0 {
        Provisioning::initial(user)
    } else {
        state_after(user, replies.drop_last()).next(replies.last())
    }
}

/// The action that the call issues after the first `k` of `replies`.
pub open spec fn issued(user: UserId, replies: Seq<Reply>, k: int) -> Action {
    state_after(user, replies.take(k)).pending()
}

/// The first three replies say that a connection was had, a transaction
/// opened, and the security context bound.
pub open spec fn bound(replies: Seq<Reply>) -> bool {
    &&& replies.len() >= 3
    &&& replies[0] == Reply::Done
    &&& replies[1] == Reply::Done
    &&& replies[2] == Reply::Done
}

/// The first lookup found nothing, and an organisation row was inserted.
pub open spec fn organisation_inserted(replies: Seq<Reply>) -> bool {
    &&& replies.len() >= 5
    &&& bound(replies)
    &&& replies[3] == Reply::NoRow
    &&& replies[4] is Inserted
}

/// The stage that a call is in, said over the replies that it was given.
///
/// For any sequence of replies exactly one stage is explained, so this says
/// for each outcome on which replies it comes.
pub open spec fn explains(replies: Seq<Reply>, stage: Stage) -> bool {
    let n = replies.len();
    match stage {
        Stage::Start => n == 0,
        Stage::Connected => n == 1 && replies[0] == Reply::Done,
        Stage::InTransaction => n == 2 && replies[0] == Reply::Done && replies[1] == Reply::Done,
        Stage::ContextBound => n == 3 && bound(replies),
        Stage::LookedUp => n == 4 && bound(replies) && replies[3] == Reply::NoRow,
        Stage::OrganisationInserted(organisation) => {
            &&& n == 5
            &&& organisation_inserted(replies)
            &&& replies[4] == Reply::Inserted(organisation)
        },
        Stage::MembershipInserted(organisation) => {
            &&& n == 6
            &&& organisation_inserted(replies)
            &&& replies[4] == Reply::Inserted(organisation)
            &&& replies[5] == Reply::Done
        },
        Stage::Contended => {
            &&& n == 6
            &&& organisation_inserted(replies)
            &&& replies[5] == Reply::Duplicate
        },
        Stage::Provisioned(organisation) => {
            &&& n >= 7
            &&& organisation_inserted(replies)
            &&& replies[4] == Reply::Inserted(organisation)
            &&& replies[5] == Reply::Done
            &&& replies[6] == Reply::Done
        },
        Stage::AlreadyPrimary(organisation) => {
            ||| n >= 4 && bound(replies) && replies[3] == Reply::Row(organisation)
            ||| {
                &&& n >= 7
                &&& organisation_inserted(replies)
                &&& replies[5] == Reply::Duplicate
                &&& replies[6] == Reply::Row(organisation)
            }
        },
        Stage::Failed(kind) => match kind {
            ErrorKind::Connection => n >= 1 && replies[0] != Reply::Done,
            ErrorKind::Transaction => {
                n >= 2 && replies[0] == Reply::Done && replies[1] != Reply::Done
            },
            ErrorKind::SecurityBind => {
                &&& n >= 3
                &&& replies[0] == Reply::Done
                &&& replies[1] == Reply::Done
                &&& replies[2] != Reply::Done
            },
            ErrorKind::Lookup => {
                &&& n >= 4
                &&& bound(replies)
                &&& replies[3] != Reply::NoRow
                &&& !(replies[3] is Row)
            },
            ErrorKind::InsertOrganisation => {
                &&& n >= 5
                &&& bound(replies)
                &&& replies[3] == Reply::NoRow
                &&& !(replies[4] is Inserted)
            },
            ErrorKind::InsertMembership => {
                &&& n >= 6
                &&& organisation_inserted(replies)
                &&& replies[5] != Reply::Done
                &&& replies[5] != Reply::Duplicate
            },
            ErrorKind::Commit => {
                &&& n >= 7
                &&& organisation_inserted(replies)
                &&& replies[5] == Reply::Done
                &&& replies[6] != Reply::Done
            },
            ErrorKind::DuplicatePrimary => {
                &&& n >= 7
                &&& organisation_inserted(replies)
                &&& replies[5] == Reply::Duplicate
                &&& !(replies[6] is Row)
            },
        },
    }
}

/// The stage of a call is the one that its replies explain, and no other
/// stage is explained by them.
pub proof fn law_stage_is_explained(user: UserId, replies: Seq<Reply>)
    ensures
        state_after(user, replies).user == user,
        explains(replies, state_after(user, replies).stage),
        forall|stage: Stage| #[trigger]
            explains(replies, stage) ==> stage == state_after(user, replies).stage,
    decreases replies.len(),
{
    if replies.len() > 0 {
        let before = replies.drop_last();
        law_stage_is_explained(user, before);
        assert(forall|i: int| 0 <= i < before.len() ==> before[i] == replies[i]);
        assert(explains(before, state_after(user, before).stage));
    }
}

/// The action that is issued after `k` replies rests on those `k` alone.
proof fn lemma_issued_stage(user: UserId, replies: Seq<Reply>, k: int)
    requires
        0 <= k <= replies.len(),
    ensures
        explains(replies.take(k), state_after(user, replies.take(k)).stage),
        state_after(user, replies.take(k)).user == user,
        replies.take(k).len() == k,
        forall|i: int| 0 <= i < k ==> replies.take(k)[i] == replies[i],
{
    law_stage_is_explained(user, replies.take(k));
}

/// A call is over after seven replies at the latest, and its outcome does not
/// change after that: there is no loop in the flow, and the lookup is made
/// at most twice.
pub proof fn law_call_ends(user: UserId, replies: Seq<Reply>, k: int)
    requires
        0 <= k <= replies.len(),
    ensures
        k >= 7 ==> state_after(user, replies.take(k)).finished(),
        state_after(user, replies.take(k)).finished() ==> state_after(user, replies)
            == state_after(user, replies.take(k)),
        issued(user, replies, k) is FindPrimary ==> k == 3 || (k == 6 && replies[5]
            == Reply::Duplicate),
{
    lemma_issued_stage(user, replies, k);
    law_stage_is_explained(user, replies);
}

/// No row is read or written before the security context is bound: a
/// statement that touches rows is issued only after the bind, which is the
/// third action of the call, has succeeded.
pub proof fn law_bind_precedes_data_access(user: UserId, replies: Seq<Reply>, k: int)
    requires
        0 <= k <= replies.len(),
        issued(user, replies, k).is_data_access(),
    ensures
        2 < k,
        issued(user, replies, 2) == (Action::BindSecurityContext { user }),
        replies[2] == Reply::Done,
{
    lemma_issued_stage(user, replies, k);
    lemma_issued_stage(user, replies, 2);
}

/// After a bind that failed the call is over with that failure, and it issues
/// no statement that touches rows, neither before nor after.
pub proof fn law_failed_bind_stops_call(user: UserId, replies: Seq<Reply>, j: int, k: int)
    requires
        0 <= j < replies.len(),
        0 <= k <= replies.len(),
        issued(user, replies, j) is BindSecurityContext,
        replies[j] != Reply::Done,
    ensures
        !issued(user, replies, k).is_data_access(),
        j < k ==> issued(user, replies, k) == Action::Finish,
        state_after(user, replies).stage == Stage::Failed(ErrorKind::SecurityBind),
{
    lemma_issued_stage(user, replies, j);
    lemma_issued_stage(user, replies, k);
    law_stage_is_explained(user, replies);
}

/// Nothing is written for a user whose primary organisation the lookup found:
/// an insert or a commit is issued only after the first lookup returned no
/// row, and a lookup that returns a single row ends the call with that
/// organisation.
pub proof fn law_found_primary_is_read_only(user: UserId, replies: Seq<Reply>, k: int)
    requires
        0 <= k <= replies.len(),
    ensures
        issued(user, replies, k).is_write() ==> 3 < k && bound(replies) && replies[3]
            == Reply::NoRow,
        forall|organisation: OrganisationId|
            bound(replies) && replies.len() >= 4 && replies[3] == Reply::Row(organisation)
                ==> state_after(user, replies).stage == Stage::AlreadyPrimary(organisation),
{
    lemma_issued_stage(user, replies, k);
    law_stage_is_explained(user, replies);
}

/// The commit is issued only when both inserts have succeeded: a call whose
/// membership insert fails never commits the organisation that it inserted.
pub proof fn law_commit_follows_both_inserts(user: UserId, replies: Seq<Reply>, k: int)
    requires
        0 <= k <= replies.len(),
        issued(user, replies, k) == Action::Commit,
    ensures
        k == 6,
        issued(user, replies, 4) == Action::InsertOrganisation,
        replies[4] is Inserted,
        issued(user, replies, 5) == (Action::InsertMembership {
            user,
            organisation: replies[4]->Inserted_0,
            roles: RoleSet::spec_initial(),
        }),
        replies[5] == Reply::Done,
{
    lemma_issued_stage(user, replies, k);
    lemma_issued_stage(user, replies, 4);
    lemma_issued_stage(user, replies, 5);
}

/// The membership that a call inserts links the user of the call to the
/// organisation that the call has just inserted, with exactly the roles
/// administrator, negotiator and collaborator.
pub proof fn law_membership_is_the_default(user: UserId, replies: Seq<Reply>, k: int)
    requires
        0 <= k <= replies.len(),
        issued(user, replies, k) is InsertMembership,
    ensures
        k == 5,
        issued(user, replies, k)->InsertMembership_user == user,
        replies[4] == Reply::Inserted(issued(user, replies, k)->InsertMembership_organisation),
        issued(user, replies, k)->InsertMembership_roles@ == set![
            Role::Administrator,
            Role::Negotiator,
            Role::Collaborator,
        ],
{
    lemma_issued_stage(user, replies, k);
    assert(RoleSet::spec_initial()@ =~= set![
        Role::Administrator,
        Role::Negotiator,
        Role::Collaborator,
    ]);
}

/// A call returns an organisation in two cases only: a lookup returned it as
/// the single row, or the call inserted it with its membership and committed.
pub proof fn law_success(user: UserId, replies: Seq<Reply>, organisation: OrganisationId)
    requires
        state_after(user, replies).result() == Some(
            Ok::<OrganisationId, ProvisioningFailed>(organisation),
        ),
    ensures
        explains(replies, Stage::AlreadyPrimary(organisation)) || explains(
            replies,
            Stage::Provisioned(organisation),
        ),
{
    law_stage_is_explained(user, replies);
}

} // verus!
