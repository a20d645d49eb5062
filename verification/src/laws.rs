//! What the provisioning flow guarantees.
//!
//! Each law speaks of the world that any steps lead to from committed rows
//! that meet the constraints of the database: any number of calls, for any
//! users, started at any time and interleaved in any way, with statements
//! that fail whenever chance has it so.

use vstd::prelude::*;
use crate::consistency::{
    in_step, lemma_always_consistent, lemma_session_step, provisioned_by_call,
};
use crate::database::{Chance, Database, Membership};
use crate::error::ProvisioningFailed;
use crate::identity::{OrganisationId, UserId};
use crate::protocol::{Action, Provisioning, Stage};
use crate::roles::{Role, RoleSet};
use crate::world::{reached, Step, World};

verus! {

/// Whether the call `session` of `world` was made for `user` and has returned
/// `organisation`.
pub open spec fn returned(
    world: World,
    session: int,
    user: UserId,
    organisation: OrganisationId,
) -> bool {
    &&& world.has(session)
    &&& world.sessions[session].call.user == user
    &&& world.sessions[session].call.result() == Some(
        Ok::<OrganisationId, ProvisioningFailed>(organisation),
    )
}

/// Whether the call `session` of `world` was made for `user`.
pub open spec fn called_for(world: World, session: int, user: UserId) -> bool {
    world.has(session) && world.sessions[session].call.user == user
}

/// The constraints of the database hold at all times, and no row that was
/// there at the start is ever removed or changed.
pub proof fn law_rows_are_kept(origin: Database, steps: Seq<Step>)
    requires
        origin.valid(),
    ensures
        reached(origin, steps).database.valid(),
        origin.within(reached(origin, steps).database),
{
    lemma_always_consistent(origin, steps);
}

/// A call never returns an organisation that the rows do not bear out: the
/// organisation exists, the user has a membership in it, and that membership
/// is the only row of the user. Where the user had no membership at the
/// start, the organisation is a new one and the membership carries the
/// initial roles.
pub proof fn law_returned_is_primary(
    origin: Database,
    steps: Seq<Step>,
    session: int,
    user: UserId,
    organisation: OrganisationId,
) -> (row: Membership)
    requires
        origin.valid(),
        returned(reached(origin, steps), session, user, organisation),
    ensures
        row.user == user,
        row.organisation == organisation,
        reached(origin, steps).database.organisations.contains(organisation),
        reached(origin, steps).database.rows_of(user) == set![row],
        !origin.is_member(user) ==> row == Membership::initial(user, organisation)
            && !origin.organisations.contains(organisation),
{
    lemma_always_consistent(origin, steps);
    let world = reached(origin, steps);
    assert(in_step(origin, world.database, world.sessions[session]));
    let row = choose|row: Membership| #[trigger]
        world.database.memberships.contains(row) && row.user == user && row.organisation
            == organisation;
    if world.sessions[session].call.stage is Provisioned {
        assert(world.database.memberships.contains(Membership::initial(user, organisation)));
    }
    assert(world.database.memberships.contains(row));
    assert(world.database.rows_of(user) =~= set![row]);
    row
}

/// Calls for one user agree: however many are made and however they
/// interleave, those that return an organisation all return the same.
pub proof fn law_calls_agree(
    origin: Database,
    steps: Seq<Step>,
    user: UserId,
    one: int,
    other: int,
    first: OrganisationId,
    second: OrganisationId,
)
    requires
        origin.valid(),
        returned(reached(origin, steps), one, user, first),
        returned(reached(origin, steps), other, user, second),
    ensures
        first == second,
{
    let a = law_returned_is_primary(origin, steps, one, user, first);
    let b = law_returned_is_primary(origin, steps, other, user, second);
    assert(set![a].contains(b));
}

/// Of the calls for one user at most one provisions: any other call that
/// returns an organisation returns the same, and has found it by a lookup,
/// the first or the one that follows a duplicate.
pub proof fn law_one_call_provisions(
    origin: Database,
    steps: Seq<Step>,
    user: UserId,
    one: int,
    other: int,
)
    requires
        origin.valid(),
        one != other,
        called_for(reached(origin, steps), one, user),
        called_for(reached(origin, steps), other, user),
        reached(origin, steps).sessions[one].call.stage is Provisioned,
    ensures
        !(reached(origin, steps).sessions[other].call.stage is Provisioned),
        forall|organisation: OrganisationId|
            returned(reached(origin, steps), other, user, organisation) ==> reached(
                origin,
                steps,
            ).sessions[other].call.stage == Stage::AlreadyPrimary(organisation) && reached(
                origin,
                steps,
            ).sessions[one].call.stage == Stage::Provisioned(organisation),
{
    lemma_always_consistent(origin, steps);
    let world = reached(origin, steps);
    let mine = world.sessions[one].call.stage->Provisioned_0;
    assert(in_step(origin, world.database, world.sessions[one]));
    assert(in_step(origin, world.database, world.sessions[other]));
    assert(world.database.memberships.contains(Membership::initial(user, mine)));
    if world.sessions[other].call.stage is Provisioned {
        let theirs = world.sessions[other].call.stage->Provisioned_0;
        assert(world.database.memberships.contains(Membership::initial(user, theirs)));
        assert(world.sessions[one].call.stage != world.sessions[other].call.stage);
    }
    assert forall|organisation: OrganisationId|
        returned(world, other, user, organisation) implies world.sessions[other].call.stage
        == Stage::AlreadyPrimary(organisation) && world.sessions[one].call.stage
        == Stage::Provisioned(organisation) by {
        assert(returned(world, one, user, mine));
        law_calls_agree(origin, steps, user, one, other, mine, organisation);
    }
}

/// For a user who has a primary organisation from the start, a call issues
/// no insert and no commit at any time, returns that organisation if it
/// returns one, and the membership of the user stays the only row of the user.
pub proof fn law_existing_primary_is_kept(
    origin: Database,
    steps: Seq<Step>,
    session: int,
    existing: Membership,
)
    requires
        origin.valid(),
        origin.memberships.contains(existing),
        called_for(reached(origin, steps), session, existing.user),
    ensures
        !reached(origin, steps).sessions[session].call.pending().is_write(),
        reached(origin, steps).sessions[session].call.stage.read_only(),
        forall|organisation: OrganisationId|
            returned(reached(origin, steps), session, existing.user, organisation)
                ==> organisation == existing.organisation,
        reached(origin, steps).database.rows_of(existing.user) == set![existing],
{
    lemma_always_consistent(origin, steps);
    let world = reached(origin, steps);
    assert(in_step(origin, world.database, world.sessions[session]));
    assert(origin.is_member(existing.user));
    assert(world.database.memberships.contains(existing));
    assert(world.database.rows_of(existing.user) =~= set![existing]);
    assert forall|organisation: OrganisationId|
        returned(world, session, existing.user, organisation) implies organisation
        == existing.organisation by {
        let row = law_returned_is_primary(origin, steps, session, existing.user, organisation);
        assert(set![existing].contains(row));
    }
}

/// An organisation and its membership become visible together or not at
/// all. A step changes the committed rows only if it is the commit that ends
/// a call as provisioned, and it then adds the organisation of that call and
/// the membership of its user there, and nothing else. So a call that fails
/// after it has inserted the organisation leaves no row behind. No step of
/// one call touches another call or what that call holds.
pub proof fn law_rows_appear_together(origin: Database, steps: Seq<Step>, step: Step)
    requires
        origin.valid(),
    ensures
        ({
            let before = reached(origin, steps);
            let after = before.advance(step);
            &&& forall|other: int|
                before.has(other) && !(step is Advance && step->session == other)
                    ==> #[trigger] after.sessions[other] == before.sessions[other]
            &&& {
                ||| after.database == before.database
                ||| {
                    &&& step is Advance
                    &&& before.has(step->session)
                    &&& before.sessions[step->session].call.pending() == Action::Commit
                    &&& after.sessions[step->session].call.stage is Provisioned
                    &&& {
                        let call = after.sessions[step->session].call;
                        let organisation = call.stage->Provisioned_0;
                        &&& !before.database.organisations.contains(organisation)
                        &&& !before.database.is_member(call.user)
                        &&& after.database.organisations
                            == before.database.organisations.insert(organisation)
                        &&& after.database.memberships == before.database.memberships.insert(
                            Membership::initial(call.user, organisation),
                        )
                    }
                }
            }
        }),
{
    lemma_always_consistent(origin, steps);
    let before = reached(origin, steps);
    let after = before.advance(step);
    if step is Advance && before.has(step->session) {
        let session = step->session;
        lemma_session_step(origin, before.database, before.sessions[session], step->chance);
        if after.database != before.database {
            let call = after.sessions[session].call;
            let row = Membership::initial(call.user, call.stage->Provisioned_0);
            lemma_always_consistent(origin, steps.push(step));
            assert(steps.push(step).drop_last() =~= steps);
            assert(after.database.memberships.contains(row));
            if before.database.is_member(call.user) {
                let old = choose|old: Membership| #[trigger]
                    before.database.memberships.contains(old) && old.user == call.user;
                assert(after.database.memberships.contains(old));
                assert(before.database.organisations.contains(old.organisation));
            }
        }
    }
}

/// No organisation is left without a membership: every organisation that
/// the calls have added has exactly one membership row, which one of the
/// calls has provisioned for its user, and every membership row that the
/// calls have added belongs to such an organisation.
pub proof fn law_no_orphans(origin: Database, steps: Seq<Step>)
    requires
        origin.valid(),
    ensures
        ({
            let world = reached(origin, steps);
            &&& forall|organisation: OrganisationId| #[trigger]
                world.database.organisations.contains(organisation)
                    && !origin.organisations.contains(organisation) ==> exists|row: Membership|
                    {
                        &&& #[trigger] provisioned_by_call(world, row)
                        &&& row == Membership::initial(row.user, organisation)
                        &&& world.database.memberships.contains(row)
                        &&& forall|other: Membership| #[trigger]
                            world.database.memberships.contains(other) && other.organisation
                                == organisation ==> other == row
                    }
            &&& forall|row: Membership| #[trigger]
                world.database.memberships.contains(row) && !origin.memberships.contains(row)
                    ==> world.database.organisations.contains(row.organisation)
                    && !origin.organisations.contains(row.organisation)
        }),
{
    lemma_always_consistent(origin, steps);
    let world = reached(origin, steps);
    assert forall|organisation: OrganisationId| #[trigger]
        world.database.organisations.contains(organisation) && !origin.organisations.contains(
            organisation,
        ) implies exists|row: Membership|
        {
            &&& #[trigger] provisioned_by_call(world, row)
            &&& row == Membership::initial(row.user, organisation)
            &&& world.database.memberships.contains(row)
            &&& forall|other: Membership| #[trigger]
                world.database.memberships.contains(other) && other.organisation
                    == organisation ==> other == row
        } by {
        assert(world.database.is_joined(organisation));
        let row = choose|row: Membership| #[trigger]
            world.database.memberships.contains(row) && row.organisation == organisation;
        if origin.memberships.contains(row) {
            assert(origin.organisations.contains(row.organisation));
        }
        assert(provisioned_by_call(world, row));
    }
}

/// A freshly provisioned membership has exactly the roles administrator,
/// negotiator and collaborator: so has every membership row that the calls
/// have added, and the row of a call that ended as provisioned is among them.
pub proof fn law_provisioned_roles(origin: Database, steps: Seq<Step>)
    requires
        origin.valid(),
    ensures
        forall|row: Membership| #[trigger]
            reached(origin, steps).database.memberships.contains(row)
                && !origin.memberships.contains(row) ==> row.roles@ == set![
                Role::Administrator,
                Role::Negotiator,
                Role::Collaborator,
            ],
        forall|session: int|
            reached(origin, steps).has(session) && (#[trigger] reached(
                origin,
                steps,
            ).sessions[session]).call.stage is Provisioned ==> {
                let call = reached(origin, steps).sessions[session].call;
                let row = Membership {
                    user: call.user,
                    organisation: call.stage->Provisioned_0,
                    roles: RoleSet::spec_initial(),
                };
                reached(origin, steps).database.memberships.contains(row)
                    && !origin.memberships.contains(row)
            },
{
    lemma_always_consistent(origin, steps);
    let world = reached(origin, steps);
    assert(RoleSet::spec_initial()@ =~= set![
        Role::Administrator,
        Role::Negotiator,
        Role::Collaborator,
    ]);
    assert forall|session: int|
        world.has(session) && (#[trigger] world.sessions[session]).call.stage
            is Provisioned implies {
        let call = world.sessions[session].call;
        let row = Membership {
            user: call.user,
            organisation: call.stage->Provisioned_0,
            roles: RoleSet::spec_initial(),
        };
        world.database.memberships.contains(row) && !origin.memberships.contains(row)
    } by {
        assert(in_step(origin, world.database, world.sessions[session]));
        let call = world.sessions[session].call;
        let row = Membership::initial(call.user, call.stage->Provisioned_0);
        if origin.memberships.contains(row) {
            assert(origin.organisations.contains(row.organisation));
        }
    }
}

/// Every statement that touches rows runs in a transaction that is bound to
/// the security principal of the user of the call.
pub proof fn law_statements_are_scoped(origin: Database, steps: Seq<Step>, session: int)
    requires
        origin.valid(),
        reached(origin, steps).has(session),
        reached(origin, steps).sessions[session].call.pending().is_data_access(),
    ensures
        reached(origin, steps).sessions[session].connection is InTransaction,
        reached(origin, steps).sessions[session].connection->InTransaction_0.scoped_to(
            reached(origin, steps).sessions[session].call.user,
        ),
{
    lemma_always_consistent(origin, steps);
    let world = reached(origin, steps);
    assert(in_step(origin, world.database, world.sessions[session]));
}

/// A call that is over lets go of everything: with the step that follows,
/// its connection is back in the pool, the transaction that was open on it
/// is gone with the rows that it had not committed, and the committed rows
/// and the outcome of the call are what they were.
pub proof fn law_finished_call_releases(world: World, session: int, chance: Chance)
    requires
        world.has(session),
        world.sessions[session].call.finished(),
    ensures
        ({
            let after = world.advance(Step::Advance { session, chance });
            &&& after.sessions[session].connection is Released
            &&& after.sessions[session].call == world.sessions[session].call
            &&& after.database == world.database
        }),
{
}

/// Calling again changes nothing: when all calls are for one user who had no
/// membership at the start, and one of them has returned an organisation,
/// then the calls have added that organisation and the membership of the
/// user in it, and no other row, however many calls were made.
pub proof fn law_idempotent(
    origin: Database,
    steps: Seq<Step>,
    user: UserId,
    session: int,
    organisation: OrganisationId,
)
    requires
        origin.valid(),
        !origin.is_member(user),
        forall|i: int|
            reached(origin, steps).has(i) ==> (#[trigger] reached(
                origin,
                steps,
            ).sessions[i]).call.user == user,
        returned(reached(origin, steps), session, user, organisation),
    ensures
        !origin.organisations.contains(organisation),
        reached(origin, steps).database.organisations == origin.organisations.insert(
            organisation,
        ),
        reached(origin, steps).database.memberships == origin.memberships.insert(
            Membership::initial(user, organisation),
        ),
{
    lemma_always_consistent(origin, steps);
    let world = reached(origin, steps);
    let database = world.database;
    let mine = law_returned_is_primary(origin, steps, session, user, organisation);
    assert(set![mine].contains(mine));
    assert(database.rows_of(user).contains(mine));
    assert forall|row: Membership|
        database.memberships.contains(row) && !origin.memberships.contains(row) implies row
        == mine by {
        assert(provisioned_by_call(world, row));
        let i = choose|i: int|
            world.has(i) && (#[trigger] world.sessions[i]).call == (Provisioning {
                user: row.user,
                stage: Stage::Provisioned(row.organisation),
            });
        assert(row.user == user);
    }
    assert(database.memberships =~= origin.memberships.insert(mine));
    assert forall|other: OrganisationId|
        database.organisations.contains(other) && !origin.organisations.contains(
            other,
        ) implies other == organisation by {
        assert(database.is_joined(other));
        let row = choose|row: Membership| #[trigger]
            database.memberships.contains(row) && row.organisation == other;
        if origin.memberships.contains(row) {
            assert(origin.organisations.contains(row.organisation));
        }
    }
    assert(database.organisations =~= origin.organisations.insert(organisation));
}

} // verus!
