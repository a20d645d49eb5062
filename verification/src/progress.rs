//! When a call succeeds.
//!
//! The laws of [`crate::laws`] say what a call that returns an organisation
//! has done. This module says when a call does return one: a call that runs
//! alone, from its start to its end, with no statement failing by chance.

use vstd::prelude::*;
use crate::consistency::{consistent, in_step, lemma_always_consistent, lemma_step_keeps};
use crate::database::{lookup, visible, Chance, Database, Membership};
use crate::error::ErrorKind;
use crate::identity::{OrganisationId, UserId};
use crate::protocol::{Provisioning, Reply, Stage};
use crate::world::{advances, alone, lemma_run_joined, reached, Session, Step, World};

verus! {

/// The stage of a call for `user` that started on the rows of `database` and
/// has taken `k` steps alone, none of which failed by chance. `fresh` is the
/// id that the database generates for the organisation.
pub open spec fn stage_of_healthy_call(
    database: Database,
    user: UserId,
    fresh: OrganisationId,
    k: int,
) -> Stage {
    if k <= 0 {
        Stage::Start
    } else if k == 1 {
        Stage::Connected
    } else if k == 2 {
        Stage::InTransaction
    } else if k == 3 {
        Stage::ContextBound
    } else if database.is_member(user) {
        let row = choose|row: Membership| #[trigger]
            database.memberships.contains(row) && row.user == user;
        Stage::AlreadyPrimary(row.organisation)
    } else if k == 4 {
        Stage::LookedUp
    } else if database.organisations.contains(fresh) {
        Stage::Failed(ErrorKind::InsertOrganisation)
    } else if k == 5 {
        Stage::OrganisationInserted(fresh)
    } else if k == 6 {
        Stage::MembershipInserted(fresh)
    } else {
        Stage::Provisioned(fresh)
    }
}

/// The committed rows after those `k` steps.
pub open spec fn rows_of_healthy_call(
    database: Database,
    user: UserId,
    fresh: OrganisationId,
    k: int,
) -> Database {
    if k >= 7 && !database.is_member(user) && !database.organisations.contains(fresh) {
        Database {
            organisations: database.organisations.insert(fresh),
            memberships: database.memberships.insert(Membership::initial(user, fresh)),
        }
    } else {
        database
    }
}

/// The lookup of a user who has a membership row, in a transaction that is
/// bound to the user and has inserted no membership, replies that row.
proof fn lemma_lookup_finds(database: Database, session: Session, row: Membership)
    requires
        database.valid(),
        database.memberships.contains(row),
        session.connection is InTransaction,
        session.connection->InTransaction_0.scoped_to(row.user),
        session.connection->InTransaction_0.memberships =~= Set::empty(),
    ensures
        lookup(database, session.connection->InTransaction_0, row.user) == Reply::Row(
            row.organisation,
        ),
{
    let transaction = session.connection->InTransaction_0;
    let user = row.user;
    assert(visible(database, transaction, row) && row.user == user);
    let found = choose|found: Membership|
        visible(database, transaction, found) && found.user == user;
    assert(database.memberships.contains(found));
    assert(found == row);
    assert forall|other: Membership|
        visible(database, transaction, other) && other.user == user implies other == found by {
        assert(database.memberships.contains(other));
    }
}

/// The lookup of a user who has no membership row replies that there is none.
proof fn lemma_lookup_misses(database: Database, session: Session, user: UserId)
    requires
        !database.is_member(user),
        session.connection is InTransaction,
        session.connection->InTransaction_0.memberships =~= Set::empty(),
    ensures
        lookup(database, session.connection->InTransaction_0, user) == Reply::NoRow,
{
    let transaction = session.connection->InTransaction_0;
    let found = choose|found: Membership|
        visible(database, transaction, found) && found.user == user;
    if visible(database, transaction, found) && found.user == user {
        assert(database.memberships.contains(found));
    }
}

/// Where a healthy call stands after `k` of its steps.
proof fn lemma_healthy_prefix(
    origin: Database,
    before: World,
    user: UserId,
    chances: Seq<Chance>,
    k: int,
)
    requires
        origin.valid(),
        consistent(origin, before),
        0 <= k <= chances.len(),
        forall|i: int| 0 <= i < chances.len() ==> (#[trigger] chances[i]).healthy,
    ensures
        ({
            let session = before.sessions.len() as int;
            let world = before.advance(Step::Call { user }).run(
                advances(session, chances).take(k),
            );
            let fresh = chances[4].fresh;
            &&& consistent(origin, world)
            &&& world.sessions.len() == session + 1
            &&& world.sessions[session].call == (Provisioning {
                user,
                stage: stage_of_healthy_call(before.database, user, fresh, k),
            })
            &&& world.database.organisations =~= rows_of_healthy_call(
                before.database,
                user,
                fresh,
                k,
            ).organisations
            &&& world.database.memberships =~= rows_of_healthy_call(
                before.database,
                user,
                fresh,
                k,
            ).memberships
            &&& k >= 8 ==> world.sessions[session].connection is Released
        }),
    decreases k,
{
    let session = before.sessions.len() as int;
    let started = before.advance(Step::Call { user });
    let all = advances(session, chances);
    let fresh = chances[4].fresh;
    if k == 0 {
        lemma_step_keeps(origin, before, Step::Call { user });
        assert(all.take(0) =~= Seq::<Step>::empty());
    } else {
        lemma_healthy_prefix(origin, before, user, chances, k - 1);
        let earlier = started.run(all.take(k - 1));
        let step = Step::Advance { session, chance: chances[k - 1] };
        assert(all.take(k).drop_last() =~= all.take(k - 1));
        assert(all.take(k).last() == step);
        let world = earlier.advance(step);
        assert(world == started.run(all.take(k)));
        lemma_step_keeps(origin, earlier, step);
        let mine = earlier.sessions[session];
        assert(in_step(origin, earlier.database, mine));
        assert(earlier.database == before.database || k >= 8);
        let database = before.database;
        if k == 4 {
            if database.is_member(user) {
                let row = choose|row: Membership| #[trigger]
                    database.memberships.contains(row) && row.user == user;
                lemma_lookup_finds(database, mine, row);
            } else {
                lemma_lookup_misses(database, mine, user);
            }
        } else if k == 6 {
            if !database.is_member(user) && !database.organisations.contains(fresh) {
                assert(mine.connection->InTransaction_0.organisations.contains(fresh));
            }
        } else if k == 7 {
            if !database.is_member(user) && !database.organisations.contains(fresh) {
                let transaction = mine.connection->InTransaction_0;
                let row = Membership::initial(user, fresh);
                let merged = database.with(transaction);
                assert(transaction.organisations.contains(fresh));
                assert(transaction.memberships.contains(row));
                assert forall|a: Membership, b: Membership|
                    #![trigger merged.memberships.contains(a), merged.memberships.contains(b)]
                    merged.memberships.contains(a) && merged.memberships.contains(b) && a.user
                        == b.user implies a == b by {
                    if a == row && b != row {
                        assert(database.memberships.contains(b));
                    }
                    if b == row && a != row {
                        assert(database.memberships.contains(a));
                    }
                }
                assert(database.admits(transaction));
            }
        }
    }
}

/// A call that runs alone and meets no failure by chance succeeds, unless
/// the database generates an id that is taken.
///
/// The call starts in any world that calls have led to and takes seven steps
/// or more, none of which fails by chance. For a user who has a membership
/// it returns the organisation of that membership and leaves the rows as
/// they were. For a user who has none it adds an organisation with the
/// generated id and the membership of the user in it, and returns that id;
/// where the generated id is taken, the insert is refused, and the call fails
/// and leaves the rows as they were. With an eighth step the connection is
/// back in the pool.
pub proof fn law_healthy_call(
    origin: Database,
    steps: Seq<Step>,
    user: UserId,
    chances: Seq<Chance>,
)
    requires
        origin.valid(),
        chances.len() >= 7,
        forall|i: int| 0 <= i < chances.len() ==> (#[trigger] chances[i]).healthy,
    ensures
        ({
            let before = reached(origin, steps);
            let session = before.sessions.len() as int;
            let after = reached(origin, steps + alone(session, user, chances));
            let call = after.sessions[session].call;
            let fresh = chances[4].fresh;
            &&& after.has(session)
            &&& call.user == user
            &&& forall|row: Membership| #[trigger]
                before.database.memberships.contains(row) && row.user == user ==> {
                    &&& call.stage == Stage::AlreadyPrimary(row.organisation)
                    &&& after.database == before.database
                }
            &&& !before.database.is_member(user) && !before.database.organisations.contains(
                fresh,
            ) ==> {
                &&& call.stage == Stage::Provisioned(fresh)
                &&& after.database.organisations == before.database.organisations.insert(fresh)
                &&& after.database.memberships == before.database.memberships.insert(
                    Membership::initial(user, fresh),
                )
            }
            &&& !before.database.is_member(user) && before.database.organisations.contains(fresh)
                ==> {
                &&& call.stage == Stage::Failed(ErrorKind::InsertOrganisation)
                &&& after.database == before.database
            }
            &&& chances.len() >= 8 ==> after.sessions[session].connection is Released
        }),
{
    let before = reached(origin, steps);
    let session = before.sessions.len() as int;
    let fresh = chances[4].fresh;
    let k = chances.len() as int;
    lemma_always_consistent(origin, steps);
    lemma_healthy_prefix(origin, before, user, chances, k);
    let all = advances(session, chances);
    assert(all.take(k) =~= all);
    assert(alone(session, user, chances) =~= seq![Step::Call { user }] + all);
    lemma_run_joined(World::initial(origin), steps, alone(session, user, chances));
    lemma_run_joined(before, seq![Step::Call { user }], all);
    assert(seq![Step::Call { user }].drop_last() =~= Seq::<Step>::empty());
    assert(before.run(seq![Step::Call { user }]) == before.advance(Step::Call { user })) by {
        reveal_with_fuel(World::run, 2);
    }
    let after = reached(origin, steps + alone(session, user, chances));
    assert(after == before.advance(Step::Call { user }).run(all));
    assert forall|row: Membership| #[trigger]
        before.database.memberships.contains(row) && row.user == user implies {
        &&& after.sessions[session].call.stage == Stage::AlreadyPrimary(row.organisation)
        &&& after.database == before.database
    } by {
        let found = choose|found: Membership| #[trigger]
            before.database.memberships.contains(found) && found.user == user;
        assert(found == row);
        assert(after.database.organisations =~= before.database.organisations);
        assert(after.database.memberships =~= before.database.memberships);
    }
    if !before.database.is_member(user) && before.database.organisations.contains(fresh) {
        assert(after.database.organisations =~= before.database.organisations);
        assert(after.database.memberships =~= before.database.memberships);
    }
}

} // verus!
