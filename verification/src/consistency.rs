//! What holds in every world that calls can bring about.
//!
//! The laws of the crate that speak of rows follow from one invariant, which
//! ties the stage of each call to what its transaction holds and to what is
//! committed. This module states the invariant and proves that it holds at
//! the start and is kept by every step.

use vstd::prelude::*;
use crate::database::{
    execute, lookup, visible, Chance, Connection, Database, Membership, Transaction,
};
use crate::identity::{OrganisationId, UserId};
use crate::protocol::{Provisioning, Reply, Stage};
use crate::roles::RoleSet;
use crate::world::{reached, Session, Step, World};

verus! {

/// Whether `connection` has a transaction open that is bound to `user` and
/// has inserted exactly the given rows.
pub open spec fn holding(
    connection: Connection,
    user: UserId,
    organisations: Set<OrganisationId>,
    memberships: Set<Membership>,
) -> bool {
    &&& connection is InTransaction
    &&& connection->InTransaction_0.scoped_to(user)
    &&& connection->InTransaction_0.organisations =~= organisations
    &&& connection->InTransaction_0.memberships =~= memberships
}

/// What the stage of a call says of its connection and of the committed rows.
/// `origin` holds the rows that were there before any of the calls.
pub open spec fn in_step(origin: Database, database: Database, session: Session) -> bool {
    let user = session.call.user;
    &&& origin.is_member(user) ==> session.call.stage.read_only()
    &&& match session.call.stage {
        Stage::Start => session.connection is Released,
        Stage::Connected => session.connection is Connected,
        Stage::InTransaction => {
            &&& session.connection is InTransaction
            &&& session.connection->InTransaction_0.organisations =~= Set::empty()
            &&& session.connection->InTransaction_0.memberships =~= Set::empty()
        },
        Stage::ContextBound => holding(session.connection, user, Set::empty(), Set::empty()),
        Stage::LookedUp => holding(session.connection, user, Set::empty(), Set::empty()),
        Stage::OrganisationInserted(organisation) => holding(
            session.connection,
            user,
            set![organisation],
            Set::empty(),
        ),
        Stage::MembershipInserted(organisation) => holding(
            session.connection,
            user,
            set![organisation],
            set![Membership::initial(user, organisation)],
        ),
        Stage::Contended => {
            &&& session.connection is InTransaction
            &&& session.connection->InTransaction_0.scoped_to(user)
            &&& session.connection->InTransaction_0.memberships =~= Set::empty()
        },
        Stage::AlreadyPrimary(organisation) => database.links(user, organisation),
        Stage::Provisioned(organisation) => {
            &&& database.memberships.contains(Membership::initial(user, organisation))
            &&& !origin.organisations.contains(organisation)
        },
        Stage::Failed(_) => true,
    }
}

/// Whether one of the calls has provisioned `row`.
pub open spec fn provisioned_by_call(world: World, row: Membership) -> bool {
    exists|i: int|
        world.has(i) && (#[trigger] world.sessions[i]).call == (Provisioning {
            user: row.user,
            stage: Stage::Provisioned(row.organisation),
        })
}

/// The invariant: what holds of `world` when the calls started on the rows of
/// `origin`.
pub open spec fn consistent(origin: Database, world: World) -> bool {
    let database = world.database;
    &&& database.valid()
    &&& origin.within(database)
    &&& forall|i: int| world.has(i) ==> in_step(origin, database, #[trigger] world.sessions[i])
    &&& forall|i: int, j: int|
        #![trigger world.sessions[i], world.sessions[j]]
        world.has(i) && world.has(j) && i != j && world.sessions[i].call.stage is Provisioned
            ==> world.sessions[i].call.stage != world.sessions[j].call.stage
    &&& forall|row: Membership| #[trigger]
        database.memberships.contains(row) && !origin.memberships.contains(row) ==> {
            &&& row.roles == RoleSet::spec_initial()
            &&& !origin.organisations.contains(row.organisation)
            &&& provisioned_by_call(world, row)
        }
    &&& forall|organisation: OrganisationId| #[trigger]
        database.organisations.contains(organisation) && !origin.organisations.contains(
            organisation,
        ) ==> database.is_joined(organisation)
    &&& forall|a: Membership, b: Membership|
        #![trigger database.memberships.contains(a), database.memberships.contains(b)]
        database.memberships.contains(a) && database.memberships.contains(b) && a.organisation
            == b.organisation && !origin.organisations.contains(a.organisation) ==> a == b
}

/// What the lookup replies: no row only if the transaction sees none of the
/// user, and a single row only if that is the one row of the user that it
/// sees.
pub proof fn lemma_lookup(database: Database, transaction: Transaction, user: UserId)
    ensures
        ({
            let reply = lookup(database, transaction, user);
            &&& reply is NoRow || reply is Row || reply is ManyRows
            &&& reply is NoRow ==> forall|row: Membership|
                visible(database, transaction, row) ==> row.user != user
            &&& reply is Row ==> exists|row: Membership|
                visible(database, transaction, row) && row.user == user && row.organisation
                    == reply->Row_0
        }),
{
}

/// One step of one call keeps what its stage says, and tells what it did to
/// the committed rows: nothing, unless the step is the commit that makes the
/// call provisioned.
pub proof fn lemma_session_step(
    origin: Database,
    database: Database,
    session: Session,
    chance: Chance,
)
    requires
        origin.valid(),
        database.valid(),
        origin.within(database),
        in_step(origin, database, session),
    ensures
        ({
            let (after, connection, reply) = execute(
                database,
                session.connection,
                session.call.pending(),
                chance,
            );
            let call = session.call.next(reply);
            &&& after.valid()
            &&& database.within(after)
            &&& in_step(origin, after, Session { call, connection })
            &&& if call.stage is Provisioned && !(session.call.stage is Provisioned) {
                let organisation = call.stage->Provisioned_0;
                &&& !database.organisations.contains(organisation)
                &&& after.organisations =~= database.organisations.insert(organisation)
                &&& after.memberships =~= database.memberships.insert(
                    Membership::initial(call.user, organisation),
                )
            } else {
                after == database
            }
        }),
{
    let user = session.call.user;
    let (after, connection, reply) = execute(
        database,
        session.connection,
        session.call.pending(),
        chance,
    );
    match session.call.stage {
        Stage::ContextBound => {
            let transaction = session.connection->InTransaction_0;
            lemma_lookup(database, transaction, user);
            if origin.is_member(user) {
                let row = choose|row: Membership| #[trigger]
                    origin.memberships.contains(row) && row.user == user;
                assert(database.memberships.contains(row));
                assert(visible(database, transaction, row));
            }
        },
        Stage::Contended => {
            let transaction = session.connection->InTransaction_0;
            lemma_lookup(database, transaction, user);
        },
        Stage::MembershipInserted(organisation) => {
            let transaction = session.connection->InTransaction_0;
            let row = Membership::initial(user, organisation);
            assert(transaction.organisations.contains(organisation));
            assert(transaction.memberships.contains(row));
            if reply == Reply::Done {
                assert(after == database.with(transaction));
                assert(!database.organisations.contains(organisation));
                assert(after.memberships.contains(row));
                if origin.organisations.contains(organisation) {
                    assert(database.organisations.contains(organisation));
                }
            }
        },
        _ => {},
    }
}

/// What the stage of a call says stays true when rows are added.
pub proof fn lemma_rows_added(
    origin: Database,
    database: Database,
    later: Database,
    session: Session,
)
    requires
        database.within(later),
        in_step(origin, database, session),
    ensures
        in_step(origin, later, session),
{
    if session.call.stage is AlreadyPrimary {
        let row = choose|row: Membership| #[trigger]
            database.memberships.contains(row) && row.user == session.call.user
                && row.organisation == session.call.stage->AlreadyPrimary_0;
        assert(later.memberships.contains(row));
    }
}

/// Every step keeps the invariant.
pub proof fn lemma_step_keeps(origin: Database, world: World, step: Step)
    requires
        origin.valid(),
        consistent(origin, world),
    ensures
        consistent(origin, world.advance(step)),
{
    let next = world.advance(step);
    match step {
        Step::Call { user } => {
            assert forall|i: int| next.has(i) implies in_step(
                origin,
                next.database,
                #[trigger] next.sessions[i],
            ) by {
                if i < world.sessions.len() {
                    assert(next.sessions[i] == world.sessions[i]);
                }
            }
            assert forall|row: Membership| #[trigger]
                next.database.memberships.contains(row) && !origin.memberships.contains(
                    row,
                ) implies provisioned_by_call(next, row) by {
                let i = choose|i: int|
                    world.has(i) && (#[trigger] world.sessions[i]).call == (Provisioning {
                        user: row.user,
                        stage: Stage::Provisioned(row.organisation),
                    });
                assert(next.sessions[i] == world.sessions[i]);
            }
            assert forall|i: int, j: int|
                #![trigger next.sessions[i], next.sessions[j]]
                next.has(i) && next.has(j) && i != j
                    && next.sessions[i].call.stage is Provisioned implies next.sessions[i].call.stage
                != next.sessions[j].call.stage by {
                assert(next.sessions[i] == world.sessions[i]);
                if j < world.sessions.len() {
                    assert(next.sessions[j] == world.sessions[j]);
                }
            }
        },
        Step::Advance { session, chance } => {
            if world.has(session) {
                lemma_advance_keeps(origin, world, session, chance);
            }
        },
    }
}

/// A step of a call keeps the invariant.
proof fn lemma_advance_keeps(origin: Database, world: World, session: int, chance: Chance)
    requires
        origin.valid(),
        consistent(origin, world),
        world.has(session),
    ensures
        consistent(origin, world.advance(Step::Advance { session, chance })),
{
    let next = world.advance(Step::Advance { session, chance });
    let before = world.sessions[session];
    let after = next.sessions[session];
    let database = world.database;
    let later = next.database;
    lemma_session_step(origin, database, before, chance);
    let commits = after.call.stage is Provisioned && !(before.call.stage is Provisioned);
    assert forall|i: int| next.has(i) implies in_step(
        origin,
        later,
        #[trigger] next.sessions[i],
    ) by {
        if i != session {
            assert(next.sessions[i] == world.sessions[i]);
            lemma_rows_added(origin, database, later, world.sessions[i]);
        }
    }
    assert forall|i: int, j: int|
        #![trigger next.sessions[i], next.sessions[j]]
        next.has(i) && next.has(j) && i != j
            && next.sessions[i].call.stage is Provisioned implies next.sessions[i].call.stage
        != next.sessions[j].call.stage by {
        if i != session && j != session {
            assert(next.sessions[i] == world.sessions[i]);
            assert(next.sessions[j] == world.sessions[j]);
        } else if commits {
            let other = if i == session { j } else { i };
            assert(next.sessions[other] == world.sessions[other]);
            assert(in_step(origin, database, world.sessions[other]));
            if world.sessions[other].call.stage is Provisioned {
                let theirs = world.sessions[other].call.stage->Provisioned_0;
                assert(database.memberships.contains(
                    Membership::initial(world.sessions[other].call.user, theirs),
                ));
                assert(database.organisations.contains(theirs));
            }
        } else {
            assert(world.sessions[i].call.stage is Provisioned ==> next.sessions[i].call.stage
                == world.sessions[i].call.stage);
            assert(world.sessions[j].call.stage is Provisioned ==> next.sessions[j].call.stage
                == world.sessions[j].call.stage);
            assert(next.sessions[i].call.stage is Provisioned
                ==> world.sessions[i].call.stage is Provisioned);
            assert(next.sessions[j].call.stage is Provisioned
                ==> world.sessions[j].call.stage is Provisioned);
        }
    }
    assert forall|row: Membership| #[trigger]
        later.memberships.contains(row) && !origin.memberships.contains(row) implies {
        &&& row.roles == RoleSet::spec_initial()
        &&& !origin.organisations.contains(row.organisation)
        &&& provisioned_by_call(next, row)
    } by {
        if database.memberships.contains(row) {
            let i = choose|i: int|
                world.has(i) && (#[trigger] world.sessions[i]).call == (Provisioning {
                    user: row.user,
                    stage: Stage::Provisioned(row.organisation),
                });
            if i != session {
                assert(next.sessions[i] == world.sessions[i]);
            } else {
                assert(next.sessions[i].call == world.sessions[i].call);
            }
        } else {
            assert(commits);
            assert(row == Membership::initial(after.call.user, after.call.stage->Provisioned_0));
            assert(next.sessions[session].call == (Provisioning {
                user: row.user,
                stage: Stage::Provisioned(row.organisation),
            }));
        }
    }
    assert forall|organisation: OrganisationId| #[trigger]
        later.organisations.contains(organisation) && !origin.organisations.contains(
            organisation,
        ) implies later.is_joined(organisation) by {
        if database.organisations.contains(organisation) {
            let row = choose|row: Membership| #[trigger]
                database.memberships.contains(row) && row.organisation == organisation;
            assert(later.memberships.contains(row));
        } else {
            assert(commits);
            let row = Membership::initial(after.call.user, after.call.stage->Provisioned_0);
            assert(later.memberships.contains(row));
        }
    }
    assert forall|a: Membership, b: Membership|
        #![trigger later.memberships.contains(a), later.memberships.contains(b)]
        later.memberships.contains(a) && later.memberships.contains(b) && a.organisation
            == b.organisation && !origin.organisations.contains(a.organisation) implies a
        == b by {
        if commits {
            let row = Membership::initial(after.call.user, after.call.stage->Provisioned_0);
            if a != row {
                assert(database.memberships.contains(a));
                assert(database.organisations.contains(a.organisation));
            }
            if b != row {
                assert(database.memberships.contains(b));
                assert(database.organisations.contains(b.organisation));
            }
        }
    }
}

/// The invariant holds in every world that steps lead to from rows that meet
/// the constraints.
pub proof fn lemma_always_consistent(origin: Database, steps: Seq<Step>)
    requires
        origin.valid(),
    ensures
        consistent(origin, reached(origin, steps)),
    decreases steps.len(),
{
    if steps.len() > 0 {
        lemma_always_consistent(origin, steps.drop_last());
        lemma_step_keeps(origin, reached(origin, steps.drop_last()), steps.last());
    }
}

} // verus!
