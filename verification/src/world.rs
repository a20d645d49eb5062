//! Any number of calls against one database.
//!
//! A world is the database together with the calls that were made on it, each
//! with its own connection. The calls take their steps in any order: between
//! two statements of one call any other call may start, issue statements of
//! its own, or end. A call after another is the order in which the second
//! starts when the first is over.

use vstd::prelude::*;
use crate::database::{execute, Chance, Connection, Database};
use crate::identity::UserId;
use crate::protocol::Provisioning;

verus! {

/// One call, and what it holds of the database.
pub struct Session {
    pub call: Provisioning,
    pub connection: Connection,
}

/// The committed rows and the calls made so far, in the order in which they
/// started.
pub struct World {
    pub database: Database,
    pub sessions: Seq<Session>,
}

/// What can happen next in a world.
pub enum Step {
    /// A new call starts for `user`.
    Call { user: UserId },
    /// The call with the index `session` has its outstanding action executed
    /// and takes the reply.
    Advance { session: int, chance: Chance },
}

impl Session {
    /// A call for `user` that has just started.
    pub open spec fn begin(user: UserId) -> Session {
        Session { call: Provisioning::initial(user), connection: Connection::Released }
    }
}

impl World {
    /// The world in which no call was made yet.
    pub open spec fn initial(database: Database) -> World {
        World { database, sessions: Seq::empty() }
    }

    /// Whether `session` is the index of a call.
    pub open spec fn has(self, session: int) -> bool {
        0 <= session < self.sessions.len()
    }

    /// The world after `step`. A step of a call that does not exist changes
    /// nothing.
    pub open spec fn advance(self, step: Step) -> World {
        match step {
            Step::Call { user } => World {
                database: self.database,
                sessions: self.sessions.push(Session::begin(user)),
            },
            Step::Advance { session, chance } => {
                if self.has(session) {
                    let before = self.sessions[session];
                    let (database, connection, reply) = execute(
                        self.database,
                        before.connection,
                        before.call.pending(),
                        chance,
                    );
                    let after = Session { call: before.call.next(reply), connection };
                    World { database, sessions: self.sessions.update(session, after) }
                } else {
                    self
                }
            },
        }
    }

    /// The world after `steps`, one after the other.
    pub open spec fn run(self, steps: Seq<Step>) -> World
        decreases steps.len(),
    {
        if steps.len() == 0 {
            self
        } else {
            self.run(steps.drop_last()).advance(steps.last())
        }
    }
}

/// The world that `steps` lead to when the calls start on the rows of
/// `origin`.
pub open spec fn reached(origin: Database, steps: Seq<Step>) -> World {
    World::initial(origin).run(steps)
}

/// One step of the call `session` for each of `chances`.
pub open spec fn advances(session: int, chances: Seq<Chance>) -> Seq<Step> {
    Seq::new(chances.len(), |k: int| Step::Advance { session, chance: chances[k] })
}

/// The steps of one call that runs from its start without any other call in
/// between: it starts as the call with the index `session` and has one
/// action executed for each of `chances`.
pub open spec fn alone(session: int, user: UserId, chances: Seq<Chance>) -> Seq<Step> {
    seq![Step::Call { user }] + advances(session, chances)
}

/// Running two sequences of steps one after the other is running them joined.
pub proof fn lemma_run_joined(world: World, first: Seq<Step>, second: Seq<Step>)
    ensures
        world.run(first + second) == world.run(first).run(second),
    decreases second.len(),
{
    if second.len() == 0 {
        assert(first + second =~= first);
    } else {
        lemma_run_joined(world, first, second.drop_last());
        assert((first + second).drop_last() =~= first + second.drop_last());
    }
}

} // verus!
