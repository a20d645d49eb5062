//! A model of the database that a call talks to.
//!
//! The model holds the rows that are committed, and for each connection the
//! transaction that is open on it with the rows that it has inserted and not
//! yet committed. [`execute`] says what each statement of the flow does to
//! them and what it replies. Two things are left to chance: whether a
//! statement fails for reasons of its own (a lost connection, a timeout), and
//! which id a new organisation is given.
//!
//! The database keeps three constraints: a membership belongs to an
//! organisation that exists, it carries at least one role, and a user has at
//! most one membership. An insert that would give a user a second
//! membership is refused as a duplicate, and a commit goes through only if the
//! rows that it adds still fit the rows that were committed in the meantime.
//! Under row-level security a transaction sees and writes only the rows of the
//! user that it is bound to, and none before it is bound.

use vstd::prelude::*;
use crate::identity::{OrganisationId, UserId};
use crate::protocol::{Action, Reply};
use crate::roles::RoleSet;

verus! {

/// A membership row: it links a user to an organisation and carries the roles
/// that the user has there.
#[derive(Clone, Copy, PartialEq, Eq, Structural, Debug, Hash)]
pub struct Membership {
    pub user: UserId,
    pub organisation: OrganisationId,
    pub roles: RoleSet,
}

/// The committed rows: what every transaction can see.
pub struct Database {
    pub organisations: Set<OrganisationId>,
    pub memberships: Set<Membership>,
}

/// A transaction: the security principal that it is bound to, and the rows
/// that it has inserted. No other transaction sees these rows before the
/// commit.
pub struct Transaction {
    pub principal: Option<UserId>,
    pub organisations: Set<OrganisationId>,
    pub memberships: Set<Membership>,
}

/// What a call holds of the database.
pub enum Connection {
    /// Nothing: no connection is taken from the pool.
    Released,
    /// A connection on which no transaction is open.
    Connected,
    /// A connection with an open transaction.
    InTransaction(Transaction),
}

/// What is left to chance when a statement is executed.
pub struct Chance {
    /// Whether the statement gets through to the database and back.
    pub healthy: bool,
    /// The id that the database generates if the statement inserts an
    /// organisation.
    pub fresh: OrganisationId,
}

impl Membership {
    /// The membership row that provisioning creates for `user` in
    /// `organisation`: it carries the initial roles.
    pub open spec fn initial(user: UserId, organisation: OrganisationId) -> Membership {
        Membership { user, organisation, roles: RoleSet::spec_initial() }
    }
}

impl Database {
    /// Whether `user` has a membership row.
    pub open spec fn is_member(self, user: UserId) -> bool {
        exists|row: Membership| #[trigger] self.memberships.contains(row) && row.user == user
    }

    /// Whether some membership row belongs to `organisation`.
    pub open spec fn is_joined(self, organisation: OrganisationId) -> bool {
        exists|row: Membership| #[trigger]
            self.memberships.contains(row) && row.organisation == organisation
    }

    /// Whether `user` has a membership row in `organisation`.
    pub open spec fn links(self, user: UserId, organisation: OrganisationId) -> bool {
        exists|row: Membership| #[trigger]
            self.memberships.contains(row) && row.user == user && row.organisation
                == organisation
    }

    /// Whether every row of `self` is a row of `later`.
    pub open spec fn within(self, later: Database) -> bool {
        &&& self.organisations.subset_of(later.organisations)
        &&& self.memberships.subset_of(later.memberships)
    }

    /// The membership rows of `user`.
    pub open spec fn rows_of(self, user: UserId) -> Set<Membership> {
        Set::new(|row: Membership| self.memberships.contains(row) && row.user == user)
    }

    /// Whether the rows meet the constraints that the database keeps.
    pub open spec fn valid(self) -> bool {
        &&& forall|row: Membership| #[trigger]
            self.memberships.contains(row) ==> self.organisations.contains(row.organisation)
                && row.roles != RoleSet::spec_empty()
        &&& forall|a: Membership, b: Membership|
            #![trigger self.memberships.contains(a), self.memberships.contains(b)]
            self.memberships.contains(a) && self.memberships.contains(b) && a.user == b.user
                ==> a == b
    }

    /// The database with the rows of `transaction` added.
    pub open spec fn with(self, transaction: Transaction) -> Database {
        Database {
            organisations: self.organisations.union(transaction.organisations),
            memberships: self.memberships.union(transaction.memberships),
        }
    }

    /// Whether the rows of `transaction` can be committed: its organisations
    /// are new, and the constraints hold of the rows taken together.
    pub open spec fn admits(self, transaction: Transaction) -> bool {
        &&& self.organisations.disjoint(transaction.organisations)
        &&& self.with(transaction).valid()
    }
}

impl Transaction {
    /// A transaction that has just been opened.
    pub open spec fn fresh() -> Transaction {
        Transaction { principal: None, organisations: Set::empty(), memberships: Set::empty() }
    }

    /// Whether the transaction is bound to the principal of `user`.
    pub open spec fn scoped_to(self, user: UserId) -> bool {
        self.principal == Some(user)
    }
}

/// Whether `row` is a membership row that `transaction` can see: it is
/// committed or the transaction's own, and it belongs to the user that the
/// transaction is bound to.
pub open spec fn visible(database: Database, transaction: Transaction, row: Membership) -> bool {
    &&& database.memberships.contains(row) || transaction.memberships.contains(row)
    &&& transaction.scoped_to(row.user)
}

/// What the lookup of the primary organisation of `user` replies.
pub open spec fn lookup(database: Database, transaction: Transaction, user: UserId) -> Reply {
    let row = choose|row: Membership| visible(database, transaction, row) && row.user == user;
    if !(visible(database, transaction, row) && row.user == user) {
        Reply::NoRow
    } else if forall|other: Membership|
        visible(database, transaction, other) && other.user == user ==> other == row {
        Reply::Row(row.organisation)
    } else {
        Reply::ManyRows
    }
}

/// What `action` does when it is executed on `connection`: the committed
/// rows after it, what the call then holds, and the reply.
///
/// A statement that the connection is in no state for fails and changes
/// nothing, as does every statement when the chance has it so.
pub open spec fn execute(
    database: Database,
    connection: Connection,
    action: Action,
    chance: Chance,
) -> (Database, Connection, Reply) {
    let failed = (database, connection, Reply::Failed);
    match action {
        Action::AcquireConnection => {
            if chance.healthy && connection is Released {
                (database, Connection::Connected, Reply::Done)
            } else {
                failed
            }
        },
        Action::BeginTransaction => {
            if chance.healthy && connection is Connected {
                (database, Connection::InTransaction(Transaction::fresh()), Reply::Done)
            } else {
                failed
            }
        },
        Action::BindSecurityContext { user } => {
            if chance.healthy && connection is InTransaction {
                let transaction = connection->InTransaction_0;
                let scoped = Transaction { principal: Some(user), ..transaction };
                (database, Connection::InTransaction(scoped), Reply::Done)
            } else {
                failed
            }
        },
        Action::FindPrimary { user } => {
            if chance.healthy && connection is InTransaction {
                (database, connection, lookup(database, connection->InTransaction_0, user))
            } else {
                failed
            }
        },
        Action::InsertOrganisation => {
            if chance.healthy && connection is InTransaction {
                let transaction = connection->InTransaction_0;
                if transaction.principal is Some && !database.organisations.contains(chance.fresh)
                    && !transaction.organisations.contains(chance.fresh) {
                    let grown = Transaction {
                        organisations: transaction.organisations.insert(chance.fresh),
                        ..transaction
                    };
                    (database, Connection::InTransaction(grown), Reply::Inserted(chance.fresh))
                } else {
                    failed
                }
            } else {
                failed
            }
        },
        Action::InsertMembership { user, organisation, roles } => {
            if chance.healthy && connection is InTransaction {
                let transaction = connection->InTransaction_0;
                if transaction.scoped_to(user) && roles != RoleSet::spec_empty() && (
                database.organisations.contains(organisation)
                    || transaction.organisations.contains(organisation)) {
                    if database.is_member(user) || exists|row: Membership| #[trigger]
                        transaction.memberships.contains(row) && row.user == user {
                        (database, connection, Reply::Duplicate)
                    } else {
                        let row = Membership { user, organisation, roles };
                        let grown = Transaction {
                            memberships: transaction.memberships.insert(row),
                            ..transaction
                        };
                        (database, Connection::InTransaction(grown), Reply::Done)
                    }
                } else {
                    failed
                }
            } else {
                failed
            }
        },
        Action::Commit => {
            if connection is InTransaction {
                let transaction = connection->InTransaction_0;
                if chance.healthy && database.admits(transaction) {
                    (database.with(transaction), Connection::Connected, Reply::Done)
                } else {
                    (database, Connection::Connected, Reply::Failed)
                }
            } else {
                failed
            }
        },
        Action::Finish => (database, Connection::Released, Reply::Done),
    }
}

/// Only a commit that goes through changes the committed rows, and it adds
/// the rows of its transaction and nothing else.
pub proof fn law_only_commit_writes(
    database: Database,
    connection: Connection,
    action: Action,
    chance: Chance,
)
    ensures
        ({
            let (after, _, reply) = execute(database, connection, action, chance);
            if action == Action::Commit && reply == Reply::Done {
                &&& connection is InTransaction
                &&& after == database.with(connection->InTransaction_0)
            } else {
                after == database
            }
        }),
{
}

/// The constraints hold after every statement if they held before it.
pub proof fn law_constraints_are_kept(
    database: Database,
    connection: Connection,
    action: Action,
    chance: Chance,
)
    requires
        database.valid(),
    ensures
        execute(database, connection, action, chance).0.valid(),
{
}

/// What a transaction has inserted is rolled back when the call lets go of
/// the connection, and when the commit fails: the committed rows are then
/// what they were, and no transaction is open any more.
pub proof fn law_abandoned_writes_are_lost(
    database: Database,
    connection: Connection,
    chance: Chance,
)
    ensures
        execute(database, connection, Action::Finish, chance) == (
            database,
            Connection::Released,
            Reply::Done,
        ),
        execute(database, connection, Action::Commit, chance).2 != Reply::Done ==> execute(
            database,
            connection,
            Action::Commit,
            chance,
        ).0 == database && !(execute(database, connection, Action::Commit, chance).1
            is InTransaction),
{
}

} // verus!
