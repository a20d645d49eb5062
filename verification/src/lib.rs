//! Post-authentication tenant provisioning.
//!
//! Given an authenticated user, the provisioning flow guarantees that the user
//! ends up with exactly one primary organisation: it looks one up and, when
//! there is none, creates an organisation together with a default membership,
//! all inside one database transaction that is scoped to the user's
//! row-level-security principal.
//!
//! The crate holds no I/O. The flow is a state machine ([`protocol`]) that
//! tells its driver which statement to issue next and is told what came back.
//!
//! What the flow guarantees is proved in two steps. [`trace`] holds what
//! follows from the state machine alone, whatever the database replies: the
//! order of the statements, and which replies lead to which outcome.
//! [`database`] is a model of the database, and [`world`] lets any number of
//! calls run against it in any order. [`laws`] holds what is then true of the
//! rows and of what the calls return, [`progress`] says when a call succeeds,
//! and [`consistency`] holds the invariant on which both rest.

pub mod consistency;
pub mod database;
pub mod error;
pub mod identity;
pub mod laws;
pub mod progress;
pub mod protocol;
pub mod roles;
pub mod trace;
pub mod world;
