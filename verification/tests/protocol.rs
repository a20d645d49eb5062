use tenant_provisioning::error::{ErrorKind, ProvisioningFailed};
use tenant_provisioning::identity::{OrganisationId, UserId};
use tenant_provisioning::protocol::{Action, Provisioning, Reply, Stage};
use tenant_provisioning::roles::RoleSet;

const USER: UserId = UserId(42);
const ORGANISATION: OrganisationId = OrganisationId(7);

/// Hands `replies` to a call for `USER` and gives the state it ends in with
/// every action that was issued, the first included.
fn feed(replies: &[Reply]) -> (Provisioning, Vec<Action>) {
    let (mut call, first) = Provisioning::start(USER);
    let mut issued = vec![first];
    for reply in replies {
        let (next, action) = call.step(*reply);
        call = next;
        issued.push(action);
    }
    (call, issued)
}

fn failed(kind: ErrorKind) -> Option<Result<OrganisationId, ProvisioningFailed>> {
    Some(Err(ProvisioningFailed { kind }))
}

#[test]
fn a_call_starts_by_asking_for_a_connection() {
    let (call, action) = Provisioning::start(USER);
    assert_eq!(call, Provisioning { user: USER, stage: Stage::Start });
    assert_eq!(action, Action::AcquireConnection);
    assert_eq!(call.action(), Action::AcquireConnection);
    assert!(!call.is_finished());
    assert_eq!(call.outcome(), None);
}

#[test]
fn a_new_user_is_provisioned_in_seven_steps() {
    let (call, issued) = feed(&[
        Reply::Done,
        Reply::Done,
        Reply::Done,
        Reply::NoRow,
        Reply::Inserted(ORGANISATION),
        Reply::Done,
        Reply::Done,
    ]);
    assert_eq!(
        issued,
        vec![
            Action::AcquireConnection,
            Action::BeginTransaction,
            Action::BindSecurityContext { user: USER },
            Action::FindPrimary { user: USER },
            Action::InsertOrganisation,
            Action::InsertMembership {
                user: USER,
                organisation: ORGANISATION,
                roles: RoleSet { administrator: true, negotiator: true, collaborator: true },
            },
            Action::Commit,
            Action::Finish,
        ]
    );
    assert_eq!(call.stage, Stage::Provisioned(ORGANISATION));
    assert!(call.is_finished());
    assert_eq!(call.outcome(), Some(Ok(ORGANISATION)));
}

#[test]
fn the_stages_follow_one_another() {
    let replies = [
        Reply::Done,
        Reply::Done,
        Reply::Done,
        Reply::NoRow,
        Reply::Inserted(ORGANISATION),
        Reply::Done,
    ];
    let stages = [
        Stage::Start,
        Stage::Connected,
        Stage::InTransaction,
        Stage::ContextBound,
        Stage::LookedUp,
        Stage::OrganisationInserted(ORGANISATION),
        Stage::MembershipInserted(ORGANISATION),
    ];
    for k in 0..=replies.len() {
        let (call, _) = feed(&replies[..k]);
        assert_eq!(call.stage, stages[k]);
        assert_eq!(call.user, USER);
        assert!(!call.is_finished());
        assert_eq!(call.outcome(), None);
    }
}

#[test]
fn an_existing_primary_ends_the_call_without_a_write() {
    let (call, issued) =
        feed(&[Reply::Done, Reply::Done, Reply::Done, Reply::Row(ORGANISATION)]);
    assert_eq!(call.stage, Stage::AlreadyPrimary(ORGANISATION));
    assert_eq!(call.outcome(), Some(Ok(ORGANISATION)));
    assert_eq!(
        issued,
        vec![
            Action::AcquireConnection,
            Action::BeginTransaction,
            Action::BindSecurityContext { user: USER },
            Action::FindPrimary { user: USER },
            Action::Finish,
        ]
    );
}

#[test]
fn a_failed_connection_is_a_connection_error() {
    let (call, issued) = feed(&[Reply::Failed]);
    assert_eq!(call.stage, Stage::Failed(ErrorKind::Connection));
    assert_eq!(call.outcome(), failed(ErrorKind::Connection));
    assert_eq!(issued, vec![Action::AcquireConnection, Action::Finish]);
}

#[test]
fn a_failed_begin_is_a_transaction_error() {
    let (call, issued) = feed(&[Reply::Done, Reply::Failed]);
    assert_eq!(call.outcome(), failed(ErrorKind::Transaction));
    assert_eq!(issued.last(), Some(&Action::Finish));
}

#[test]
fn a_failed_bind_issues_no_statement_on_rows() {
    let (call, issued) = feed(&[Reply::Done, Reply::Done, Reply::Failed, Reply::Done]);
    assert_eq!(call.outcome(), failed(ErrorKind::SecurityBind));
    assert_eq!(
        issued,
        vec![
            Action::AcquireConnection,
            Action::BeginTransaction,
            Action::BindSecurityContext { user: USER },
            Action::Finish,
            Action::Finish,
        ]
    );
}

#[test]
fn a_failed_lookup_is_a_lookup_error() {
    let (call, issued) = feed(&[Reply::Done, Reply::Done, Reply::Done, Reply::Failed]);
    assert_eq!(call.outcome(), failed(ErrorKind::Lookup));
    assert_eq!(issued.last(), Some(&Action::Finish));
    assert!(!issued.contains(&Action::InsertOrganisation));
}

#[test]
fn several_rows_are_a_lookup_error() {
    let (call, issued) = feed(&[Reply::Done, Reply::Done, Reply::Done, Reply::ManyRows]);
    assert_eq!(call.outcome(), failed(ErrorKind::Lookup));
    assert!(!issued.contains(&Action::InsertOrganisation));
}

#[test]
fn a_failed_organisation_insert_is_its_own_error() {
    let (call, issued) =
        feed(&[Reply::Done, Reply::Done, Reply::Done, Reply::NoRow, Reply::Failed]);
    assert_eq!(call.outcome(), failed(ErrorKind::InsertOrganisation));
    assert!(!issued.contains(&Action::Commit));
}

#[test]
fn a_duplicate_at_the_organisation_insert_is_not_retried() {
    let (call, issued) =
        feed(&[Reply::Done, Reply::Done, Reply::Done, Reply::NoRow, Reply::Duplicate]);
    assert_eq!(call.outcome(), failed(ErrorKind::InsertOrganisation));
    assert_eq!(issued.last(), Some(&Action::Finish));
}

#[test]
fn a_failed_membership_insert_never_commits() {
    let (call, issued) = feed(&[
        Reply::Done,
        Reply::Done,
        Reply::Done,
        Reply::NoRow,
        Reply::Inserted(ORGANISATION),
        Reply::Failed,
        Reply::Done,
        Reply::Done,
    ]);
    assert_eq!(call.outcome(), failed(ErrorKind::InsertMembership));
    assert!(!issued.contains(&Action::Commit));
    assert_eq!(&issued[6..], &[Action::Finish, Action::Finish, Action::Finish]);
}

#[test]
fn a_failed_commit_is_a_commit_error() {
    let (call, issued) = feed(&[
        Reply::Done,
        Reply::Done,
        Reply::Done,
        Reply::NoRow,
        Reply::Inserted(ORGANISATION),
        Reply::Done,
        Reply::Failed,
    ]);
    assert_eq!(call.outcome(), failed(ErrorKind::Commit));
    assert_eq!(issued.iter().filter(|action| **action == Action::Commit).count(), 1);
}

#[test]
fn a_duplicate_leads_to_one_more_lookup() {
    let winner = OrganisationId(3);
    let (call, issued) = feed(&[
        Reply::Done,
        Reply::Done,
        Reply::Done,
        Reply::NoRow,
        Reply::Inserted(ORGANISATION),
        Reply::Duplicate,
        Reply::Row(winner),
    ]);
    assert_eq!(call.stage, Stage::AlreadyPrimary(winner));
    assert_eq!(call.outcome(), Some(Ok(winner)));
    assert_eq!(issued[6], Action::FindPrimary { user: USER });
    assert_eq!(issued[7], Action::Finish);
    assert!(!issued.contains(&Action::Commit));
    let lookups = issued.iter().filter(|action| **action == Action::FindPrimary { user: USER });
    assert_eq!(lookups.count(), 2);
}

#[test]
fn the_stage_after_a_duplicate_is_contended() {
    let (call, _) = feed(&[
        Reply::Done,
        Reply::Done,
        Reply::Done,
        Reply::NoRow,
        Reply::Inserted(ORGANISATION),
        Reply::Duplicate,
    ]);
    assert_eq!(call.stage, Stage::Contended);
    assert_eq!(call.action(), Action::FindPrimary { user: USER });
    assert_eq!(call.outcome(), None);
}

#[test]
fn a_second_lookup_without_a_single_row_makes_the_duplicate_final() {
    for last in [Reply::NoRow, Reply::ManyRows, Reply::Failed, Reply::Done, Reply::Duplicate] {
        let (call, issued) = feed(&[
            Reply::Done,
            Reply::Done,
            Reply::Done,
            Reply::NoRow,
            Reply::Inserted(ORGANISATION),
            Reply::Duplicate,
            last,
        ]);
        assert_eq!(call.outcome(), failed(ErrorKind::DuplicatePrimary));
        assert_eq!(issued.last(), Some(&Action::Finish));
        assert!(!issued.contains(&Action::Commit));
    }
}

#[test]
fn a_reply_of_the_wrong_kind_counts_as_a_failure() {
    let (call, _) = feed(&[Reply::Row(ORGANISATION)]);
    assert_eq!(call.outcome(), failed(ErrorKind::Connection));
    let (call, _) = feed(&[Reply::Done, Reply::Done, Reply::Inserted(ORGANISATION)]);
    assert_eq!(call.outcome(), failed(ErrorKind::SecurityBind));
    let (call, _) = feed(&[Reply::Done, Reply::Done, Reply::Done, Reply::Done]);
    assert_eq!(call.outcome(), failed(ErrorKind::Lookup));
    let (call, _) = feed(&[Reply::Done, Reply::Done, Reply::Done, Reply::Inserted(ORGANISATION)]);
    assert_eq!(call.outcome(), failed(ErrorKind::Lookup));
    let (call, _) =
        feed(&[Reply::Done, Reply::Done, Reply::Done, Reply::NoRow, Reply::Row(ORGANISATION)]);
    assert_eq!(call.outcome(), failed(ErrorKind::InsertOrganisation));
}

#[test]
fn a_finished_call_stays_as_it_is() {
    let ends = [
        Stage::AlreadyPrimary(ORGANISATION),
        Stage::Provisioned(ORGANISATION),
        Stage::Failed(ErrorKind::Commit),
    ];
    let replies = [
        Reply::Done,
        Reply::NoRow,
        Reply::Row(OrganisationId(1)),
        Reply::ManyRows,
        Reply::Inserted(OrganisationId(1)),
        Reply::Duplicate,
        Reply::Failed,
    ];
    for stage in ends {
        let call = Provisioning { user: USER, stage };
        assert!(call.is_finished());
        assert_eq!(call.action(), Action::Finish);
        for reply in replies {
            assert_eq!(call.step(reply), (call, Action::Finish));
        }
    }
}

#[test]
fn every_call_is_over_after_seven_replies() {
    let replies = [
        Reply::Done,
        Reply::NoRow,
        Reply::Row(OrganisationId(1)),
        Reply::Inserted(OrganisationId(1)),
        Reply::Duplicate,
        Reply::Failed,
    ];
    let mut counter = [0usize; 7];
    let mut sequences = 0;
    loop {
        let chosen: Vec<Reply> = counter.iter().map(|at| replies[*at]).collect();
        let (call, issued) = feed(&chosen);
        assert!(call.is_finished());
        assert_eq!(issued[7], Action::Finish);
        let lookups = issued.iter().filter(|action| **action == Action::FindPrimary { user: USER });
        assert!(lookups.count() <= 2);
        for k in 0..issued.len() {
            let touches_rows = !matches!(
                issued[k],
                Action::AcquireConnection
                    | Action::BeginTransaction
                    | Action::BindSecurityContext { .. }
                    | Action::Finish
            );
            if touches_rows {
                assert!(k > 2);
                assert_eq!(issued[2], Action::BindSecurityContext { user: USER });
                assert_eq!(chosen[2], Reply::Done);
            }
            if issued[k] == Action::Commit {
                assert_eq!(k, 6);
                assert_eq!(chosen[5], Reply::Done);
                assert!(matches!(chosen[4], Reply::Inserted(_)));
            }
        }
        sequences += 1;
        let mut place = 0;
        while place < 7 && counter[place] == 5 {
            counter[place] = 0;
            place += 1;
        }
        if place == 7 {
            break;
        }
        counter[place] += 1;
    }
    assert_eq!(sequences, 279936);
}

#[test]
fn rows_become_a_reply() {
    assert_eq!(Reply::from_rows(&[]), Reply::NoRow);
    assert_eq!(Reply::from_rows(&[OrganisationId(5)]), Reply::Row(OrganisationId(5)));
    assert_eq!(Reply::from_rows(&[OrganisationId(5), OrganisationId(6)]), Reply::ManyRows);
    assert_eq!(Reply::from_rows(&[OrganisationId(5), OrganisationId(5)]), Reply::ManyRows);
}
