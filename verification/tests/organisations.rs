use c_plane::errors::{AppError, DatabaseError, ErrorKind, OrganisationError};
use c_plane::models::entities::{OrganisationMemberModel, OrganisationRole};
use c_plane::services::organisations::{
    change_role, create_organisation, create_organisation_at, get_organisation, invite_member,
    invite_member_at, remove_member, CreateOrganisationData,
};
use c_plane::store::Store;
use c_plane::utils::time::Timestamp;

const ALICE: u128 = 0x0000_0000_0000_4000_8000_0000_0000_00a1;
const BOB: u128 = 0x0000_0000_0000_4000_8000_0000_0000_00a2;
const CAROL: u128 = 0x0000_0000_0000_4000_8000_0000_0000_00a3;
const ACME: u128 = 0x0000_0000_0000_4000_8000_0000_0000_00b1;
const GLOBEX: u128 = 0x0000_0000_0000_4000_8000_0000_0000_00b2;
const FIRST: u128 = 0x0000_0000_0000_4000_8000_0000_0000_00c1;
const SECOND: u128 = 0x0000_0000_0000_4000_8000_0000_0000_00c2;
const THIRD: u128 = 0x0000_0000_0000_4000_8000_0000_0000_00c3;

fn at(seconds: i64) -> Timestamp {
    Timestamp { seconds, nanos: 0 }
}

fn data(name: &str, principal: u128) -> CreateOrganisationData {
    CreateOrganisationData {
        name: name.to_string(),
        description: None,
        avatar_url: None,
        identity_id: principal,
    }
}

fn acme() -> Store {
    let mut store = Store::new();
    create_organisation_at(&mut store, data("Acme", ALICE), ACME, FIRST, at(100)).unwrap();
    store
}

fn active_owners(store: &Store, organisation: u128) -> Vec<u128> {
    store
        .members
        .iter()
        .filter(|m| {
            m.organisation_id == organisation && m.is_active && m.role == OrganisationRole::Owner
        })
        .map(|m| m.id)
        .collect()
}

#[test]
fn creation_adds_the_organisation_and_its_owner() {
    let mut store = Store::new();
    let request = CreateOrganisationData {
        name: "Acme".to_string(),
        description: Some("Rockets".to_string()),
        avatar_url: Some("https://example.org/a.png".to_string()),
        identity_id: ALICE,
    };
    let (organisation, member) =
        create_organisation_at(&mut store, request, ACME, FIRST, at(100)).unwrap();
    assert_eq!(organisation.id, ACME);
    assert_eq!(organisation.name, "Acme");
    assert_eq!(organisation.description.as_deref(), Some("Rockets"));
    assert_eq!(organisation.avatar_url.as_deref(), Some("https://example.org/a.png"));
    assert!(organisation.is_active);
    assert_eq!(organisation.created_by, ALICE);
    assert_eq!(organisation.created_at, at(100));
    assert_eq!(organisation.updated_at, at(100));
    assert_eq!(
        member,
        OrganisationMemberModel {
            id: FIRST,
            organisation_id: ACME,
            identity_id: ALICE,
            role: OrganisationRole::Owner,
            is_active: true,
            joined_at: at(100),
            invited_by: ALICE,
            invited_at: at(100),
            invitation_accepted_at: at(100),
        }
    );
    assert_eq!(store.organisations, vec![organisation]);
    assert_eq!(store.members, vec![member]);
    assert!(store.is_well_formed());
}

#[test]
fn creation_with_a_blank_name_is_refused() {
    for name in ["", " ", "\t\n", "\u{2003}\u{a0}"] {
        let mut store = Store::new();
        let result = create_organisation_at(&mut store, data(name, ALICE), ACME, FIRST, at(100));
        assert_eq!(result, Err(AppError::Organisation(OrganisationError::InvalidName)));
        assert!(store.organisations.is_empty());
        assert!(store.members.is_empty());
    }
}

#[test]
fn creation_keeps_the_name_as_given() {
    let mut store = Store::new();
    let (organisation, _) =
        create_organisation_at(&mut store, data("  Acme  ", ALICE), ACME, FIRST, at(100)).unwrap();
    assert_eq!(organisation.name, "  Acme  ");
}

#[test]
fn creation_that_fails_on_the_second_row_leaves_no_row() {
    let mut store = acme();
    let before_organisations = store.organisations.clone();
    let before_members = store.members.clone();
    // The organisation's identifier is free, the membership's is taken.
    let result = create_organisation_at(&mut store, data("Globex", BOB), GLOBEX, FIRST, at(200));
    assert_eq!(
        result,
        Err(AppError::Database(DatabaseError::ConstraintViolation(
            "organisation_members_pkey".to_string()
        )))
    );
    assert_eq!(store.organisations, before_organisations);
    assert_eq!(store.members, before_members);
}

#[test]
fn creation_under_a_taken_identifier_is_a_persistence_failure() {
    let mut store = acme();
    let result = create_organisation_at(&mut store, data("Globex", BOB), ACME, SECOND, at(200));
    assert_eq!(
        result,
        Err(AppError::Database(DatabaseError::ConstraintViolation(
            "organisations_pkey".to_string()
        )))
    );
    assert_eq!(result.unwrap_err().error_kind(), ErrorKind::PersistenceFailure);
    assert_eq!(store.organisations.len(), 1);
    assert_eq!(store.members.len(), 1);
}

#[test]
fn creation_draws_identifiers_and_reads_the_clock() {
    let mut store = Store::new();
    let (first, first_member) = create_organisation(&mut store, data("Acme", ALICE)).unwrap();
    let (second, second_member) = create_organisation(&mut store, data("Globex", ALICE)).unwrap();
    let version = 0x0000_0000_0000_f000_c000_0000_0000_0000u128;
    let random = 0x0000_0000_0000_4000_8000_0000_0000_0000u128;
    for id in [first.id, second.id, first_member.id, second_member.id] {
        assert_eq!(id & version, random);
    }
    assert_ne!(first.id, second.id);
    assert_ne!(first_member.id, second_member.id);
    assert_ne!(first.id, first_member.id);
    // One instant stands in every timestamp of both rows, and it is a present-day one.
    assert!(first.created_at.seconds > 1_600_000_000);
    assert!(first.created_at.nanos < 1_000_000_000);
    assert_eq!(first.updated_at, first.created_at);
    assert_eq!(first_member.joined_at, first.created_at);
    assert_eq!(first_member.invited_at, first.created_at);
    assert_eq!(first_member.invitation_accepted_at, first.created_at);
    assert_eq!(first_member.organisation_id, first.id);
    assert_eq!(first_member.identity_id, ALICE);
    assert_eq!(first_member.invited_by, ALICE);
    assert_eq!(first_member.role, OrganisationRole::Owner);
    assert_eq!(store.organisations.len(), 2);
    assert_eq!(store.members.len(), 2);
    assert!(store.is_well_formed());
}

#[test]
fn create_organisation_refuses_a_blank_name() {
    let mut store = Store::new();
    let result = create_organisation(&mut store, data("   ", ALICE));
    assert_eq!(result, Err(AppError::Organisation(OrganisationError::InvalidName)));
    assert!(store.organisations.is_empty());
    assert!(store.members.is_empty());
}

#[test]
fn get_organisation_finds_the_row_or_reports_it_missing() {
    let store = acme();
    let found = get_organisation(&store, ACME).unwrap();
    assert_eq!(found, store.organisations[0]);
    assert_eq!(
        get_organisation(&store, GLOBEX),
        Err(AppError::Organisation(OrganisationError::OrganisationNotFound(GLOBEX)))
    );
}

#[test]
fn removing_the_last_owner_is_refused() {
    // The creator of an organisation is its only owner and tries to remove itself.
    let mut store = acme();
    let result = remove_member(&mut store, ALICE, ACME, FIRST);
    assert_eq!(result, Err(AppError::Organisation(OrganisationError::CannotRemoveLastOwner)));
    assert_eq!(result.unwrap_err().error_kind(), ErrorKind::InvariantViolation);
    assert_eq!(active_owners(&store, ACME), vec![FIRST]);
}

#[test]
fn demoting_the_last_owner_is_refused() {
    let mut store = acme();
    for role in [OrganisationRole::Admin, OrganisationRole::Member, OrganisationRole::Viewer] {
        let result = change_role(&mut store, ALICE, ACME, FIRST, role);
        assert_eq!(
            result,
            Err(AppError::Organisation(OrganisationError::CannotRemoveLastOwner))
        );
    }
    assert_eq!(active_owners(&store, ACME), vec![FIRST]);
    // Confirming the owner in its role is no demotion.
    let kept = change_role(&mut store, ALICE, ACME, FIRST, OrganisationRole::Owner).unwrap();
    assert_eq!(kept.role, OrganisationRole::Owner);
}

#[test]
fn an_owner_can_leave_once_there_is_another() {
    let mut store = acme();
    invite_member_at(&mut store, ALICE, ACME, BOB, OrganisationRole::Owner, SECOND, at(200)).unwrap();
    assert_eq!(remove_member(&mut store, BOB, ACME, FIRST), Ok(()));
    assert_eq!(active_owners(&store, ACME), vec![SECOND]);
    // The row of the removed membership stays.
    assert_eq!(store.members.len(), 2);
    assert!(!store.members[0].is_active);
    // Now SECOND is the last owner.
    assert_eq!(
        remove_member(&mut store, BOB, ACME, SECOND),
        Err(AppError::Organisation(OrganisationError::CannotRemoveLastOwner))
    );
    assert!(store.is_well_formed());
}

#[test]
fn invitation_adds_an_active_membership() {
    let mut store = acme();
    let member =
        invite_member_at(&mut store, ALICE, ACME, BOB, OrganisationRole::Member, SECOND, at(200)).unwrap();
    assert_eq!(
        member,
        OrganisationMemberModel {
            id: SECOND,
            organisation_id: ACME,
            identity_id: BOB,
            role: OrganisationRole::Member,
            is_active: true,
            joined_at: at(200),
            invited_by: ALICE,
            invited_at: at(200),
            invitation_accepted_at: at(200),
        }
    );
    assert_eq!(store.members.len(), 2);
    assert_eq!(store.members[1], member);
}

#[test]
fn invitation_needs_the_right_to_manage_members() {
    let mut store = acme();
    invite_member_at(&mut store, ALICE, ACME, BOB, OrganisationRole::Member, SECOND, at(200)).unwrap();
    // A member may not invite.
    let result = invite_member_at(&mut store, BOB, ACME, CAROL, OrganisationRole::Viewer, THIRD, at(300));
    assert_eq!(
        result,
        Err(AppError::Organisation(OrganisationError::InsufficientRole {
            required: "admin".to_string(),
            current: "member".to_string(),
        }))
    );
    assert_eq!(result.unwrap_err().error_kind(), ErrorKind::Forbidden);
    // A stranger may not either.
    let result = invite_member_at(&mut store, CAROL, ACME, CAROL, OrganisationRole::Viewer, THIRD, at(300));
    assert_eq!(result, Err(AppError::Organisation(OrganisationError::UserNotMember(CAROL))));
    assert_eq!(store.members.len(), 2);
    // An admin may.
    change_role(&mut store, ALICE, ACME, SECOND, OrganisationRole::Admin).unwrap();
    let member =
        invite_member_at(&mut store, BOB, ACME, CAROL, OrganisationRole::Viewer, THIRD, at(300)).unwrap();
    assert_eq!(member.invited_by, BOB);
}

#[test]
fn inviting_an_active_member_is_a_conflict() {
    let mut store = acme();
    invite_member_at(&mut store, ALICE, ACME, BOB, OrganisationRole::Member, SECOND, at(200)).unwrap();
    let result = invite_member_at(&mut store, ALICE, ACME, BOB, OrganisationRole::Admin, THIRD, at(300));
    assert_eq!(result, Err(AppError::Organisation(OrganisationError::AlreadyMember(BOB))));
    assert_eq!(result.unwrap_err().error_kind(), ErrorKind::Conflict);
    assert_eq!(store.members.len(), 2);
    assert_eq!(store.members[1].role, OrganisationRole::Member);
}

#[test]
fn inviting_a_removed_member_takes_it_in_again_in_its_row() {
    let mut store = acme();
    invite_member_at(&mut store, ALICE, ACME, BOB, OrganisationRole::Member, SECOND, at(200)).unwrap();
    remove_member(&mut store, ALICE, ACME, SECOND).unwrap();
    let member =
        invite_member_at(&mut store, ALICE, ACME, BOB, OrganisationRole::Admin, THIRD, at(300)).unwrap();
    assert_eq!(member.id, SECOND);
    assert_eq!(member.role, OrganisationRole::Admin);
    assert!(member.is_active);
    assert_eq!(member.invited_at, at(300));
    assert_eq!(store.members.len(), 2);
    assert_eq!(store.members[1], member);
    assert!(store.is_well_formed());
}

#[test]
fn invitation_under_a_taken_identifier_is_a_persistence_failure() {
    let mut store = acme();
    let result = invite_member_at(&mut store, ALICE, ACME, BOB, OrganisationRole::Member, FIRST, at(200));
    assert_eq!(
        result,
        Err(AppError::Database(DatabaseError::ConstraintViolation(
            "organisation_members_pkey".to_string()
        )))
    );
    assert_eq!(store.members.len(), 1);
}

#[test]
fn invite_member_draws_an_identifier_and_reads_the_clock() {
    let mut store = acme();
    let member = invite_member(&mut store, ALICE, ACME, BOB, OrganisationRole::Viewer).unwrap();
    assert_ne!(member.id, FIRST);
    assert_eq!(member.organisation_id, ACME);
    assert_eq!(member.identity_id, BOB);
    assert_eq!(member.role, OrganisationRole::Viewer);
    assert_eq!(member.invited_by, ALICE);
    assert!(member.is_active);
    assert!(member.invited_at.seconds > 1_600_000_000);
    assert_eq!(member.joined_at, member.invited_at);
    assert_eq!(member.invitation_accepted_at, member.invited_at);
    assert_eq!(
        invite_member(&mut store, ALICE, ACME, BOB, OrganisationRole::Viewer),
        Err(AppError::Organisation(OrganisationError::AlreadyMember(BOB)))
    );
    assert_eq!(
        invite_member(&mut store, CAROL, ACME, CAROL, OrganisationRole::Viewer),
        Err(AppError::Organisation(OrganisationError::UserNotMember(CAROL)))
    );
}

#[test]
fn changing_a_role_changes_nothing_else() {
    let mut store = acme();
    let invited =
        invite_member_at(&mut store, ALICE, ACME, BOB, OrganisationRole::Member, SECOND, at(200)).unwrap();
    let changed = change_role(&mut store, ALICE, ACME, SECOND, OrganisationRole::Admin).unwrap();
    assert_eq!(changed, OrganisationMemberModel { role: OrganisationRole::Admin, ..invited });
    assert_eq!(store.members[1], changed);
    assert_eq!(store.members[0].role, OrganisationRole::Owner);
}

#[test]
fn changes_to_a_membership_that_is_not_there_are_refused() {
    let mut store = acme();
    assert_eq!(
        change_role(&mut store, ALICE, ACME, SECOND, OrganisationRole::Admin),
        Err(AppError::Organisation(OrganisationError::MembershipNotFound(SECOND)))
    );
    assert_eq!(
        remove_member(&mut store, ALICE, ACME, SECOND),
        Err(AppError::Organisation(OrganisationError::MembershipNotFound(SECOND)))
    );
    // A membership of another organisation is not there either.
    create_organisation_at(&mut store, data("Globex", ALICE), GLOBEX, SECOND, at(200)).unwrap();
    assert_eq!(
        change_role(&mut store, ALICE, ACME, SECOND, OrganisationRole::Admin),
        Err(AppError::Organisation(OrganisationError::MembershipNotFound(SECOND)))
    );
}

#[test]
fn members_of_one_organisation_have_no_say_in_another() {
    let mut store = acme();
    create_organisation_at(&mut store, data("Globex", BOB), GLOBEX, SECOND, at(200)).unwrap();
    assert_eq!(
        remove_member(&mut store, BOB, ACME, FIRST),
        Err(AppError::Organisation(OrganisationError::UserNotMember(BOB)))
    );
    assert_eq!(
        invite_member_at(&mut store, ALICE, GLOBEX, CAROL, OrganisationRole::Viewer, THIRD, at(300)),
        Err(AppError::Organisation(OrganisationError::UserNotMember(ALICE)))
    );
}

#[test]
fn a_removed_member_has_no_say() {
    let mut store = acme();
    invite_member_at(&mut store, ALICE, ACME, BOB, OrganisationRole::Admin, SECOND, at(200)).unwrap();
    remove_member(&mut store, ALICE, ACME, SECOND).unwrap();
    assert_eq!(
        invite_member_at(&mut store, BOB, ACME, CAROL, OrganisationRole::Viewer, THIRD, at(300)),
        Err(AppError::Organisation(OrganisationError::UserNotMember(BOB)))
    );
    // Removing it once more succeeds and changes nothing.
    let before = store.members.clone();
    assert_eq!(remove_member(&mut store, ALICE, ACME, SECOND), Ok(()));
    assert_eq!(store.members, before);
}

#[test]
fn every_organisation_keeps_an_owner_through_any_sequence() {
    // A fixed walk through invitations, changes of role and removals, granted or refused:
    // after each step both organisations still have an active owner.
    let mut store = acme();
    create_organisation_at(&mut store, data("Globex", BOB), GLOBEX, SECOND, at(150)).unwrap();
    let roles = [
        OrganisationRole::Owner,
        OrganisationRole::Admin,
        OrganisationRole::Member,
        OrganisationRole::Viewer,
    ];
    let principals = [ALICE, BOB, CAROL];
    let memberships = [FIRST, SECOND, THIRD, 0xd1, 0xd2, 0xd3];
    let mut next_id: u128 = 0xd1;
    let mut seed: u64 = 7;
    for step in 0..600 {
        seed = seed.wrapping_mul(6364136223846793005).wrapping_add(1442695040888963407);
        let pick = (seed >> 33) as usize;
        let acting = principals[pick % 3];
        let organisation = if (pick / 3) % 2 == 0 { ACME } else { GLOBEX };
        let target = principals[(pick / 6) % 3];
        let membership = memberships[(pick / 18) % 6];
        let role = roles[(pick / 108) % 4];
        match (pick / 432) % 3 {
            0 => {
                let invited = invite_member_at(
                    &mut store,
                    acting,
                    organisation,
                    target,
                    role,
                    next_id,
                    at(1000 + step),
                );
                if let Ok(member) = invited {
                    if member.id == next_id {
                        next_id += 1;
                    }
                }
            }
            1 => {
                let _ = change_role(&mut store, acting, organisation, membership, role);
            }
            _ => {
                let _ = remove_member(&mut store, acting, organisation, membership);
            }
        }
        assert!(!active_owners(&store, ACME).is_empty(), "step {}", step);
        assert!(!active_owners(&store, GLOBEX).is_empty(), "step {}", step);
        assert!(store.is_well_formed(), "step {}", step);
    }
}

#[test]
fn on_an_empty_store_every_name_that_is_not_blank_succeeds() {
    for name in ["Acme", "a", " x ", "\u{200b}", "0"] {
        let mut store = Store::new();
        let (organisation, member) = create_organisation(&mut store, data(name, ALICE)).unwrap();
        assert_eq!(organisation.name, name);
        assert_eq!(store.organisations, vec![organisation]);
        assert_eq!(store.members, vec![member]);
    }
}

#[test]
fn an_organisation_is_found_among_rows_that_break_other_rules() {
    let mut store = acme();
    store.members.clear();
    assert!(!store.is_well_formed());
    assert!(store.has_unique_identifiers());
    assert_eq!(get_organisation(&store, ACME).unwrap().id, ACME);
}
