use c_plane::errors::{AppError, DatabaseError, ErrorKind, OrganisationError, ProjectError};
use c_plane::models::entities::{OrganisationRole, ProjectModel};
use c_plane::services::organisations::{
    create_organisation_at, invite_member_at, remove_member, CreateOrganisationData,
};
use c_plane::services::projects::{
    archive_project, create_project, create_project_at, delete_project, deletion_outcome,
    get_project, list_projects, set_archived_at, unarchive_project, update_project,
    update_project_at, CreateProjectRequest, ProjectResponse, ProjectsListResponse,
    UpdateProjectRequest,
};
use c_plane::store::Store;
use c_plane::utils::pagination::PaginationQuery;
use c_plane::utils::time::Timestamp;

const OWNER: u128 = 0xa1;
const MEMBER: u128 = 0xa2;
const VIEWER: u128 = 0xa3;
const STRANGER: u128 = 0xa4;
const ORG: u128 = 0xb1;
const OTHER_ORG: u128 = 0xb2;

fn at(seconds: i64) -> Timestamp {
    Timestamp { seconds, nanos: 0 }
}

fn organisation(name: &str, principal: u128) -> CreateOrganisationData {
    CreateOrganisationData {
        name: name.to_string(),
        description: None,
        avatar_url: None,
        identity_id: principal,
    }
}

fn acme() -> Store {
    let mut store = Store::new();
    create_organisation_at(&mut store, organisation("Acme", OWNER), ORG, 0xc1, at(10)).unwrap();
    invite_member_at(&mut store, OWNER, ORG, MEMBER, OrganisationRole::Member, 0xc2, at(20))
        .unwrap();
    invite_member_at(&mut store, OWNER, ORG, VIEWER, OrganisationRole::Viewer, 0xc3, at(30))
        .unwrap();
    store
}

fn request(name: &str, owner: u128) -> CreateProjectRequest {
    CreateProjectRequest {
        name: name.to_string(),
        description: Some("first".to_string()),
        slug: name.to_lowercase(),
        organisation_id: ORG,
        owner_id: owner,
        is_public: false,
    }
}

fn no_change() -> UpdateProjectRequest {
    UpdateProjectRequest { name: None, description: None, is_archived: None }
}

fn page(page: u64, per_page: u64) -> PaginationQuery {
    PaginationQuery { page: Some(page), per_page: Some(per_page) }
}

fn ids(projects: &[ProjectResponse]) -> Vec<u128> {
    projects.iter().map(|p| p.id).collect()
}

#[test]
fn create_project_adds_an_unarchived_row() {
    let mut store = acme();
    let project = create_project_at(&mut store, MEMBER, request("Apollo", OWNER), 0xe1, at(100))
        .unwrap();
    assert_eq!(
        project,
        ProjectResponse {
            id: 0xe1,
            name: "Apollo".to_string(),
            description: Some("first".to_string()),
            organisation_id: ORG,
            owner_id: OWNER,
            is_archived: false,
            created_at: at(100),
            updated_at: at(100),
        }
    );
    assert_eq!(store.projects.len(), 1);
    assert_eq!(ProjectResponse::from(store.projects[0].clone()), project);
    assert!(store.is_well_formed());
}

#[test]
fn create_project_with_an_owner_outside_the_organisation_is_refused() {
    // The acting principal owns the organisation; the principal named as the project's
    // owner is no member of it.
    let mut store = acme();
    let result = create_project_at(&mut store, OWNER, request("Apollo", STRANGER), 0xe1, at(100));
    assert_eq!(result, Err(AppError::Project(ProjectError::OwnerNotMember(STRANGER))));
    assert_eq!(result.unwrap_err().error_kind(), ErrorKind::InvariantViolation);
    assert!(store.projects.is_empty());
}

#[test]
fn a_project_owner_needs_member_rank_and_an_active_membership() {
    let mut store = acme();
    assert_eq!(
        create_project_at(&mut store, OWNER, request("Apollo", VIEWER), 0xe1, at(100)),
        Err(AppError::Project(ProjectError::OwnerNotMember(VIEWER)))
    );
    assert!(create_project_at(&mut store, OWNER, request("Apollo", MEMBER), 0xe1, at(100)).is_ok());
    remove_member(&mut store, OWNER, ORG, 0xc2).unwrap();
    assert_eq!(
        create_project_at(&mut store, OWNER, request("Gemini", MEMBER), 0xe2, at(200)),
        Err(AppError::Project(ProjectError::OwnerNotMember(MEMBER)))
    );
    assert_eq!(store.projects.len(), 1);
}

#[test]
fn create_project_needs_a_name() {
    let mut store = acme();
    assert_eq!(
        create_project_at(&mut store, OWNER, request("", OWNER), 0xe1, at(100)),
        Err(AppError::Project(ProjectError::InvalidName))
    );
    // Only an empty name is refused.
    assert!(create_project_at(&mut store, OWNER, request(" ", OWNER), 0xe1, at(100)).is_ok());
}

#[test]
fn create_project_needs_the_right_to_manage_projects() {
    let mut store = acme();
    assert_eq!(
        create_project_at(&mut store, VIEWER, request("Apollo", OWNER), 0xe1, at(100)),
        Err(AppError::Organisation(OrganisationError::InsufficientRole {
            required: "member".to_string(),
            current: "viewer".to_string(),
        }))
    );
    assert_eq!(
        create_project_at(&mut store, STRANGER, request("Apollo", OWNER), 0xe1, at(100)),
        Err(AppError::Organisation(OrganisationError::UserNotMember(STRANGER)))
    );
    let mut elsewhere = request("Apollo", OWNER);
    elsewhere.organisation_id = OTHER_ORG;
    assert_eq!(
        create_project_at(&mut store, OWNER, elsewhere, 0xe1, at(100)),
        Err(AppError::Organisation(OrganisationError::UserNotMember(OWNER)))
    );
    assert!(store.projects.is_empty());
}

#[test]
fn create_project_under_a_taken_identifier_is_a_persistence_failure() {
    let mut store = acme();
    create_project_at(&mut store, OWNER, request("Apollo", OWNER), 0xe1, at(100)).unwrap();
    assert_eq!(
        create_project_at(&mut store, OWNER, request("Gemini", OWNER), 0xe1, at(200)),
        Err(AppError::Database(DatabaseError::ConstraintViolation("projects_pkey".to_string())))
    );
    assert_eq!(store.projects.len(), 1);
}

#[test]
fn create_project_draws_an_identifier_and_reads_the_clock() {
    let mut store = acme();
    let first = create_project(&mut store, OWNER, request("Apollo", OWNER)).unwrap();
    let second = create_project(&mut store, OWNER, request("Gemini", MEMBER)).unwrap();
    assert_ne!(first.id, second.id);
    assert_eq!(first.id & 0xf000_c000_0000_0000_0000, 0x4000_8000_0000_0000_0000);
    assert!(first.created_at.seconds > 1_600_000_000);
    assert_eq!(first.updated_at, first.created_at);
    assert!(!first.is_archived);
    assert_eq!(second.owner_id, MEMBER);
    assert_eq!(
        create_project(&mut store, OWNER, request("Mercury", STRANGER)),
        Err(AppError::Project(ProjectError::OwnerNotMember(STRANGER)))
    );
    assert_eq!(store.projects.len(), 2);
}

#[test]
fn get_project_finds_the_row_or_reports_it_missing() {
    let mut store = acme();
    let created = create_project_at(&mut store, OWNER, request("Apollo", OWNER), 0xe1, at(100))
        .unwrap();
    assert_eq!(get_project(&store, 0xe1), Ok(created));
    let missing = get_project(&store, 0xe2);
    assert_eq!(missing, Err(AppError::Project(ProjectError::ProjectNotFound(0xe2))));
    assert_eq!(missing.unwrap_err().error_kind(), ErrorKind::NotFound);
}

#[test]
fn update_changes_only_what_is_named() {
    let mut store = acme();
    let created = create_project_at(&mut store, OWNER, request("Apollo", OWNER), 0xe1, at(100))
        .unwrap();
    let renamed = update_project_at(
        &mut store,
        MEMBER,
        0xe1,
        UpdateProjectRequest { name: Some("Artemis".to_string()), ..no_change() },
        at(200),
    )
    .unwrap();
    assert_eq!(
        renamed,
        ProjectResponse { name: "Artemis".to_string(), updated_at: at(200), ..created.clone() }
    );
    let cleared = update_project_at(
        &mut store,
        MEMBER,
        0xe1,
        UpdateProjectRequest { description: Some(None), ..no_change() },
        at(300),
    )
    .unwrap();
    assert_eq!(
        cleared,
        ProjectResponse { description: None, updated_at: at(300), ..renamed.clone() }
    );
    let described = update_project_at(
        &mut store,
        MEMBER,
        0xe1,
        UpdateProjectRequest {
            description: Some(Some("second".to_string())),
            is_archived: Some(true),
            ..no_change()
        },
        at(400),
    )
    .unwrap();
    assert_eq!(
        described,
        ProjectResponse {
            description: Some("second".to_string()),
            is_archived: true,
            updated_at: at(400),
            ..cleared
        }
    );
    assert_eq!(get_project(&store, 0xe1), Ok(described));
}

#[test]
fn update_that_names_nothing_still_refreshes_the_timestamp() {
    let mut store = acme();
    let created = create_project_at(&mut store, OWNER, request("Apollo", OWNER), 0xe1, at(100))
        .unwrap();
    let updated = update_project_at(&mut store, OWNER, 0xe1, no_change(), at(200)).unwrap();
    assert_eq!(updated, ProjectResponse { updated_at: at(200), ..created });
}

#[test]
fn update_is_refused_for_a_missing_project_and_for_too_low_a_role() {
    let mut store = acme();
    create_project_at(&mut store, OWNER, request("Apollo", OWNER), 0xe1, at(100)).unwrap();
    let before = store.projects.clone();
    assert_eq!(
        update_project_at(&mut store, OWNER, 0xe2, no_change(), at(200)),
        Err(AppError::Project(ProjectError::ProjectNotFound(0xe2)))
    );
    assert_eq!(
        update_project_at(&mut store, VIEWER, 0xe1, no_change(), at(200)),
        Err(AppError::Organisation(OrganisationError::InsufficientRole {
            required: "member".to_string(),
            current: "viewer".to_string(),
        }))
    );
    assert_eq!(
        update_project(&mut store, STRANGER, 0xe1, no_change()),
        Err(AppError::Organisation(OrganisationError::UserNotMember(STRANGER)))
    );
    assert_eq!(store.projects, before);
}

#[test]
fn update_project_reads_the_clock() {
    let mut store = acme();
    create_project_at(&mut store, OWNER, request("Apollo", OWNER), 0xe1, at(100)).unwrap();
    let updated = update_project(
        &mut store,
        OWNER,
        0xe1,
        UpdateProjectRequest { name: Some("Artemis".to_string()), ..no_change() },
    )
    .unwrap();
    assert_eq!(updated.name, "Artemis");
    assert_eq!(updated.created_at, at(100));
    assert!(updated.updated_at.seconds > 1_600_000_000);
}

#[test]
fn archiving_twice_succeeds_twice_and_changes_nothing_the_second_time() {
    let mut store = acme();
    create_project_at(&mut store, OWNER, request("Apollo", OWNER), 0xe1, at(100)).unwrap();
    let first = set_archived_at(&mut store, OWNER, 0xe1, true, at(200)).unwrap();
    assert!(first.is_archived);
    assert_eq!(first.updated_at, at(200));
    let after_first = store.projects.clone();
    let second = set_archived_at(&mut store, OWNER, 0xe1, true, at(300)).unwrap();
    assert_eq!(second, first);
    assert_eq!(store.projects, after_first);
}

#[test]
fn archive_project_is_idempotent() {
    let mut store = acme();
    create_project_at(&mut store, OWNER, request("Apollo", OWNER), 0xe1, at(100)).unwrap();
    let first = archive_project(&mut store, MEMBER, 0xe1).unwrap();
    let after_first = store.projects.clone();
    let second = archive_project(&mut store, MEMBER, 0xe1).unwrap();
    assert!(first.is_archived);
    assert_eq!(second, first);
    assert_eq!(store.projects, after_first);
}

#[test]
fn unarchive_project_undoes_the_archival() {
    let mut store = acme();
    create_project_at(&mut store, OWNER, request("Apollo", OWNER), 0xe1, at(100)).unwrap();
    // Taking a project out of the archive that is not in it changes nothing.
    let untouched = unarchive_project(&mut store, OWNER, 0xe1).unwrap();
    assert_eq!(untouched.updated_at, at(100));
    archive_project(&mut store, OWNER, 0xe1).unwrap();
    let restored = unarchive_project(&mut store, OWNER, 0xe1).unwrap();
    assert!(!restored.is_archived);
    assert!(restored.updated_at.seconds > 1_600_000_000);
}

#[test]
fn archival_is_refused_for_a_missing_project_and_for_too_low_a_role() {
    let mut store = acme();
    create_project_at(&mut store, OWNER, request("Apollo", OWNER), 0xe1, at(100)).unwrap();
    assert_eq!(
        archive_project(&mut store, OWNER, 0xe2),
        Err(AppError::Project(ProjectError::ProjectNotFound(0xe2)))
    );
    assert_eq!(
        archive_project(&mut store, VIEWER, 0xe1),
        Err(AppError::Organisation(OrganisationError::InsufficientRole {
            required: "member".to_string(),
            current: "viewer".to_string(),
        }))
    );
    assert_eq!(
        unarchive_project(&mut store, STRANGER, 0xe1),
        Err(AppError::Organisation(OrganisationError::UserNotMember(STRANGER)))
    );
    assert!(!store.projects[0].is_archived);
}

#[test]
fn delete_removes_the_row() {
    let mut store = acme();
    create_project_at(&mut store, OWNER, request("Apollo", OWNER), 0xe1, at(100)).unwrap();
    create_project_at(&mut store, OWNER, request("Gemini", OWNER), 0xe2, at(200)).unwrap();
    assert_eq!(delete_project(&mut store, MEMBER, 0xe1), Ok(()));
    assert_eq!(store.projects.len(), 1);
    assert_eq!(store.projects[0].id, 0xe2);
    assert_eq!(
        delete_project(&mut store, MEMBER, 0xe1),
        Err(AppError::Project(ProjectError::ProjectNotFound(0xe1)))
    );
    assert!(store.is_well_formed());
}

#[test]
fn delete_needs_the_right_to_manage_projects() {
    let mut store = acme();
    create_project_at(&mut store, OWNER, request("Apollo", OWNER), 0xe1, at(100)).unwrap();
    assert_eq!(
        delete_project(&mut store, VIEWER, 0xe1),
        Err(AppError::Organisation(OrganisationError::InsufficientRole {
            required: "member".to_string(),
            current: "viewer".to_string(),
        }))
    );
    assert_eq!(store.projects.len(), 1);
}

#[test]
fn a_deletion_that_touched_no_row_found_no_project() {
    assert_eq!(
        deletion_outcome(0, 0xe1),
        Err(AppError::Project(ProjectError::ProjectNotFound(0xe1)))
    );
    assert_eq!(deletion_outcome(1, 0xe1), Ok(()));
    assert_eq!(deletion_outcome(2, 0xe1), Ok(()));
}

fn seven_projects() -> Store {
    let mut store = acme();
    // Inserted in no order of time.
    for (id, seconds) in [(1u128, 40i64), (2, 10), (3, 70), (4, 20), (5, 60), (6, 30), (7, 50)] {
        create_project_at(&mut store, OWNER, request("P", OWNER), id, at(seconds)).unwrap();
    }
    store
}

#[test]
fn listing_is_ordered_from_the_youngest_to_the_oldest() {
    let store = seven_projects();
    let all = list_projects(&store, None, &page(1, 100));
    assert_eq!(ids(&all.data), vec![3, 5, 7, 1, 6, 4, 2]);
    assert_eq!(all.pagination.total, 7);
    assert_eq!(all.pagination.total_pages, 1);
    assert!(!all.pagination.has_next);
    assert!(!all.pagination.has_prev);
}

#[test]
fn first_two_pages_partition_the_first_items() {
    let store = seven_projects();
    let first = list_projects(&store, None, &page(1, 3));
    let second = list_projects(&store, None, &page(2, 3));
    assert_eq!(ids(&first.data), vec![3, 5, 7]);
    assert_eq!(ids(&second.data), vec![1, 6, 4]);
    let mut both = first.data.clone();
    both.extend(second.data.clone());
    for pair in both.windows(2) {
        assert!(pair[0].created_at.seconds > pair[1].created_at.seconds);
    }
    let third = list_projects(&store, None, &page(3, 3));
    assert_eq!(ids(&third.data), vec![2]);
    assert_eq!(third.pagination.total, 7);
    assert_eq!(third.pagination.total_pages, 3);
    assert!(!third.pagination.has_next);
    assert!(third.pagination.has_prev);
    assert!(first.pagination.has_next);
    assert!(!first.pagination.has_prev);
    let beyond = list_projects(&store, None, &page(4, 3));
    assert!(beyond.data.is_empty());
    assert_eq!(beyond.pagination.total, 7);
}

#[test]
fn listing_does_not_depend_on_the_order_of_the_rows() {
    let store = seven_projects();
    let mut shuffled = seven_projects();
    shuffled.projects.reverse();
    shuffled.projects.swap(1, 4);
    assert!(shuffled.is_well_formed());
    for number in 1..=4 {
        assert_eq!(
            list_projects(&store, None, &page(number, 2)).data,
            list_projects(&shuffled, None, &page(number, 2)).data
        );
    }
}

#[test]
fn projects_of_one_instant_are_listed_by_identifier() {
    let mut store = acme();
    for id in [0xe3u128, 0xe1, 0xe2] {
        create_project_at(&mut store, OWNER, request("P", OWNER), id, at(100)).unwrap();
    }
    create_project_at(&mut store, OWNER, request("P", OWNER), 0xe0, at(100)).unwrap();
    store.projects[3].created_at = Timestamp { seconds: 100, nanos: 1 };
    let all = list_projects(&store, None, &page(1, 10));
    assert_eq!(ids(&all.data), vec![0xe0, 0xe1, 0xe2, 0xe3]);
}

#[test]
fn listing_selects_the_projects_of_one_organisation() {
    let mut store = seven_projects();
    create_organisation_at(&mut store, organisation("Globex", STRANGER), OTHER_ORG, 0xc9, at(5))
        .unwrap();
    let mut elsewhere = request("Q", STRANGER);
    elsewhere.organisation_id = OTHER_ORG;
    create_project_at(&mut store, STRANGER, elsewhere, 8, at(45)).unwrap();
    let everything = list_projects(&store, None, &page(1, 100));
    assert_eq!(ids(&everything.data), vec![3, 5, 7, 8, 1, 6, 4, 2]);
    let ours = list_projects(&store, Some(ORG), &page(1, 100));
    assert_eq!(ids(&ours.data), vec![3, 5, 7, 1, 6, 4, 2]);
    assert_eq!(ours.pagination.total, 7);
    let theirs = list_projects(&store, Some(OTHER_ORG), &page(1, 100));
    assert_eq!(ids(&theirs.data), vec![8]);
    assert_eq!(theirs.pagination.total, 1);
    let nobodys = list_projects(&store, Some(0xdead), &page(1, 100));
    assert!(nobodys.data.is_empty());
    assert_eq!(nobodys.pagination.total, 0);
    assert_eq!(nobodys.pagination.total_pages, 1);
}

#[test]
fn listing_clamps_the_page_and_the_page_size() {
    let store = seven_projects();
    let defaults = list_projects(&store, None, &PaginationQuery { page: None, per_page: None });
    assert_eq!(defaults.pagination.page, 1);
    assert_eq!(defaults.pagination.per_page, 10);
    assert_eq!(defaults.data.len(), 7);
    let zero = list_projects(&store, None, &page(0, 0));
    assert_eq!(zero.pagination.page, 1);
    assert_eq!(zero.pagination.per_page, 1);
    assert_eq!(ids(&zero.data), vec![3]);
    assert_eq!(zero.pagination.total_pages, 7);
    let huge = list_projects(&store, None, &page(u64::MAX, u64::MAX));
    assert_eq!(huge.pagination.page, u64::MAX);
    assert_eq!(huge.pagination.per_page, 100);
    assert!(huge.data.is_empty());
    assert_eq!(huge.pagination.total, 7);
}

#[test]
fn a_listing_shows_each_row_whole() {
    let mut store = acme();
    let created = create_project_at(&mut store, OWNER, request("Apollo", OWNER), 0xe1, at(100))
        .unwrap();
    let listed = list_projects(&store, Some(ORG), &page(1, 10));
    assert_eq!(listed.data, vec![created]);
}

#[test]
fn a_project_is_shown_whole() {
    let row = ProjectModel {
        id: 0xe1,
        name: "Apollo".to_string(),
        description: None,
        organisation_id: ORG,
        owner_id: OWNER,
        is_archived: true,
        created_at: at(1),
        updated_at: at(2),
    };
    let expected = ProjectResponse {
        id: 0xe1,
        name: "Apollo".to_string(),
        description: None,
        organisation_id: ORG,
        owner_id: OWNER,
        is_archived: true,
        created_at: at(1),
        updated_at: at(2),
    };
    assert_eq!(ProjectResponse::of_row(&row), expected);
    assert_eq!(ProjectResponse::from(row), expected);
    let plain = ProjectsListResponse { projects: vec![expected], total: 1, page: 1, per_page: 10 };
    assert_eq!(plain.projects.len(), 1);
}

#[test]
fn reading_asks_only_for_different_identifiers() {
    // Projects alone, without the organisation that they belong to.
    let mut store = seven_projects();
    store.organisations.clear();
    store.members.clear();
    assert!(!store.is_well_formed());
    assert!(store.has_unique_identifiers());
    assert_eq!(get_project(&store, 3).unwrap().created_at, at(70));
    assert_eq!(ids(&list_projects(&store, Some(ORG), &page(2, 3)).data), vec![1, 6, 4]);
}

#[test]
fn on_a_store_without_projects_an_allowed_creation_succeeds() {
    for _ in 0..20 {
        let mut store = acme();
        assert!(create_project(&mut store, MEMBER, request("Apollo", OWNER)).is_ok());
        assert_eq!(store.projects.len(), 1);
    }
}
