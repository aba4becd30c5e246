use crate::errors::{AppError, ErrorKind, ProjectError};
use crate::models::entities::{OrganisationRole, ProjectModel};
use crate::policy::Action;
use crate::services::access::{constraint_violated, constraint_violation, denies, require};
use crate::services::listing::{listing_order, rows_at};
use crate::store::{Store, StoreView};
use crate::utils::ids::fresh_id;
use crate::utils::pagination::{meta_of, page_bounds, page_window, PaginatedResponse, PaginationQuery};
use crate::utils::text::copy_optional;
use crate::utils::time::{now, Timestamp};
use vstd::prelude::*;
use vstd::std_specs::convert::FromSpecImpl;

verus! {

/// What a principal gives to create a project.
#[derive(Debug, Clone, PartialEq, Eq)]
pub struct CreateProjectRequest {
    pub name: String,
    pub description: Option<String>,
    pub slug: String,
    pub organisation_id: u128,
    /// The principal that is to own the project.
    pub owner_id: u128,
    pub is_public: bool,
}

/// A project as a client is shown it.
#[derive(Debug, Clone, PartialEq, Eq)]
pub struct ProjectResponse {
    pub id: u128,
    pub name: String,
    pub description: Option<String>,
    pub organisation_id: u128,
    pub owner_id: u128,
    pub is_archived: bool,
    pub created_at: Timestamp,
    pub updated_at: Timestamp,
}

/// A page of projects in its plain form.
#[derive(Debug, Clone, PartialEq, Eq)]
pub struct ProjectsListResponse {
    pub projects: Vec<ProjectResponse>,
    pub total: u64,
    pub page: u64,
    pub per_page: u64,
}

/// The changes that a principal asks for on a project. What is left out stays as it is;
/// a description can be set and can be taken away.
#[derive(Debug, Clone, PartialEq, Eq)]
pub struct UpdateProjectRequest {
    pub name: Option<String>,
    pub description: Option<Option<String>>,
    pub is_archived: Option<bool>,
}

impl ProjectResponse {
    /// What a client is shown of a row: all of it.
    pub open spec fn of(project: ProjectModel) -> ProjectResponse {
        ProjectResponse {
            id: project.id,
            name: project.name,
            description: project.description,
            organisation_id: project.organisation_id,
            owner_id: project.owner_id,
            is_archived: project.is_archived,
            created_at: project.created_at,
            updated_at: project.updated_at,
        }
    }

    /// What a client is shown of a row that stays where it is.
    pub fn of_row(project: &ProjectModel) -> (response: ProjectResponse)
        ensures
            response == ProjectResponse::of(*project),
    {
        ProjectResponse {
            id: project.id,
            name: project.name.clone(),
            description: copy_optional(&project.description),
            organisation_id: project.organisation_id,
            owner_id: project.owner_id,
            is_archived: project.is_archived,
            created_at: project.created_at,
            updated_at: project.updated_at,
        }
    }
}

impl From<ProjectModel> for ProjectResponse {
    fn from(project: ProjectModel) -> (response: ProjectResponse) {
        ProjectResponse {
            id: project.id,
            name: project.name,
            description: project.description,
            organisation_id: project.organisation_id,
            owner_id: project.owner_id,
            is_archived: project.is_archived,
            created_at: project.created_at,
            updated_at: project.updated_at,
        }
    }
}

impl FromSpecImpl<ProjectModel> for ProjectResponse {
    open spec fn obeys_from_spec() -> bool {
        true
    }

    open spec fn from_spec(project: ProjectModel) -> ProjectResponse {
        ProjectResponse::of(project)
    }
}

/// What a client is shown of each of a sequence of rows.
pub open spec fn responses(rows: Seq<ProjectModel>) -> Seq<ProjectResponse> {
    Seq::new(rows.len(), |k: int| ProjectResponse::of(rows[k]))
}

/// The row of a project created from `request` at the instant `now`.
pub open spec fn new_project(request: CreateProjectRequest, id: u128, now: Timestamp) -> ProjectModel {
    ProjectModel {
        id,
        name: request.name,
        description: request.description,
        organisation_id: request.organisation_id,
        owner_id: request.owner_id,
        is_archived: false,
        created_at: now,
        updated_at: now,
    }
}

/// A row after the changes of `request`, made at the instant `now`: what the request names
/// is replaced, the rest stays, and the row counts as updated at `now` whatever was named.
pub open spec fn updated_project(
    row: ProjectModel,
    request: UpdateProjectRequest,
    now: Timestamp,
) -> ProjectModel {
    ProjectModel {
        id: row.id,
        name: match request.name {
            Some(name) => name,
            None => row.name,
        },
        description: match request.description {
            Some(description) => description,
            None => row.description,
        },
        organisation_id: row.organisation_id,
        owner_id: row.owner_id,
        is_archived: match request.is_archived {
            Some(archived) => archived,
            None => row.is_archived,
        },
        created_at: row.created_at,
        updated_at: now,
    }
}

/// A row after it has been archived (`archived` is true) or taken out of the archive
/// (`archived` is false) at the instant `now`. A row that is in that state already stays
/// as it is, timestamp included.
pub open spec fn archived_project(row: ProjectModel, archived: bool, now: Timestamp) -> ProjectModel {
    if row.is_archived == archived {
        row
    } else {
        ProjectModel { is_archived: archived, updated_at: now, ..row }
    }
}

impl StoreView {
    /// `principal` can own a project of `organisation`: it is an active member of it, of
    /// member rank at least.
    pub open spec fn owner_qualifies(self, organisation: u128, principal: u128) -> bool {
        match self.active_role(organisation, principal) {
            Some(role) => role.at_least(OrganisationRole::Member),
            None => false,
        }
    }

    /// `acting` may create the project that `request` describes under the identifier
    /// `project_id`.
    pub open spec fn project_creation_permitted(
        self,
        acting: u128,
        request: CreateProjectRequest,
        project_id: u128,
    ) -> bool {
        &&& request.name@.len() > 0
        &&& self.may(acting, request.organisation_id, Action::ManageProjects)
        &&& self.owner_qualifies(request.organisation_id, request.owner_id)
        &&& !self.has_project(project_id)
    }

    /// `err` is the refusal owed to the creation of a project that is not permitted.
    pub open spec fn project_creation_refusal(
        self,
        err: AppError,
        acting: u128,
        request: CreateProjectRequest,
        project_id: u128,
    ) -> bool {
        if request.name@.len() == 0 {
            err == AppError::Project(ProjectError::InvalidName)
        } else if !self.may(acting, request.organisation_id, Action::ManageProjects) {
            denies(
                err,
                self.active_role(request.organisation_id, acting),
                acting,
                Action::ManageProjects,
            )
        } else if !self.owner_qualifies(request.organisation_id, request.owner_id) {
            err == AppError::Project(ProjectError::OwnerNotMember(request.owner_id))
        } else {
            self.has_project(project_id) && constraint_violated(err, "projects_pkey"@)
        }
    }

    /// The store after an attempt to create a project.
    pub open spec fn after_project_creation(
        self,
        acting: u128,
        request: CreateProjectRequest,
        project_id: u128,
        now: Timestamp,
    ) -> StoreView {
        if self.project_creation_permitted(acting, request, project_id) {
            self.with_new_project(new_project(request, project_id, now))
        } else {
            self
        }
    }

    /// `acting` may change, archive and delete the project `project_id`: the project exists
    /// and `acting` may manage the projects of its organisation.
    pub open spec fn project_change_permitted(self, acting: u128, project_id: u128) -> bool {
        self.has_project(project_id) && self.may(
            acting,
            self.projects[self.project_index(project_id)].organisation_id,
            Action::ManageProjects,
        )
    }

    /// `err` is the refusal owed to a change of a project that is not permitted.
    pub open spec fn project_change_refusal(self, err: AppError, acting: u128, project_id: u128) -> bool {
        if !self.has_project(project_id) {
            err == AppError::Project(ProjectError::ProjectNotFound(project_id))
        } else {
            denies(
                err,
                self.active_role(
                    self.projects[self.project_index(project_id)].organisation_id,
                    acting,
                ),
                acting,
                Action::ManageProjects,
            )
        }
    }

    /// The store after an attempt to update a project.
    pub open spec fn after_update(
        self,
        acting: u128,
        project_id: u128,
        request: UpdateProjectRequest,
        now: Timestamp,
    ) -> StoreView {
        if self.project_change_permitted(acting, project_id) {
            let i = self.project_index(project_id);
            self.with_project(i, updated_project(self.projects[i], request, now))
        } else {
            self
        }
    }

    /// The store after an attempt to archive a project or to take it out of the archive.
    pub open spec fn after_archival(
        self,
        acting: u128,
        project_id: u128,
        archived: bool,
        now: Timestamp,
    ) -> StoreView {
        if self.project_change_permitted(acting, project_id) {
            let i = self.project_index(project_id);
            self.with_project(i, archived_project(self.projects[i], archived, now))
        } else {
            self
        }
    }

    /// The store after an attempt to delete a project.
    pub open spec fn after_deletion(self, acting: u128, project_id: u128) -> StoreView {
        if self.project_change_permitted(acting, project_id) {
            self.without_project(self.project_index(project_id))
        } else {
            self
        }
    }

    /// Who may do what depends on the memberships alone.
    pub proof fn lemma_roles_follow_members(self, other: StoreView)
        requires
            self.memberships_unique(),
            other.members == self.members,
        ensures
            forall|organisation: u128, principal: u128| #[trigger]
                other.active_role(organisation, principal) == self.active_role(
                    organisation,
                    principal,
                ),
            forall|principal: u128, organisation: u128, action: Action| #[trigger]
                other.may(principal, organisation, action) == self.may(
                    principal,
                    organisation,
                    action,
                ),
    {
        assert forall|organisation: u128, principal: u128| #[trigger]
            other.active_role(organisation, principal) == self.active_role(
                organisation,
                principal,
            ) by {
            if self.has_membership(organisation, principal) {
                let i = self.membership_index(organisation, principal);
                assert(self.is_membership(i, organisation, principal));
                assert(other.is_membership(i, organisation, principal));
                other.lemma_membership_index(i, organisation, principal);
            } else if other.has_membership(organisation, principal) {
                let j = other.membership_index(organisation, principal);
                assert(other.is_membership(j, organisation, principal));
                assert(self.is_membership(j, organisation, principal));
            }
        }
    }

    /// Archiving is idempotent: a second archival of a project succeeds where the first
    /// did and leaves the store as the first left it, whenever each is made. The same holds
    /// of taking a project out of the archive.
    pub proof fn lemma_archival_idempotent(
        self,
        acting: u128,
        project_id: u128,
        archived: bool,
        first: Timestamp,
        second: Timestamp,
    )
        requires
            self.wf(),
        ensures
            self.project_change_permitted(acting, project_id) ==> self.after_archival(
                acting,
                project_id,
                archived,
                first,
            ).project_change_permitted(acting, project_id),
            self.after_archival(acting, project_id, archived, first).after_archival(
                acting,
                project_id,
                archived,
                second,
            ) == self.after_archival(acting, project_id, archived, first),
    {
        let once = self.after_archival(acting, project_id, archived, first);
        if self.project_change_permitted(acting, project_id) {
            let i = self.project_index(project_id);
            assert(self.is_project(i, project_id));
            let row = archived_project(self.projects[i], archived, first);
            self.lemma_with_project(i, row);
            assert(once.is_project(i, project_id));
            once.lemma_project_index(i, project_id);
            self.lemma_roles_follow_members(once);
            assert(once.project_change_permitted(acting, project_id));
            assert(archived_project(row, archived, second) == row);
            assert(once.projects.update(i, row) =~= once.projects);
        }
    }

    /// Creating a project keeps the rules of the store.
    pub proof fn lemma_project_creation_keeps_rules(
        self,
        acting: u128,
        request: CreateProjectRequest,
        project_id: u128,
        now: Timestamp,
    )
        requires
            self.wf(),
        ensures
            self.after_project_creation(acting, request, project_id, now).wf(),
    {
        if self.project_creation_permitted(acting, request, project_id) {
            self.lemma_may_implies_exists(acting, request.organisation_id, Action::ManageProjects);
            self.lemma_with_new_project(new_project(request, project_id, now));
        }
    }

    /// Changing a project in place, in what may change of it, keeps the rules of the store.
    pub proof fn lemma_project_change_keeps_rules(
        self,
        acting: u128,
        project_id: u128,
        request: UpdateProjectRequest,
        archived: bool,
        now: Timestamp,
    )
        requires
            self.wf(),
        ensures
            self.after_update(acting, project_id, request, now).wf(),
            self.after_archival(acting, project_id, archived, now).wf(),
            self.after_deletion(acting, project_id).wf(),
    {
        if self.project_change_permitted(acting, project_id) {
            let i = self.project_index(project_id);
            assert(self.is_project(i, project_id));
            self.lemma_with_project(i, updated_project(self.projects[i], request, now));
            self.lemma_with_project(i, archived_project(self.projects[i], archived, now));
            self.lemma_without_project(i);
        }
    }
}

/// A sequence of positions below `bound` in which none occurs twice is not longer than
/// `bound`.
proof fn lemma_order_fits(order: Seq<usize>, bound: nat)
    requires
        forall|k: int| 0 <= k < order.len() ==> (#[trigger] order[k]) < bound,
        forall|a: int, b: int| 0 <= a < b < order.len() ==> order[a] != order[b],
    ensures
        order.len() <= bound,
    decreases bound,
{
    if order.len() > 0 {
        if bound == 0 {
            assert(order[0] < bound);
        } else {
            let top = (bound - 1) as usize;
            if exists|k: int| 0 <= k < order.len() && order[k] == top {
                let k = choose|k: int| 0 <= k < order.len() && order[k] == top;
                let rest = order.remove(k);
                order.remove_ensures(k);
                assert forall|j: int| 0 <= j < rest.len() implies (#[trigger] rest[j]) < bound
                    - 1 by {
                    let j0 = if j < k { j } else { j + 1 };
                    assert(rest[j] == order[j0]);
                    assert(order[j0] != order[k]);
                }
                assert forall|a: int, b: int| 0 <= a < b < rest.len() implies rest[a]
                    != rest[b] by {
                    let a0 = if a < k { a } else { a + 1 };
                    let b0 = if b < k { b } else { b + 1 };
                    assert(rest[a] == order[a0] && rest[b] == order[b0]);
                }
                lemma_order_fits(rest, (bound - 1) as nat);
            } else {
                assert forall|j: int| 0 <= j < order.len() implies (#[trigger] order[j]) < bound
                    - 1 by {
                    assert(order[j] != top);
                }
                lemma_order_fits(order, (bound - 1) as nat);
            }
        }
    }
}

/// Creates a project under the given identifier at the given instant.
pub fn create_project_at(
    store: &mut Store,
    acting: u128,
    request: CreateProjectRequest,
    project_id: u128,
    now: Timestamp,
) -> (result: Result<ProjectResponse, AppError>)
    requires
        old(store)@.wf(),
    ensures
        final(store)@ == old(store)@.after_project_creation(acting, request, project_id, now),
        final(store)@.wf(),
        result is Err ==> final(store)@ == old(store)@,
        result is Ok <==> old(store)@.project_creation_permitted(acting, request, project_id),
        result matches Ok(project) ==> project == ProjectResponse::of(
            new_project(request, project_id, now),
        ),
        result matches Err(err) ==> old(store)@.project_creation_refusal(
            err,
            acting,
            request,
            project_id,
        ),
{
    proof {
        old(store)@.lemma_project_creation_keeps_rules(acting, request, project_id, now);
    }
    if request.name.as_str().is_empty() {
        return Err(AppError::Project(ProjectError::InvalidName));
    }
    match require(store, acting, request.organisation_id, Action::ManageProjects) {
        Err(err) => {
            return Err(err);
        },
        Ok(()) => {},
    }
    let qualifies: bool = match store.active_role(request.organisation_id, request.owner_id) {
        Some(role) => role.is_at_least(OrganisationRole::Member),
        None => false,
    };
    if !qualifies {
        return Err(AppError::Project(ProjectError::OwnerNotMember(request.owner_id)));
    }
    if store.find_project(project_id).is_some() {
        return Err(constraint_violation("projects_pkey"));
    }
    let project = ProjectModel {
        id: project_id,
        name: request.name,
        description: request.description,
        organisation_id: request.organisation_id,
        owner_id: request.owner_id,
        is_archived: false,
        created_at: now,
        updated_at: now,
    };
    let response = ProjectResponse::of_row(&project);
    store.projects.push(project);
    assert(store@ =~= old(store)@.with_new_project(project));
    Ok(response)
}

/// Creates a project in the organisation that `request` names. The identifier is drawn at
/// random and the instant is read from the clock.
///
/// Refused where the name is empty, where `acting` may not manage the projects of the
/// organisation, and where the principal named as owner is no active member of the
/// organisation of member rank at least; nothing else is refused but an identifier that is
/// taken already, so that on a store without projects every other request succeeds. A
/// refused creation adds no row.
pub fn create_project(store: &mut Store, acting: u128, request: CreateProjectRequest) -> (result:
    Result<ProjectResponse, AppError>)
    requires
        old(store)@.wf(),
    ensures
        final(store)@.wf(),
        match result {
            Ok(project) => {
                &&& old(store)@.project_creation_permitted(acting, request, project.id)
                &&& project == ProjectResponse::of(
                    new_project(request, project.id, project.created_at),
                )
                &&& final(store)@ == old(store)@.with_new_project(
                    new_project(request, project.id, project.created_at),
                )
            },
            Err(err) => {
                &&& final(store)@ == old(store)@
                &&& exists|id: u128|
                    old(store)@.project_creation_refusal(err, acting, request, id)
            },
        },
        request.name@.len() == 0 || !old(store)@.may(
            acting,
            request.organisation_id,
            Action::ManageProjects,
        ) || !old(store)@.owner_qualifies(request.organisation_id, request.owner_id)
            ==> result is Err,
        request.name@.len() > 0 && old(store)@.may(
            acting,
            request.organisation_id,
            Action::ManageProjects,
        ) && old(store)@.owner_qualifies(request.organisation_id, request.owner_id) && old(
            store,
        )@.projects.len() == 0 ==> result is Ok,
{
    let instant = now();
    let project_id = fresh_id();
    proof {
        if old(store)@.projects.len() == 0 {
            assert(!old(store)@.has_project(project_id));
        }
    }
    create_project_at(store, acting, request, project_id, instant)
}

/// Looks a project up by its identifier.
pub fn get_project(store: &Store, project_id: u128) -> (result: Result<ProjectResponse, AppError>)
    requires
        store@.identifiers_unique(),
    ensures
        result is Ok <==> store@.has_project(project_id),
        result matches Ok(project) ==> project == ProjectResponse::of(
            store@.projects[store@.project_index(project_id)],
        ),
        result matches Err(err) ==> err == AppError::Project(
            ProjectError::ProjectNotFound(project_id),
        ),
{
    match store.find_project(project_id) {
        Some(i) => {
            proof {
                store@.lemma_project_index(i as int, project_id);
            }
            Ok(ProjectResponse::of_row(&store.projects[i]))
        },
        None => Err(AppError::Project(ProjectError::ProjectNotFound(project_id))),
    }
}

/// The row of the project `project_id`, where `acting` may change it.
fn find_changeable(store: &Store, acting: u128, project_id: u128) -> (result: Result<
    usize,
    AppError,
>)
    requires
        store@.wf(),
    ensures
        result is Ok <==> store@.project_change_permitted(acting, project_id),
        result matches Ok(i) ==> store@.is_project(i as int, project_id) && i
            == store@.project_index(project_id),
        result matches Err(err) ==> store@.project_change_refusal(err, acting, project_id),
{
    match store.find_project(project_id) {
        None => Err(AppError::Project(ProjectError::ProjectNotFound(project_id))),
        Some(i) => {
            proof {
                store@.lemma_project_index(i as int, project_id);
            }
            match require(store, acting, store.projects[i].organisation_id, Action::ManageProjects) {
                Err(err) => Err(err),
                Ok(()) => Ok(i),
            }
        },
    }
}

/// Applies the changes of `request` to the project `project_id` at the given instant.
pub fn update_project_at(
    store: &mut Store,
    acting: u128,
    project_id: u128,
    request: UpdateProjectRequest,
    now: Timestamp,
) -> (result: Result<ProjectResponse, AppError>)
    requires
        old(store)@.wf(),
    ensures
        final(store)@ == old(store)@.after_update(acting, project_id, request, now),
        final(store)@.wf(),
        result is Err ==> final(store)@ == old(store)@,
        result is Ok <==> old(store)@.project_change_permitted(acting, project_id),
        result matches Ok(project) ==> project == ProjectResponse::of(
            updated_project(
                old(store)@.projects[old(store)@.project_index(project_id)],
                request,
                now,
            ),
        ),
        result matches Err(err) ==> old(store)@.project_change_refusal(err, acting, project_id),
{
    proof {
        old(store)@.lemma_project_change_keeps_rules(acting, project_id, request, false, now);
    }
    let i: usize = match find_changeable(store, acting, project_id) {
        Err(err) => {
            return Err(err);
        },
        Ok(i) => i,
    };
    let row = store.projects.remove(i);
    let project = ProjectModel {
        id: row.id,
        name: match request.name {
            Some(name) => name,
            None => row.name,
        },
        description: match request.description {
            Some(description) => description,
            None => row.description,
        },
        organisation_id: row.organisation_id,
        owner_id: row.owner_id,
        is_archived: match request.is_archived {
            Some(archived) => archived,
            None => row.is_archived,
        },
        created_at: row.created_at,
        updated_at: now,
    };
    let response = ProjectResponse::of_row(&project);
    store.projects.insert(i, project);
    assert(store.projects@ =~= old(store).projects@.update(i as int, project));
    Ok(response)
}

/// Applies the changes of `request` to the project `project_id`; the instant is read from
/// the clock.
///
/// Only what the request names changes, and the project counts as updated at that instant
/// whatever was named. Refused where the project does not exist and where `acting` may not
/// manage the projects of its organisation.
pub fn update_project(
    store: &mut Store,
    acting: u128,
    project_id: u128,
    request: UpdateProjectRequest,
) -> (result: Result<ProjectResponse, AppError>)
    requires
        old(store)@.wf(),
    ensures
        final(store)@.wf(),
        result is Ok <==> old(store)@.project_change_permitted(acting, project_id),
        result matches Ok(project) ==> project == ProjectResponse::of(
            updated_project(
                old(store)@.projects[old(store)@.project_index(project_id)],
                request,
                project.updated_at,
            ),
        ) && final(store)@ == old(store)@.after_update(
            acting,
            project_id,
            request,
            project.updated_at,
        ),
        result matches Err(err) ==> final(store)@ == old(store)@ && old(
            store,
        )@.project_change_refusal(err, acting, project_id),
{
    let instant = now();
    update_project_at(store, acting, project_id, request, instant)
}

/// Archives the project `project_id` (`archived` is true) or takes it out of the archive
/// (`archived` is false) at the given instant.
pub fn set_archived_at(
    store: &mut Store,
    acting: u128,
    project_id: u128,
    archived: bool,
    now: Timestamp,
) -> (result: Result<ProjectResponse, AppError>)
    requires
        old(store)@.wf(),
    ensures
        final(store)@ == old(store)@.after_archival(acting, project_id, archived, now),
        final(store)@.wf(),
        result is Err ==> final(store)@ == old(store)@,
        result is Ok <==> old(store)@.project_change_permitted(acting, project_id),
        result matches Ok(project) ==> project == ProjectResponse::of(
            archived_project(
                old(store)@.projects[old(store)@.project_index(project_id)],
                archived,
                now,
            ),
        ),
        result matches Err(err) ==> old(store)@.project_change_refusal(err, acting, project_id),
{
    proof {
        old(store)@.lemma_project_change_keeps_rules(
            acting,
            project_id,
            UpdateProjectRequest { name: None, description: None, is_archived: None },
            archived,
            now,
        );
    }
    let i: usize = match find_changeable(store, acting, project_id) {
        Err(err) => {
            return Err(err);
        },
        Ok(i) => i,
    };
    if store.projects[i].is_archived != archived {
        let mut row = store.projects.remove(i);
        row.is_archived = archived;
        row.updated_at = now;
        store.projects.insert(i, row);
        assert(store.projects@ =~= old(store).projects@.update(i as int, row));
    } else {
        assert(store.projects@ =~= old(store).projects@.update(
            i as int,
            old(store).projects@[i as int],
        ));
    }
    Ok(ProjectResponse::of_row(&store.projects[i]))
}

/// Archives the project `project_id`; the instant is read from the clock.
///
/// Archiving a project that is archived already succeeds and changes nothing. Refused
/// where the project does not exist and where `acting` may not manage the projects of its
/// organisation.
pub fn archive_project(store: &mut Store, acting: u128, project_id: u128) -> (result: Result<
    ProjectResponse,
    AppError,
>)
    requires
        old(store)@.wf(),
    ensures
        final(store)@.wf(),
        result is Ok <==> old(store)@.project_change_permitted(acting, project_id),
        result matches Ok(project) ==> project.is_archived && project == ProjectResponse::of(
            archived_project(
                old(store)@.projects[old(store)@.project_index(project_id)],
                true,
                project.updated_at,
            ),
        ) && final(store)@ == old(store)@.after_archival(
            acting,
            project_id,
            true,
            project.updated_at,
        ),
        result matches Err(err) ==> final(store)@ == old(store)@ && old(
            store,
        )@.project_change_refusal(err, acting, project_id),
{
    let instant = now();
    set_archived_at(store, acting, project_id, true, instant)
}

/// Takes the project `project_id` out of the archive; the instant is read from the clock.
///
/// Doing so to a project that is not archived succeeds and changes nothing. Refused where
/// the project does not exist and where `acting` may not manage the projects of its
/// organisation.
pub fn unarchive_project(store: &mut Store, acting: u128, project_id: u128) -> (result: Result<
    ProjectResponse,
    AppError,
>)
    requires
        old(store)@.wf(),
    ensures
        final(store)@.wf(),
        result is Ok <==> old(store)@.project_change_permitted(acting, project_id),
        result matches Ok(project) ==> !project.is_archived && project == ProjectResponse::of(
            archived_project(
                old(store)@.projects[old(store)@.project_index(project_id)],
                false,
                project.updated_at,
            ),
        ) && final(store)@ == old(store)@.after_archival(
            acting,
            project_id,
            false,
            project.updated_at,
        ),
        result matches Err(err) ==> final(store)@ == old(store)@ && old(
            store,
        )@.project_change_refusal(err, acting, project_id),
{
    let instant = now();
    set_archived_at(store, acting, project_id, false, instant)
}

/// One page of the projects that `organisation` selects (all projects where it is
/// `None`), the youngest first and, of two created at one instant, the one with the smaller
/// identifier first.
///
/// The page is counted from 1 and is the first where the query names none or names page 0;
/// a page holds 10 projects where the query names no size, and never fewer than 1 or more
/// than 100. The total counts every selected project, whatever the page.
pub fn list_projects(store: &Store, organisation: Option<u128>, query: &PaginationQuery) -> (response:
    PaginatedResponse<ProjectResponse>)
    requires
        store@.identifiers_unique(),
    ensures
        response.data@ == responses(
            page_window(
                store@.listing(organisation),
                query.spec_page() as int,
                query.spec_per_page() as int,
            ),
        ),
        response.pagination == meta_of(
            store@.listing(organisation).len() as u64,
            query.spec_page(),
            query.spec_per_page(),
        ),
        store@.listing(organisation).len() <= store@.projects.len(),
{
    let page: u64 = query.page();
    let per_page: u64 = query.per_page();
    let order = listing_order(store, organisation);
    let bounds = page_bounds(order.len(), page, per_page);
    let ghost listing = store@.listing(organisation);
    let ghost window = page_window(listing, page as int, per_page as int);
    proof {
        assert(listing.len() == order@.len());
        assert(window =~= listing.subrange(bounds.0 as int, bounds.1 as int));
    }
    let mut data: Vec<ProjectResponse> = Vec::new();
    let mut k: usize = bounds.0;
    while k < bounds.1
        invariant
            bounds.0 <= k <= bounds.1 <= order@.len(),
            listing == rows_at(store@.projects, order@),
            forall|j: int| 0 <= j < order@.len() ==> (#[trigger] order@[j]) < store@.projects.len(),
            data@.len() == k - bounds.0,
            forall|j: int|
                0 <= j < data@.len() ==> #[trigger] data@[j] == ProjectResponse::of(
                    listing[bounds.0 + j],
                ),
        decreases bounds.1 - k,
    {
        data.push(ProjectResponse::of_row(&store.projects[order[k]]));
        k += 1;
    }
    assert(data@ =~= responses(window));
    proof {
        assert forall|a: int, b: int| 0 <= a < b < order@.len() implies order@[a] != order@[b] by {
            assert(listing[a].precedes(listing[b]));
        }
        lemma_order_fits(order@, store@.projects.len());
    }
    PaginatedResponse::new(data, order.len() as u64, page, per_page)
}

/// What a deletion that touched `rows_affected` rows amounts to: a deletion that touched no
/// row found no project.
pub fn deletion_outcome(rows_affected: u64, project_id: u128) -> (result: Result<(), AppError>)
    ensures
        result is Ok <==> rows_affected != 0,
        result matches Err(err) ==> err == AppError::Project(
            ProjectError::ProjectNotFound(project_id),
        ),
{
    if rows_affected == 0 {
        return Err(AppError::Project(ProjectError::ProjectNotFound(project_id)));
    }
    Ok(())
}

/// Deletes the project `project_id`: its row is gone.
///
/// Refused where no row was there to delete and where `acting` may not manage the projects
/// of the project's organisation.
pub fn delete_project(store: &mut Store, acting: u128, project_id: u128) -> (result: Result<
    (),
    AppError,
>)
    requires
        old(store)@.wf(),
    ensures
        final(store)@ == old(store)@.after_deletion(acting, project_id),
        final(store)@.wf(),
        result is Err ==> final(store)@ == old(store)@,
        result is Ok <==> old(store)@.project_change_permitted(acting, project_id),
        result is Ok ==> !final(store)@.has_project(project_id),
        result matches Err(err) ==> old(store)@.project_change_refusal(err, acting, project_id),
{
    proof {
        old(store)@.lemma_project_change_keeps_rules(
            acting,
            project_id,
            UpdateProjectRequest { name: None, description: None, is_archived: None },
            false,
            Timestamp { seconds: 0, nanos: 0 },
        );
    }
    let rows_affected: u64 = match store.find_project(project_id) {
        None => 0,
        Some(i) => {
            proof {
                store@.lemma_project_index(i as int, project_id);
                store@.lemma_without_project(i as int);
            }
            match require(store, acting, store.projects[i].organisation_id, Action::ManageProjects) {
                Err(err) => {
                    return Err(err);
                },
                Ok(()) => {},
            }
            let _ = store.projects.remove(i);
            1
        },
    };
    deletion_outcome(rows_affected, project_id)
}

} // verus!
