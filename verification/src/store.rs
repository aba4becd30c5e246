use crate::models::entities::{
    OrganisationMemberModel, OrganisationModel, OrganisationRole, ProjectModel,
};
use crate::policy::{permits, Action};
use vstd::prelude::*;

verus! {

/// The rows of the three tables as the services see them: a snapshot of the persistent
/// store, on which every operation of the services is carried out.
///
/// The services that change rows take a store whose rows obey the rules of
/// [`StoreView::wf`] and leave one; those that only read ask for different identifiers
/// alone. [`Store::new`] and the services give such stores; rows that come from elsewhere
/// are tested by [`Store::from_rows`], [`Store::is_well_formed`] or
/// [`Store::has_unique_identifiers`].
#[derive(Debug)]
pub struct Store {
    pub organisations: Vec<OrganisationModel>,
    pub members: Vec<OrganisationMemberModel>,
    pub projects: Vec<ProjectModel>,
}

/// The mathematical content of a [`Store`]: the rows of each table in the order in which
/// they were inserted.
pub struct StoreView {
    pub organisations: Seq<OrganisationModel>,
    pub members: Seq<OrganisationMemberModel>,
    pub projects: Seq<ProjectModel>,
}

impl View for Store {
    type V = StoreView;

    open spec fn view(&self) -> StoreView {
        StoreView {
            organisations: self.organisations@,
            members: self.members@,
            projects: self.projects@,
        }
    }
}

impl StoreView {
    /// Row `i` of the organisations has the identifier `id`.
    pub open spec fn is_organisation(self, i: int, id: u128) -> bool {
        0 <= i < self.organisations.len() && self.organisations[i].id == id
    }

    /// Some organisation has the identifier `id`.
    pub open spec fn has_organisation(self, id: u128) -> bool {
        exists|i: int| self.is_organisation(i, id)
    }

    /// Row `i` of the memberships has the identifier `id`.
    pub open spec fn is_member_id(self, i: int, id: u128) -> bool {
        0 <= i < self.members.len() && self.members[i].id == id
    }

    /// Some membership has the identifier `id`.
    pub open spec fn has_member_id(self, id: u128) -> bool {
        exists|i: int| self.is_member_id(i, id)
    }

    /// Row `i` of the memberships is the membership `id` of the organisation `organisation`.
    pub open spec fn is_member_of(self, i: int, organisation: u128, id: u128) -> bool {
        self.is_member_id(i, id) && self.members[i].organisation_id == organisation
    }

    /// The organisation `organisation` has a membership with the identifier `id`.
    pub open spec fn has_member_of(self, organisation: u128, id: u128) -> bool {
        exists|i: int| self.is_member_of(i, organisation, id)
    }

    /// The row of the membership `id` of the organisation `organisation`.
    pub open spec fn member_index(self, organisation: u128, id: u128) -> int {
        choose|i: int| self.is_member_of(i, organisation, id)
    }

    /// Row `i` of the memberships is the one that `principal` holds in `organisation`.
    pub open spec fn is_membership(self, i: int, organisation: u128, principal: u128) -> bool {
        0 <= i < self.members.len() && self.members[i].organisation_id == organisation
            && self.members[i].identity_id == principal
    }

    /// `principal` holds a membership in `organisation`, active or not.
    pub open spec fn has_membership(self, organisation: u128, principal: u128) -> bool {
        exists|i: int| self.is_membership(i, organisation, principal)
    }

    /// The row of the membership that `principal` holds in `organisation`.
    pub open spec fn membership_index(self, organisation: u128, principal: u128) -> int {
        choose|i: int| self.is_membership(i, organisation, principal)
    }

    /// The role in which `principal` is an active member of `organisation`, if it is one.
    pub open spec fn active_role(self, organisation: u128, principal: u128) -> Option<
        OrganisationRole,
    > {
        if self.has_membership(organisation, principal) && self.members[self.membership_index(
            organisation,
            principal,
        )].is_active {
            Some(self.members[self.membership_index(organisation, principal)].role)
        } else {
            None
        }
    }

    /// `principal` is an active member of `organisation` in a role that permits `action`.
    pub open spec fn may(self, principal: u128, organisation: u128, action: Action) -> bool {
        match self.active_role(organisation, principal) {
            Some(role) => permits(role, action),
            None => false,
        }
    }

    /// Row `i` of the memberships is an active owner of `organisation`.
    pub open spec fn is_active_owner(self, i: int, organisation: u128) -> bool {
        0 <= i < self.members.len() && self.members[i].is_active_owner_of(organisation)
    }

    /// `organisation` has at least one active owner.
    pub open spec fn has_active_owner(self, organisation: u128) -> bool {
        exists|i: int| self.is_active_owner(i, organisation)
    }

    /// Row `i` of the memberships is an active owner of `organisation`, and the only one.
    pub open spec fn is_sole_active_owner(self, i: int, organisation: u128) -> bool {
        self.is_active_owner(i, organisation) && forall|j: int|
            self.is_active_owner(j, organisation) ==> j == i
    }

    /// Row `i` of the projects has the identifier `id`.
    pub open spec fn is_project(self, i: int, id: u128) -> bool {
        0 <= i < self.projects.len() && self.projects[i].id == id
    }

    /// Some project has the identifier `id`.
    pub open spec fn has_project(self, id: u128) -> bool {
        exists|i: int| self.is_project(i, id)
    }

    /// The row of the project `id`.
    pub open spec fn project_index(self, id: u128) -> int {
        choose|i: int| self.is_project(i, id)
    }

    /// No two rows of a table share an identifier.
    pub open spec fn identifiers_unique(self) -> bool {
        &&& forall|i: int, j: int|
            0 <= i < j < self.organisations.len() ==> (#[trigger] self.organisations[i]).id != (
            #[trigger] self.organisations[j]).id
        &&& forall|i: int, j: int|
            0 <= i < j < self.members.len() ==> (#[trigger] self.members[i]).id != (
            #[trigger] self.members[j]).id
        &&& forall|i: int, j: int|
            0 <= i < j < self.projects.len() ==> (#[trigger] self.projects[i]).id != (
            #[trigger] self.projects[j]).id
    }

    /// A principal holds at most one membership in an organisation.
    pub open spec fn memberships_unique(self) -> bool {
        forall|i: int, j: int|
            0 <= i < j < self.members.len() ==> !((#[trigger] self.members[i]).organisation_id
                == (#[trigger] self.members[j]).organisation_id && self.members[i].identity_id
                == self.members[j].identity_id)
    }

    /// Every membership and every project belongs to an organisation that exists.
    pub open spec fn references_resolve(self) -> bool {
        &&& forall|i: int|
            0 <= i < self.members.len() ==> self.has_organisation(
                (#[trigger] self.members[i]).organisation_id,
            )
        &&& forall|i: int|
            0 <= i < self.projects.len() ==> self.has_organisation(
                (#[trigger] self.projects[i]).organisation_id,
            )
    }

    /// The owner invariant: every organisation has at least one active owner.
    pub open spec fn every_organisation_owned(self) -> bool {
        forall|i: int|
            0 <= i < self.organisations.len() ==> self.has_active_owner(
                (#[trigger] self.organisations[i]).id,
            )
    }

    /// The rules that the rows obey at all times: identifiers are unique, a principal has at
    /// most one membership per organisation, references resolve, and every organisation has
    /// an active owner.
    pub open spec fn wf(self) -> bool {
        &&& self.identifiers_unique()
        &&& self.memberships_unique()
        &&& self.references_resolve()
        &&& self.every_organisation_owned()
    }

    /// The store with one more organisation and the membership of its first owner.
    pub open spec fn with_organisation(
        self,
        organisation: OrganisationModel,
        owner: OrganisationMemberModel,
    ) -> StoreView {
        StoreView {
            organisations: self.organisations.push(organisation),
            members: self.members.push(owner),
            projects: self.projects,
        }
    }

    /// The store with one more membership.
    pub open spec fn with_new_member(self, member: OrganisationMemberModel) -> StoreView {
        StoreView {
            organisations: self.organisations,
            members: self.members.push(member),
            projects: self.projects,
        }
    }

    /// The store with `member` in place of the membership in row `i`.
    pub open spec fn with_member(self, i: int, member: OrganisationMemberModel) -> StoreView {
        StoreView {
            organisations: self.organisations,
            members: self.members.update(i, member),
            projects: self.projects,
        }
    }

    /// The store with one more project.
    pub open spec fn with_new_project(self, project: ProjectModel) -> StoreView {
        StoreView {
            organisations: self.organisations,
            members: self.members,
            projects: self.projects.push(project),
        }
    }

    /// The store with `project` in place of the project in row `i`.
    pub open spec fn with_project(self, i: int, project: ProjectModel) -> StoreView {
        StoreView {
            organisations: self.organisations,
            members: self.members,
            projects: self.projects.update(i, project),
        }
    }

    /// The store without the project in row `i`.
    pub open spec fn without_project(self, i: int) -> StoreView {
        StoreView {
            organisations: self.organisations,
            members: self.members,
            projects: self.projects.remove(i),
        }
    }

    /// A new organisation may be added together with an active owner of it, where both
    /// identifiers are new.
    pub proof fn lemma_with_organisation(
        self,
        organisation: OrganisationModel,
        owner: OrganisationMemberModel,
    )
        requires
            self.wf(),
            !self.has_organisation(organisation.id),
            !self.has_member_id(owner.id),
            owner.is_active_owner_of(organisation.id),
        ensures
            self.with_organisation(organisation, owner).wf(),
    {
        let next = self.with_organisation(organisation, owner);
        let n = self.organisations.len() as int;
        let m = self.members.len() as int;
        assert forall|i: int| 0 <= i < n implies (#[trigger] self.organisations[i]).id
            != organisation.id by {
            assert(!self.is_organisation(i, organisation.id));
        }
        assert forall|i: int| 0 <= i < m implies (#[trigger] self.members[i]).id != owner.id by {
            assert(!self.is_member_id(i, owner.id));
        }
        assert forall|i: int| 0 <= i < m implies (#[trigger] self.members[i]).organisation_id
            != organisation.id by {
            let k = choose|k: int| self.is_organisation(k, self.members[i].organisation_id);
            assert(self.is_organisation(k, self.members[i].organisation_id));
            assert(!self.is_organisation(k, organisation.id));
        }
        assert(next.identifiers_unique());
        assert(next.memberships_unique());
        assert forall|id: u128| self.has_organisation(id) implies next.has_organisation(id) by {
            let k = choose|k: int| self.is_organisation(k, id);
            assert(next.is_organisation(k, id));
        }
        assert(next.is_organisation(n, organisation.id));
        assert(next.references_resolve()) by {
            assert forall|i: int| 0 <= i < next.members.len() implies next.has_organisation(
                (#[trigger] next.members[i]).organisation_id,
            ) by {
                if i < m {
                    assert(next.members[i] == self.members[i]);
                }
            }
            assert forall|i: int| 0 <= i < next.projects.len() implies next.has_organisation(
                (#[trigger] next.projects[i]).organisation_id,
            ) by {
                assert(next.projects[i] == self.projects[i]);
            }
        }
        assert forall|i: int| 0 <= i < next.organisations.len() implies next.has_active_owner(
            (#[trigger] next.organisations[i]).id,
        ) by {
            if i < n {
                assert(next.organisations[i] == self.organisations[i]);
                let k = choose|k: int| self.is_active_owner(k, self.organisations[i].id);
                assert(self.is_active_owner(k, self.organisations[i].id));
                assert(next.is_active_owner(k, self.organisations[i].id));
            } else {
                assert(next.is_active_owner(m, organisation.id));
            }
        }
    }

    /// A membership may be added where its identifier is new, its principal holds none in
    /// its organisation yet, and its organisation exists.
    pub proof fn lemma_with_new_member(self, member: OrganisationMemberModel)
        requires
            self.wf(),
            !self.has_member_id(member.id),
            !self.has_membership(member.organisation_id, member.identity_id),
            self.has_organisation(member.organisation_id),
        ensures
            self.with_new_member(member).wf(),
    {
        let next = self.with_new_member(member);
        let m = self.members.len() as int;
        assert forall|i: int| 0 <= i < m implies (#[trigger] self.members[i]).id != member.id by {
            assert(!self.is_member_id(i, member.id));
        }
        assert forall|i: int| 0 <= i < m implies !((#[trigger] self.members[i]).organisation_id
            == member.organisation_id && self.members[i].identity_id == member.identity_id) by {
            assert(!self.is_membership(i, member.organisation_id, member.identity_id));
        }
        assert(next.identifiers_unique());
        assert(next.memberships_unique());
        assert forall|id: u128| self.has_organisation(id) implies next.has_organisation(id) by {
            let k = choose|k: int| self.is_organisation(k, id);
            assert(next.is_organisation(k, id));
        }
        assert(next.references_resolve()) by {
            assert forall|i: int| 0 <= i < next.members.len() implies next.has_organisation(
                (#[trigger] next.members[i]).organisation_id,
            ) by {
                if i < m {
                    assert(next.members[i] == self.members[i]);
                }
            }
        }
        assert forall|i: int| 0 <= i < next.organisations.len() implies next.has_active_owner(
            (#[trigger] next.organisations[i]).id,
        ) by {
            let k = choose|k: int| self.is_active_owner(k, self.organisations[i].id);
            assert(self.is_active_owner(k, self.organisations[i].id));
            assert(next.is_active_owner(k, self.organisations[i].id));
        }
    }

    /// A membership may be changed in place where it keeps its identifier, organisation and
    /// principal, and where it does not take the last active owner from its organisation.
    pub proof fn lemma_with_member(self, i: int, member: OrganisationMemberModel)
        requires
            self.wf(),
            0 <= i < self.members.len(),
            member.id == self.members[i].id,
            member.organisation_id == self.members[i].organisation_id,
            member.identity_id == self.members[i].identity_id,
            member.is_active_owner_of(member.organisation_id) || !self.is_sole_active_owner(
                i,
                member.organisation_id,
            ),
        ensures
            self.with_member(i, member).wf(),
    {
        let next = self.with_member(i, member);
        assert(next.identifiers_unique());
        assert(next.memberships_unique());
        assert forall|id: u128| self.has_organisation(id) implies next.has_organisation(id) by {
            let k = choose|k: int| self.is_organisation(k, id);
            assert(next.is_organisation(k, id));
        }
        assert(next.references_resolve()) by {
            assert forall|j: int| 0 <= j < next.members.len() implies next.has_organisation(
                (#[trigger] next.members[j]).organisation_id,
            ) by {
                assert(next.members[j].organisation_id == self.members[j].organisation_id);
            }
        }
        assert forall|o: int| 0 <= o < next.organisations.len() implies next.has_active_owner(
            (#[trigger] next.organisations[o]).id,
        ) by {
            let id = self.organisations[o].id;
            let k = choose|k: int| self.is_active_owner(k, id);
            assert(self.is_active_owner(k, id));
            if k != i {
                assert(next.is_active_owner(k, id));
            } else if member.is_active_owner_of(member.organisation_id) {
                assert(next.is_active_owner(i, id));
            } else {
                assert(!self.is_sole_active_owner(i, id));
                let j = choose|j: int| self.is_active_owner(j, id) && j != i;
                assert(self.is_active_owner(j, id) && j != i);
                assert(next.is_active_owner(j, id));
            }
        }
    }

    /// What exists among the organisations, and who owns them, does not depend on the
    /// projects.
    proof fn lemma_projects_apart(self, next: StoreView)
        requires
            next.organisations == self.organisations,
            next.members == self.members,
        ensures
            forall|id: u128| #[trigger] self.has_organisation(id) ==> next.has_organisation(id),
            forall|id: u128| #[trigger] self.has_active_owner(id) ==> next.has_active_owner(id),
    {
        assert forall|id: u128| #[trigger] self.has_organisation(id) implies next.has_organisation(
            id,
        ) by {
            let k = choose|k: int| self.is_organisation(k, id);
            assert(next.is_organisation(k, id));
        }
        assert forall|id: u128| #[trigger] self.has_active_owner(id) implies next.has_active_owner(
            id,
        ) by {
            let k = choose|k: int| self.is_active_owner(k, id);
            assert(next.is_active_owner(k, id));
        }
    }

    /// A project may be added where its identifier is new and its organisation exists.
    pub proof fn lemma_with_new_project(self, project: ProjectModel)
        requires
            self.wf(),
            !self.has_project(project.id),
            self.has_organisation(project.organisation_id),
        ensures
            self.with_new_project(project).wf(),
    {
        let next = self.with_new_project(project);
        let n = self.projects.len() as int;
        self.lemma_projects_apart(next);
        assert forall|i: int| 0 <= i < n implies (#[trigger] self.projects[i]).id
            != project.id by {
            assert(!self.is_project(i, project.id));
        }
        assert(next.identifiers_unique());
        assert(next.references_resolve()) by {
            assert forall|i: int| 0 <= i < next.projects.len() implies next.has_organisation(
                (#[trigger] next.projects[i]).organisation_id,
            ) by {
                if i < n {
                    assert(next.projects[i] == self.projects[i]);
                }
            }
        }
        assert forall|o: int| 0 <= o < next.organisations.len() implies next.has_active_owner(
            (#[trigger] next.organisations[o]).id,
        ) by {
            assert(self.has_active_owner(self.organisations[o].id));
        }
    }

    /// A project may be changed in place where it keeps its identifier and organisation.
    pub proof fn lemma_with_project(self, i: int, project: ProjectModel)
        requires
            self.wf(),
            0 <= i < self.projects.len(),
            project.id == self.projects[i].id,
            project.organisation_id == self.projects[i].organisation_id,
        ensures
            self.with_project(i, project).wf(),
    {
        let next = self.with_project(i, project);
        self.lemma_projects_apart(next);
        assert(next.identifiers_unique());
        assert(next.references_resolve()) by {
            assert forall|j: int| 0 <= j < next.projects.len() implies next.has_organisation(
                (#[trigger] next.projects[j]).organisation_id,
            ) by {
                assert(next.projects[j].organisation_id == self.projects[j].organisation_id);
            }
        }
        assert forall|o: int| 0 <= o < next.organisations.len() implies next.has_active_owner(
            (#[trigger] next.organisations[o]).id,
        ) by {
            assert(self.has_active_owner(self.organisations[o].id));
        }
    }

    /// Any project may be taken out.
    pub proof fn lemma_without_project(self, i: int)
        requires
            self.wf(),
            0 <= i < self.projects.len(),
        ensures
            self.without_project(i).wf(),
            !self.without_project(i).has_project(self.projects[i].id),
    {
        let next = self.without_project(i);
        self.lemma_projects_apart(next);
        assert forall|j: int| 0 <= j < next.projects.len() implies #[trigger] next.projects[j]
            == self.projects[if j < i {
            j
        } else {
            j + 1
        }] by {}
        assert(next.identifiers_unique()) by {
            assert forall|a: int, b: int| 0 <= a < b < next.projects.len() implies (
            #[trigger] next.projects[a]).id != (#[trigger] next.projects[b]).id by {
                let a0 = if a < i { a } else { a + 1 };
                let b0 = if b < i { b } else { b + 1 };
                assert(self.projects[a0].id != self.projects[b0].id);
            }
        }
        assert(next.references_resolve()) by {
            assert forall|j: int| 0 <= j < next.projects.len() implies next.has_organisation(
                (#[trigger] next.projects[j]).organisation_id,
            ) by {
                let j0 = if j < i { j } else { j + 1 };
                assert(self.has_organisation(self.projects[j0].organisation_id));
            }
        }
        assert forall|o: int| 0 <= o < next.organisations.len() implies next.has_active_owner(
            (#[trigger] next.organisations[o]).id,
        ) by {
            assert(self.has_active_owner(self.organisations[o].id));
        }
        assert forall|j: int| !next.is_project(j, self.projects[i].id) by {
            if 0 <= j < next.projects.len() {
                let j0 = if j < i { j } else { j + 1 };
                if j0 < i {
                    assert(self.projects[j0].id != self.projects[i].id);
                } else {
                    assert(self.projects[i].id != self.projects[j0].id);
                }
            }
        }
    }

    /// Under the rules, a row that is the membership of a principal in an organisation is
    /// the one that `membership_index` names.
    pub proof fn lemma_membership_index(self, i: int, organisation: u128, principal: u128)
        requires
            self.memberships_unique(),
            self.is_membership(i, organisation, principal),
        ensures
            self.has_membership(organisation, principal),
            self.membership_index(organisation, principal) == i,
    {
        let j = self.membership_index(organisation, principal);
        assert(self.is_membership(j, organisation, principal));
        if i < j {
            assert(self.members[i].organisation_id == self.members[j].organisation_id);
        } else if j < i {
            assert(self.members[j].organisation_id == self.members[i].organisation_id);
        }
    }

    /// Under the rules, a row with the identifier of a membership of an organisation is
    /// the one that `member_index` names.
    pub proof fn lemma_member_index(self, i: int, organisation: u128, id: u128)
        requires
            self.identifiers_unique(),
            self.is_member_of(i, organisation, id),
        ensures
            self.has_member_of(organisation, id),
            self.member_index(organisation, id) == i,
    {
        let j = self.member_index(organisation, id);
        assert(self.is_member_of(j, organisation, id));
        if i < j {
            assert(self.members[i].id == self.members[j].id);
        } else if j < i {
            assert(self.members[j].id == self.members[i].id);
        }
    }

    /// Under the rules, a row with the identifier of a project is the one that
    /// `project_index` names.
    pub proof fn lemma_project_index(self, i: int, id: u128)
        requires
            self.identifiers_unique(),
            self.is_project(i, id),
        ensures
            self.has_project(id),
            self.project_index(id) == i,
    {
        let j = self.project_index(id);
        assert(self.is_project(j, id));
        if i < j {
            assert(self.projects[i].id == self.projects[j].id);
        } else if j < i {
            assert(self.projects[j].id == self.projects[i].id);
        }
    }
}

impl Store {
    /// A store without rows.
    pub fn new() -> (store: Store)
        ensures
            store@.organisations.len() == 0,
            store@.members.len() == 0,
            store@.projects.len() == 0,
            store@.wf(),
    {
        Store { organisations: Vec::new(), members: Vec::new(), projects: Vec::new() }
    }

    /// Whether no two organisations share an identifier.
    fn organisations_distinct(&self) -> (ok: bool)
        ensures
            ok == forall|i: int, j: int|
                0 <= i < j < self@.organisations.len() ==> (#[trigger] self@.organisations[i]).id
                    != (#[trigger] self@.organisations[j]).id,
    {
        let mut j: usize = 0;
        while j < self.organisations.len()
            invariant
                j <= self.organisations.len(),
                forall|a: int, b: int|
                    0 <= a < b < j ==> (#[trigger] self@.organisations[a]).id != (
                    #[trigger] self@.organisations[b]).id,
            decreases self.organisations.len() - j,
        {
            let mut i: usize = 0;
            while i < j
                invariant
                    i <= j < self.organisations.len(),
                    forall|a: int|
                        0 <= a < i ==> (#[trigger] self@.organisations[a]).id
                            != self@.organisations[j as int].id,
                decreases j - i,
            {
                if self.organisations[i].id == self.organisations[j].id {
                    return false;
                }
                i += 1;
            }
            j += 1;
        }
        true
    }

    /// Whether no two memberships share an identifier.
    fn member_ids_distinct(&self) -> (ok: bool)
        ensures
            ok == forall|i: int, j: int|
                0 <= i < j < self@.members.len() ==> (#[trigger] self@.members[i]).id != (
                #[trigger] self@.members[j]).id,
    {
        let mut j: usize = 0;
        while j < self.members.len()
            invariant
                j <= self.members.len(),
                forall|a: int, b: int|
                    0 <= a < b < j ==> (#[trigger] self@.members[a]).id != (
                    #[trigger] self@.members[b]).id,
            decreases self.members.len() - j,
        {
            let mut i: usize = 0;
            while i < j
                invariant
                    i <= j < self.members.len(),
                    forall|a: int|
                        0 <= a < i ==> (#[trigger] self@.members[a]).id
                            != self@.members[j as int].id,
                decreases j - i,
            {
                if self.members[i].id == self.members[j].id {
                    return false;
                }
                i += 1;
            }
            j += 1;
        }
        true
    }

    /// Whether no principal holds two memberships in one organisation.
    fn memberships_distinct(&self) -> (ok: bool)
        ensures
            ok == self@.memberships_unique(),
    {
        let mut j: usize = 0;
        while j < self.members.len()
            invariant
                j <= self.members.len(),
                forall|a: int, b: int|
                    0 <= a < b < j ==> !((#[trigger] self@.members[a]).organisation_id == (
                    #[trigger] self@.members[b]).organisation_id && self@.members[a].identity_id
                        == self@.members[b].identity_id),
            decreases self.members.len() - j,
        {
            let mut i: usize = 0;
            while i < j
                invariant
                    i <= j < self.members.len(),
                    forall|a: int|
                        0 <= a < i ==> !((#[trigger] self@.members[a]).organisation_id
                            == self@.members[j as int].organisation_id
                            && self@.members[a].identity_id == self@.members[j as int].identity_id),
                decreases j - i,
            {
                if self.members[i].organisation_id == self.members[j].organisation_id
                    && self.members[i].identity_id == self.members[j].identity_id {
                    return false;
                }
                i += 1;
            }
            j += 1;
        }
        true
    }

    /// Whether no two projects share an identifier.
    fn projects_distinct(&self) -> (ok: bool)
        ensures
            ok == forall|i: int, j: int|
                0 <= i < j < self@.projects.len() ==> (#[trigger] self@.projects[i]).id != (
                #[trigger] self@.projects[j]).id,
    {
        let mut j: usize = 0;
        while j < self.projects.len()
            invariant
                j <= self.projects.len(),
                forall|a: int, b: int|
                    0 <= a < b < j ==> (#[trigger] self@.projects[a]).id != (
                    #[trigger] self@.projects[b]).id,
            decreases self.projects.len() - j,
        {
            let mut i: usize = 0;
            while i < j
                invariant
                    i <= j < self.projects.len(),
                    forall|a: int|
                        0 <= a < i ==> (#[trigger] self@.projects[a]).id
                            != self@.projects[j as int].id,
                decreases j - i,
            {
                if self.projects[i].id == self.projects[j].id {
                    return false;
                }
                i += 1;
            }
            j += 1;
        }
        true
    }

    /// Whether every membership and every project belongs to an organisation that exists.
    fn references_hold(&self) -> (ok: bool)
        ensures
            ok == self@.references_resolve(),
    {
        let mut i: usize = 0;
        while i < self.members.len()
            invariant
                i <= self.members.len(),
                forall|a: int|
                    0 <= a < i ==> self@.has_organisation(
                        (#[trigger] self@.members[a]).organisation_id,
                    ),
            decreases self.members.len() - i,
        {
            if self.find_organisation(self.members[i].organisation_id).is_none() {
                return false;
            }
            i += 1;
        }
        let mut k: usize = 0;
        while k < self.projects.len()
            invariant
                k <= self.projects.len(),
                forall|a: int|
                    0 <= a < self.members.len() ==> self@.has_organisation(
                        (#[trigger] self@.members[a]).organisation_id,
                    ),
                forall|a: int|
                    0 <= a < k ==> self@.has_organisation(
                        (#[trigger] self@.projects[a]).organisation_id,
                    ),
            decreases self.projects.len() - k,
        {
            if self.find_organisation(self.projects[k].organisation_id).is_none() {
                return false;
            }
            k += 1;
        }
        true
    }

    /// Whether `organisation` has an active owner.
    pub fn has_active_owner(&self, organisation: u128) -> (owned: bool)
        ensures
            owned == self@.has_active_owner(organisation),
    {
        let mut i: usize = 0;
        while i < self.members.len()
            invariant
                i <= self.members.len(),
                forall|k: int| 0 <= k < i ==> !self@.is_active_owner(k, organisation),
            decreases self.members.len() - i,
        {
            if self.members[i].active_owner_of(organisation) {
                assert(self@.is_active_owner(i as int, organisation));
                return true;
            }
            i += 1;
        }
        false
    }

    /// Whether every organisation has an active owner.
    fn organisations_owned(&self) -> (ok: bool)
        ensures
            ok == self@.every_organisation_owned(),
    {
        let mut i: usize = 0;
        while i < self.organisations.len()
            invariant
                i <= self.organisations.len(),
                forall|a: int|
                    0 <= a < i ==> self@.has_active_owner((#[trigger] self@.organisations[a]).id),
            decreases self.organisations.len() - i,
        {
            if !self.has_active_owner(self.organisations[i].id) {
                return false;
            }
            i += 1;
        }
        true
    }

    /// Whether no two rows of a table share an identifier. This is all that looking a row
    /// up and listing the projects ask of a store.
    pub fn has_unique_identifiers(&self) -> (ok: bool)
        ensures
            ok == self@.identifiers_unique(),
    {
        self.organisations_distinct() && self.member_ids_distinct() && self.projects_distinct()
    }

    /// Whether the rows obey the rules of the store.
    pub fn is_well_formed(&self) -> (ok: bool)
        ensures
            ok == self@.wf(),
    {
        self.has_unique_identifiers() && self.memberships_distinct() && self.references_hold()
            && self.organisations_owned()
    }

    /// The store of the given rows, where they obey the rules of the store.
    pub fn from_rows(
        organisations: Vec<OrganisationModel>,
        members: Vec<OrganisationMemberModel>,
        projects: Vec<ProjectModel>,
    ) -> (store: Option<Store>)
        ensures
            store is Some <==> (StoreView {
                organisations: organisations@,
                members: members@,
                projects: projects@,
            }).wf(),
            store matches Some(store) ==> store.organisations == organisations && store.members
                == members && store.projects == projects,
    {
        let store = Store { organisations, members, projects };
        if store.is_well_formed() {
            Some(store)
        } else {
            None
        }
    }

    /// The row of the organisation `id`, if there is one.
    pub fn find_organisation(&self, id: u128) -> (found: Option<usize>)
        ensures
            match found {
                Some(i) => self@.is_organisation(i as int, id),
                None => !self@.has_organisation(id),
            },
    {
        let mut i: usize = 0;
        while i < self.organisations.len()
            invariant
                i <= self.organisations.len(),
                forall|k: int| 0 <= k < i ==> !self@.is_organisation(k, id),
            decreases self.organisations.len() - i,
        {
            if self.organisations[i].id == id {
                return Some(i);
            }
            i += 1;
        }
        None
    }

    /// The row of the membership with the identifier `id`, if there is one.
    pub fn find_member_id(&self, id: u128) -> (found: Option<usize>)
        ensures
            match found {
                Some(i) => self@.is_member_id(i as int, id),
                None => !self@.has_member_id(id),
            },
    {
        let mut i: usize = 0;
        while i < self.members.len()
            invariant
                i <= self.members.len(),
                forall|k: int| 0 <= k < i ==> !self@.is_member_id(k, id),
            decreases self.members.len() - i,
        {
            if self.members[i].id == id {
                return Some(i);
            }
            i += 1;
        }
        None
    }

    /// The row of the membership `id` of the organisation `organisation`, if there is one.
    pub fn find_member_of(&self, organisation: u128, id: u128) -> (found: Option<usize>)
        ensures
            match found {
                Some(i) => self@.is_member_of(i as int, organisation, id),
                None => !self@.has_member_of(organisation, id),
            },
    {
        let mut i: usize = 0;
        while i < self.members.len()
            invariant
                i <= self.members.len(),
                forall|k: int| 0 <= k < i ==> !self@.is_member_of(k, organisation, id),
            decreases self.members.len() - i,
        {
            if self.members[i].id == id && self.members[i].organisation_id == organisation {
                return Some(i);
            }
            i += 1;
        }
        None
    }

    /// The row of the membership that `principal` holds in `organisation`, if it holds one.
    pub fn find_membership(&self, organisation: u128, principal: u128) -> (found: Option<usize>)
        ensures
            match found {
                Some(i) => self@.is_membership(i as int, organisation, principal),
                None => !self@.has_membership(organisation, principal),
            },
    {
        let mut i: usize = 0;
        while i < self.members.len()
            invariant
                i <= self.members.len(),
                forall|k: int| 0 <= k < i ==> !self@.is_membership(k, organisation, principal),
            decreases self.members.len() - i,
        {
            if self.members[i].organisation_id == organisation && self.members[i].identity_id
                == principal {
                return Some(i);
            }
            i += 1;
        }
        None
    }

    /// The row of the project `id`, if there is one.
    pub fn find_project(&self, id: u128) -> (found: Option<usize>)
        ensures
            match found {
                Some(i) => self@.is_project(i as int, id),
                None => !self@.has_project(id),
            },
    {
        let mut i: usize = 0;
        while i < self.projects.len()
            invariant
                i <= self.projects.len(),
                forall|k: int| 0 <= k < i ==> !self@.is_project(k, id),
            decreases self.projects.len() - i,
        {
            if self.projects[i].id == id {
                return Some(i);
            }
            i += 1;
        }
        None
    }

    /// The role in which `principal` is an active member of `organisation`, if it is one.
    pub fn active_role(&self, organisation: u128, principal: u128) -> (role: Option<
        OrganisationRole,
    >)
        requires
            self@.memberships_unique(),
        ensures
            role == self@.active_role(organisation, principal),
    {
        match self.find_membership(organisation, principal) {
            Some(i) => {
                proof {
                    self@.lemma_membership_index(i as int, organisation, principal);
                }
                if self.members[i].is_active {
                    Some(self.members[i].role)
                } else {
                    None
                }
            },
            None => None,
        }
    }

    /// Whether `organisation` has an active owner besides the membership in row `except`.
    pub fn has_other_active_owner(&self, organisation: u128, except: usize) -> (other: bool)
        ensures
            other == exists|j: int| j != except && self@.is_active_owner(j, organisation),
    {
        let mut i: usize = 0;
        while i < self.members.len()
            invariant
                i <= self.members.len(),
                forall|k: int|
                    0 <= k < i && k != except ==> !self@.is_active_owner(k, organisation),
            decreases self.members.len() - i,
        {
            if i != except && self.members[i].active_owner_of(organisation) {
                assert(self@.is_active_owner(i as int, organisation));
                return true;
            }
            i += 1;
        }
        false
    }

    /// Whether the membership in row `i` is the only active owner of `organisation`.
    pub fn is_sole_active_owner(&self, i: usize, organisation: u128) -> (sole: bool)
        requires
            i < self.members.len(),
        ensures
            sole == self@.is_sole_active_owner(i as int, organisation),
    {
        if !self.members[i].active_owner_of(organisation) {
            return false;
        }
        let other = self.has_other_active_owner(organisation, i);
        !other
    }
}

} // verus!
