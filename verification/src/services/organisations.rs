use crate::errors::{AppError, ErrorKind, OrganisationError};
use crate::models::entities::{OrganisationMemberModel, OrganisationModel, OrganisationRole};
use crate::policy::Action;
use crate::services::access::{constraint_violated, constraint_violation, denies, require};
use crate::store::{Store, StoreView};
use crate::utils::ids::fresh_id;
use crate::utils::text::{blank, is_blank};
use crate::utils::time::{now, Timestamp};
use vstd::prelude::*;

verus! {

/// What a principal gives to create an organisation.
#[derive(Debug, Clone, PartialEq, Eq)]
pub struct CreateOrganisationData {
    pub name: String,
    pub description: Option<String>,
    pub avatar_url: Option<String>,
    /// The principal that creates the organisation and becomes its first owner.
    pub identity_id: u128,
}

/// The row of an organisation created from `data` at the instant `now`.
pub open spec fn new_organisation(
    data: CreateOrganisationData,
    id: u128,
    now: Timestamp,
) -> OrganisationModel {
    OrganisationModel {
        id,
        name: data.name,
        description: data.description,
        avatar_url: data.avatar_url,
        is_active: true,
        created_at: now,
        updated_at: now,
        created_by: data.identity_id,
    }
}

/// The row of a membership that begins at the instant `now`: active, and invited, joined
/// and accepted at that one instant.
pub open spec fn invitation(
    id: u128,
    organisation: u128,
    principal: u128,
    role: OrganisationRole,
    inviter: u128,
    now: Timestamp,
) -> OrganisationMemberModel {
    OrganisationMemberModel {
        id,
        organisation_id: organisation,
        identity_id: principal,
        role,
        is_active: true,
        joined_at: now,
        invited_by: inviter,
        invited_at: now,
        invitation_accepted_at: now,
    }
}

/// The membership of the principal that creates an organisation: an owner, invited by
/// itself.
pub open spec fn founding_membership(
    id: u128,
    organisation: u128,
    principal: u128,
    now: Timestamp,
) -> OrganisationMemberModel {
    invitation(id, organisation, principal, OrganisationRole::Owner, principal, now)
}

impl StoreView {
    /// The row of the organisation `id`.
    pub open spec fn organisation_index(self, id: u128) -> int {
        choose|i: int| self.is_organisation(i, id)
    }

    /// An organisation can be created from `data` under the two identifiers.
    pub open spec fn creation_permitted(
        self,
        data: CreateOrganisationData,
        organisation_id: u128,
        membership_id: u128,
    ) -> bool {
        !blank(data.name@) && !self.has_organisation(organisation_id) && !self.has_member_id(
            membership_id,
        )
    }

    /// `err` is the refusal owed to the creation of an organisation of the given name that
    /// is not permitted: a blank name is invalid; an identifier that is taken violates the
    /// key of its table.
    pub open spec fn creation_refusal_of(
        self,
        err: AppError,
        name: Seq<char>,
        organisation_id: u128,
        membership_id: u128,
    ) -> bool {
        if blank(name) {
            err == AppError::Organisation(OrganisationError::InvalidName)
        } else if self.has_organisation(organisation_id) {
            constraint_violated(err, "organisations_pkey"@)
        } else {
            self.has_member_id(membership_id) && constraint_violated(
                err,
                "organisation_members_pkey"@,
            )
        }
    }

    /// `err` is the refusal owed to a creation that is not permitted.
    pub open spec fn creation_refusal(
        self,
        err: AppError,
        data: CreateOrganisationData,
        organisation_id: u128,
        membership_id: u128,
    ) -> bool {
        self.creation_refusal_of(err, data.name@, organisation_id, membership_id)
    }

    /// The store after an attempt to create an organisation: with the organisation and its
    /// owner's membership where the creation is permitted, unchanged where it is not.
    pub open spec fn after_creation(
        self,
        data: CreateOrganisationData,
        organisation_id: u128,
        membership_id: u128,
        now: Timestamp,
    ) -> StoreView {
        if self.creation_permitted(data, organisation_id, membership_id) {
            self.with_organisation(
                new_organisation(data, organisation_id, now),
                founding_membership(membership_id, organisation_id, data.identity_id, now),
            )
        } else {
            self
        }
    }

    /// `acting` may invite `target` into `organisation`: it may manage the members, the
    /// target is no active member, and the new membership's identifier is free where a new
    /// row is needed.
    pub open spec fn invite_permitted(
        self,
        acting: u128,
        organisation: u128,
        target: u128,
        membership_id: u128,
    ) -> bool {
        &&& self.may(acting, organisation, Action::ManageMembers)
        &&& self.active_role(organisation, target) is None
        &&& self.has_membership(organisation, target) || !self.has_member_id(membership_id)
    }

    /// `err` is the refusal owed to an invitation that is not permitted.
    pub open spec fn invite_refusal(
        self,
        err: AppError,
        acting: u128,
        organisation: u128,
        target: u128,
        membership_id: u128,
    ) -> bool {
        if !self.may(acting, organisation, Action::ManageMembers) {
            denies(err, self.active_role(organisation, acting), acting, Action::ManageMembers)
        } else if self.active_role(organisation, target) is Some {
            err == AppError::Organisation(OrganisationError::AlreadyMember(target))
        } else {
            !self.has_membership(organisation, target) && self.has_member_id(membership_id)
                && constraint_violated(err, "organisation_members_pkey"@)
        }
    }

    /// The membership that an invitation gives to `target`. A principal that was a member
    /// before and was removed keeps the identifier of its row; any other gets
    /// `membership_id`.
    pub open spec fn invited_member(
        self,
        acting: u128,
        organisation: u128,
        target: u128,
        role: OrganisationRole,
        membership_id: u128,
        now: Timestamp,
    ) -> OrganisationMemberModel {
        let id = if self.has_membership(organisation, target) {
            self.members[self.membership_index(organisation, target)].id
        } else {
            membership_id
        };
        invitation(id, organisation, target, role, acting, now)
    }

    /// The store after an attempt to invite `target`: where the invitation is permitted, the
    /// new membership stands in the row of the target's removed membership, or in a new row
    /// if there is none; where it is not, nothing has changed.
    pub open spec fn after_invite(
        self,
        acting: u128,
        organisation: u128,
        target: u128,
        role: OrganisationRole,
        membership_id: u128,
        now: Timestamp,
    ) -> StoreView {
        let member = self.invited_member(acting, organisation, target, role, membership_id, now);
        if !self.invite_permitted(acting, organisation, target, membership_id) {
            self
        } else if self.has_membership(organisation, target) {
            self.with_member(self.membership_index(organisation, target), member)
        } else {
            self.with_new_member(member)
        }
    }

    /// `acting` may give the role `new_role` to the membership `target` of `organisation`:
    /// it may manage the members, the membership exists, and the organisation's only active
    /// owner stays an owner.
    pub open spec fn role_change_permitted(
        self,
        acting: u128,
        organisation: u128,
        target: u128,
        new_role: OrganisationRole,
    ) -> bool {
        &&& self.may(acting, organisation, Action::ManageMembers)
        &&& self.has_member_of(organisation, target)
        &&& new_role == OrganisationRole::Owner || !self.is_sole_active_owner(
            self.member_index(organisation, target),
            organisation,
        )
    }

    /// `err` is the refusal owed to a change of role or a removal that is not permitted.
    pub open spec fn member_change_refusal(
        self,
        err: AppError,
        acting: u128,
        organisation: u128,
        target: u128,
    ) -> bool {
        if !self.may(acting, organisation, Action::ManageMembers) {
            denies(err, self.active_role(organisation, acting), acting, Action::ManageMembers)
        } else if !self.has_member_of(organisation, target) {
            err == AppError::Organisation(OrganisationError::MembershipNotFound(target))
        } else {
            err == AppError::Organisation(OrganisationError::CannotRemoveLastOwner)
        }
    }

    /// The membership `target` of `organisation` with the role `new_role`.
    pub open spec fn member_in_role(
        self,
        organisation: u128,
        target: u128,
        new_role: OrganisationRole,
    ) -> OrganisationMemberModel {
        OrganisationMemberModel {
            role: new_role,
            ..self.members[self.member_index(organisation, target)]
        }
    }

    /// The store after an attempt to change a role.
    pub open spec fn after_role_change(
        self,
        acting: u128,
        organisation: u128,
        target: u128,
        new_role: OrganisationRole,
    ) -> StoreView {
        if self.role_change_permitted(acting, organisation, target, new_role) {
            self.with_member(
                self.member_index(organisation, target),
                self.member_in_role(organisation, target, new_role),
            )
        } else {
            self
        }
    }

    /// `acting` may remove the membership `target` of `organisation`: it may manage the
    /// members, the membership exists, and it is not the organisation's only active owner.
    pub open spec fn removal_permitted(self, acting: u128, organisation: u128, target: u128) -> bool {
        &&& self.may(acting, organisation, Action::ManageMembers)
        &&& self.has_member_of(organisation, target)
        &&& !self.is_sole_active_owner(self.member_index(organisation, target), organisation)
    }

    /// The store after an attempt to remove a member: where the removal is permitted the
    /// membership is no longer active, and its row stays.
    pub open spec fn after_removal(self, acting: u128, organisation: u128, target: u128) -> StoreView {
        if self.removal_permitted(acting, organisation, target) {
            let i = self.member_index(organisation, target);
            self.with_member(
                i,
                OrganisationMemberModel { is_active: false, ..self.members[i] },
            )
        } else {
            self
        }
    }

    /// Creating an organisation keeps the rules of the store.
    pub proof fn lemma_creation_keeps_rules(
        self,
        data: CreateOrganisationData,
        organisation_id: u128,
        membership_id: u128,
        now: Timestamp,
    )
        requires
            self.wf(),
        ensures
            self.after_creation(data, organisation_id, membership_id, now).wf(),
    {
        if self.creation_permitted(data, organisation_id, membership_id) {
            self.lemma_with_organisation(
                new_organisation(data, organisation_id, now),
                founding_membership(membership_id, organisation_id, data.identity_id, now),
            );
        }
    }

    /// Creation is atomic: after an attempt to create an organisation the store holds both
    /// the organisation and the membership of its owner as its newest rows, or it is as it
    /// was before. It never holds one of the two rows without the other.
    pub proof fn lemma_creation_atomic(
        self,
        data: CreateOrganisationData,
        organisation_id: u128,
        membership_id: u128,
        now: Timestamp,
    )
        ensures
            ({
                let after = self.after_creation(data, organisation_id, membership_id, now);
                let both = {
                    &&& after.organisations == self.organisations.push(
                        new_organisation(data, organisation_id, now),
                    )
                    &&& after.members == self.members.push(
                        founding_membership(membership_id, organisation_id, data.identity_id, now),
                    )
                    &&& after.members.last().is_active_owner_of(organisation_id)
                };
                &&& after.projects == self.projects
                &&& both || after == self
                &&& both <==> self.creation_permitted(data, organisation_id, membership_id)
            }),
    {
        let after = self.after_creation(data, organisation_id, membership_id, now);
        if !self.creation_permitted(data, organisation_id, membership_id) {
            assert(after.organisations.len() == self.organisations.len());
        }
    }

    /// A principal that may do anything in an organisation is a member of it, so the
    /// organisation exists.
    pub proof fn lemma_may_implies_exists(self, principal: u128, organisation: u128, action: Action)
        requires
            self.wf(),
            self.may(principal, organisation, action),
        ensures
            self.has_organisation(organisation),
    {
        let i = self.membership_index(organisation, principal);
        assert(self.is_membership(i, organisation, principal));
        assert(self.has_organisation(self.members[i].organisation_id));
    }

    /// Inviting a member keeps the rules of the store.
    pub proof fn lemma_invite_keeps_rules(
        self,
        acting: u128,
        organisation: u128,
        target: u128,
        role: OrganisationRole,
        membership_id: u128,
        now: Timestamp,
    )
        requires
            self.wf(),
        ensures
            self.after_invite(acting, organisation, target, role, membership_id, now).wf(),
    {
        let member = self.invited_member(acting, organisation, target, role, membership_id, now);
        if self.invite_permitted(acting, organisation, target, membership_id) {
            if self.has_membership(organisation, target) {
                let i = self.membership_index(organisation, target);
                assert(self.is_membership(i, organisation, target));
                assert(!self.members[i].is_active);
                assert(!self.is_active_owner(i, organisation));
                self.lemma_with_member(i, member);
            } else {
                self.lemma_may_implies_exists(acting, organisation, Action::ManageMembers);
                self.lemma_with_new_member(member);
            }
        }
    }

    /// Changing a role keeps the rules of the store.
    pub proof fn lemma_role_change_keeps_rules(
        self,
        acting: u128,
        organisation: u128,
        target: u128,
        new_role: OrganisationRole,
    )
        requires
            self.wf(),
        ensures
            self.after_role_change(acting, organisation, target, new_role).wf(),
    {
        if self.role_change_permitted(acting, organisation, target, new_role) {
            let i = self.member_index(organisation, target);
            assert(self.is_member_of(i, organisation, target));
            let member = self.member_in_role(organisation, target, new_role);
            if new_role == OrganisationRole::Owner && !member.is_active {
                assert(!self.is_active_owner(i, organisation));
            }
            self.lemma_with_member(i, member);
        }
    }

    /// Removing a member keeps the rules of the store.
    pub proof fn lemma_removal_keeps_rules(self, acting: u128, organisation: u128, target: u128)
        requires
            self.wf(),
        ensures
            self.after_removal(acting, organisation, target).wf(),
    {
        if self.removal_permitted(acting, organisation, target) {
            let i = self.member_index(organisation, target);
            assert(self.is_member_of(i, organisation, target));
            self.lemma_with_member(
                i,
                OrganisationMemberModel { is_active: false, ..self.members[i] },
            );
        }
    }
}

/// One request to change the members of an organisation.
pub enum MembershipOperation {
    /// `acting` invites `target` in the role `role`.
    Invite {
        acting: u128,
        organisation: u128,
        target: u128,
        role: OrganisationRole,
        membership_id: u128,
        now: Timestamp,
    },
    /// `acting` gives the membership `target` the role `new_role`.
    ChangeRole { acting: u128, organisation: u128, target: u128, new_role: OrganisationRole },
    /// `acting` removes the membership `target`.
    Remove { acting: u128, organisation: u128, target: u128 },
}

impl StoreView {
    /// The store after one request to change the members of an organisation, granted or
    /// refused.
    pub open spec fn after_operation(self, operation: MembershipOperation) -> StoreView {
        match operation {
            MembershipOperation::Invite { acting, organisation, target, role, membership_id, now } =>
                self.after_invite(acting, organisation, target, role, membership_id, now),
            MembershipOperation::ChangeRole { acting, organisation, target, new_role } =>
                self.after_role_change(acting, organisation, target, new_role),
            MembershipOperation::Remove { acting, organisation, target } => self.after_removal(
                acting,
                organisation,
                target,
            ),
        }
    }

    /// The store after a sequence of such requests, made one after the other.
    pub open spec fn after_operations(self, operations: Seq<MembershipOperation>) -> StoreView
        decreases operations.len(),
    {
        if operations.len() == 0 {
            self
        } else {
            self.after_operations(operations.drop_last()).after_operation(operations.last())
        }
    }

    /// An organisation that exists in a store that obeys the rules has an active owner.
    pub proof fn lemma_owned(self, organisation: u128)
        requires
            self.wf(),
            self.has_organisation(organisation),
        ensures
            self.has_active_owner(organisation),
    {
        let i = choose|i: int| self.is_organisation(i, organisation);
        assert(self.is_organisation(i, organisation));
        assert(self.has_active_owner(self.organisations[i].id));
    }

    /// A sequence of requests to change members keeps the rules of the store, and the
    /// organisations are the same after it as before.
    pub proof fn lemma_operations_keep_rules(self, operations: Seq<MembershipOperation>)
        requires
            self.wf(),
        ensures
            self.after_operations(operations).wf(),
            self.after_operations(operations).organisations == self.organisations,
        decreases operations.len(),
    {
        if operations.len() > 0 {
            self.lemma_operations_keep_rules(operations.drop_last());
            let before = self.after_operations(operations.drop_last());
            match operations.last() {
                MembershipOperation::Invite {
                    acting,
                    organisation,
                    target,
                    role,
                    membership_id,
                    now,
                } => {
                    before.lemma_invite_keeps_rules(
                        acting,
                        organisation,
                        target,
                        role,
                        membership_id,
                        now,
                    );
                },
                MembershipOperation::ChangeRole { acting, organisation, target, new_role } => {
                    before.lemma_role_change_keeps_rules(acting, organisation, target, new_role);
                },
                MembershipOperation::Remove { acting, organisation, target } => {
                    before.lemma_removal_keeps_rules(acting, organisation, target);
                },
            }
        }
    }

    /// The owner invariant: whatever members are invited, whatever roles are changed and
    /// whoever is removed, in any number and order and whether granted or refused, an
    /// organisation has at least one active owner after each of the requests.
    pub proof fn lemma_owner_invariant(
        self,
        operations: Seq<MembershipOperation>,
        organisation: u128,
    )
        requires
            self.wf(),
            self.has_organisation(organisation),
        ensures
            forall|k: int|
                0 <= k <= operations.len() ==> (#[trigger] self.after_operations(
                    operations.take(k),
                )).has_active_owner(organisation),
    {
        assert forall|k: int| 0 <= k <= operations.len() implies (#[trigger] self.after_operations(
            operations.take(k),
        )).has_active_owner(organisation) by {
            let after = self.after_operations(operations.take(k));
            self.lemma_operations_keep_rules(operations.take(k));
            let i = choose|i: int| self.is_organisation(i, organisation);
            assert(self.is_organisation(i, organisation));
            assert(after.is_organisation(i, organisation));
            after.lemma_owned(organisation);
        }
    }
}

/// Creates an organisation under the given identifiers at the given instant, together with
/// the membership that makes its creator the first owner.
///
/// Either both rows are added or none is: a refused creation leaves the store as it was.
pub fn create_organisation_at(
    store: &mut Store,
    data: CreateOrganisationData,
    organisation_id: u128,
    membership_id: u128,
    now: Timestamp,
) -> (result: Result<(OrganisationModel, OrganisationMemberModel), AppError>)
    requires
        old(store)@.wf(),
    ensures
        final(store)@ == old(store)@.after_creation(data, organisation_id, membership_id, now),
        final(store)@.wf(),
        result is Err ==> final(store)@ == old(store)@,
        result is Ok <==> old(store)@.creation_permitted(data, organisation_id, membership_id),
        result matches Ok(rows) ==> rows.0 == new_organisation(data, organisation_id, now)
            && rows.1 == founding_membership(
            membership_id,
            organisation_id,
            data.identity_id,
            now,
        ),
        result matches Err(err) ==> old(store)@.creation_refusal(
            err,
            data,
            organisation_id,
            membership_id,
        ),
{
    if is_blank(data.name.as_str()) {
        return Err(AppError::Organisation(OrganisationError::InvalidName));
    }
    if store.find_organisation(organisation_id).is_some() {
        return Err(constraint_violation("organisations_pkey"));
    }
    if store.find_member_id(membership_id).is_some() {
        return Err(constraint_violation("organisation_members_pkey"));
    }
    let organisation = OrganisationModel {
        id: organisation_id,
        name: data.name,
        description: data.description,
        avatar_url: data.avatar_url,
        is_active: true,
        created_at: now,
        updated_at: now,
        created_by: data.identity_id,
    };
    let member = OrganisationMemberModel {
        id: membership_id,
        organisation_id,
        identity_id: data.identity_id,
        role: OrganisationRole::Owner,
        is_active: true,
        joined_at: now,
        invited_by: data.identity_id,
        invited_at: now,
        invitation_accepted_at: now,
    };
    proof {
        old(store)@.lemma_creation_keeps_rules(data, organisation_id, membership_id, now);
    }
    let created = organisation.duplicate();
    store.organisations.push(organisation);
    store.members.push(member);
    assert(store@ =~= old(store)@.with_organisation(created, member));
    Ok((created, member))
}

/// Creates an organisation for the principal named in `data`, which becomes its first
/// owner. The identifiers of the two rows are drawn at random and the instant is read from
/// the clock; one instant stands in every timestamp of both rows.
///
/// A blank name is refused, and nothing else is but an identifier that is taken already:
/// on a store without organisations and memberships every other name succeeds. Either both
/// rows are added or none is.
pub fn create_organisation(store: &mut Store, data: CreateOrganisationData) -> (result: Result<
    (OrganisationModel, OrganisationMemberModel),
    AppError,
>)
    requires
        old(store)@.wf(),
    ensures
        final(store)@.wf(),
        match result {
            Ok((organisation, member)) => {
                &&& old(store)@.creation_permitted(data, organisation.id, member.id)
                &&& organisation == new_organisation(data, organisation.id, organisation.created_at)
                &&& member == founding_membership(
                    member.id,
                    organisation.id,
                    data.identity_id,
                    organisation.created_at,
                )
                &&& final(store)@ == old(store)@.with_organisation(organisation, member)
            },
            Err(err) => {
                &&& final(store)@ == old(store)@
                &&& exists|organisation_id: u128, membership_id: u128|
                    old(store)@.creation_refusal(err, data, organisation_id, membership_id)
                &&& blank(data.name@) ==> err == AppError::Organisation(
                    OrganisationError::InvalidName,
                )
                &&& !blank(data.name@) ==> err.kind() == ErrorKind::PersistenceFailure
            },
        },
        blank(data.name@) ==> result is Err,
        !blank(data.name@) && old(store)@.organisations.len() == 0 && old(store)@.members.len()
            == 0 ==> result is Ok,
{
    let instant = now();
    let organisation_id = fresh_id();
    let membership_id = fresh_id();
    let result = create_organisation_at(
        store,
        data,
        organisation_id,
        membership_id,
        instant,
    );
    proof {
        if result is Err {
            assert(old(store)@.creation_refusal(
                result->Err_0,
                data,
                organisation_id,
                membership_id,
            ));
        }
        if old(store)@.organisations.len() == 0 && old(store)@.members.len() == 0 {
            assert(!old(store)@.has_organisation(organisation_id));
            assert(!old(store)@.has_member_id(membership_id));
        }
    }
    result
}

/// Looks an organisation up by its identifier.
pub fn get_organisation(store: &Store, organisation_id: u128) -> (result: Result<
    OrganisationModel,
    AppError,
>)
    requires
        store@.identifiers_unique(),
    ensures
        result is Ok <==> store@.has_organisation(organisation_id),
        result matches Ok(organisation) ==> organisation
            == store@.organisations[store@.organisation_index(organisation_id)],
        result matches Err(err) ==> err == AppError::Organisation(
            OrganisationError::OrganisationNotFound(organisation_id),
        ),
{
    match store.find_organisation(organisation_id) {
        Some(i) => {
            proof {
                let j = store@.organisation_index(organisation_id);
                assert(store@.is_organisation(j, organisation_id));
                if i < j {
                    assert(store@.organisations[i as int].id == store@.organisations[j].id);
                } else if j < i {
                    assert(store@.organisations[j].id == store@.organisations[i as int].id);
                }
            }
            Ok(store.organisations[i].duplicate())
        },
        None => Err(
            AppError::Organisation(OrganisationError::OrganisationNotFound(organisation_id)),
        ),
    }
}

/// Invites `target` into `organisation` in the role `role`, under the given identifier and
/// at the given instant.
pub fn invite_member_at(
    store: &mut Store,
    acting: u128,
    organisation: u128,
    target: u128,
    role: OrganisationRole,
    membership_id: u128,
    now: Timestamp,
) -> (result: Result<OrganisationMemberModel, AppError>)
    requires
        old(store)@.wf(),
    ensures
        final(store)@ == old(store)@.after_invite(
            acting,
            organisation,
            target,
            role,
            membership_id,
            now,
        ),
        final(store)@.wf(),
        result is Err ==> final(store)@ == old(store)@,
        result is Ok <==> old(store)@.invite_permitted(acting, organisation, target, membership_id),
        result matches Ok(member) ==> member == old(store)@.invited_member(
            acting,
            organisation,
            target,
            role,
            membership_id,
            now,
        ),
        result matches Err(err) ==> old(store)@.invite_refusal(
            err,
            acting,
            organisation,
            target,
            membership_id,
        ),
{
    proof {
        old(store)@.lemma_invite_keeps_rules(acting, organisation, target, role, membership_id, now);
    }
    match require(store, acting, organisation, Action::ManageMembers) {
        Err(err) => {
            return Err(err);
        },
        Ok(()) => {},
    }
    match store.find_membership(organisation, target) {
        Some(i) => {
            proof {
                store@.lemma_membership_index(i as int, organisation, target);
            }
            if store.members[i].is_active {
                return Err(AppError::Organisation(OrganisationError::AlreadyMember(target)));
            }
            let member = OrganisationMemberModel {
                id: store.members[i].id,
                organisation_id: organisation,
                identity_id: target,
                role,
                is_active: true,
                joined_at: now,
                invited_by: acting,
                invited_at: now,
                invitation_accepted_at: now,
            };
            store.members.set(i, member);
            assert(store@ =~= old(store)@.with_member(i as int, member));
            Ok(member)
        },
        None => {
            if store.find_member_id(membership_id).is_some() {
                return Err(constraint_violation("organisation_members_pkey"));
            }
            let member = OrganisationMemberModel {
                id: membership_id,
                organisation_id: organisation,
                identity_id: target,
                role,
                is_active: true,
                joined_at: now,
                invited_by: acting,
                invited_at: now,
                invitation_accepted_at: now,
            };
            store.members.push(member);
            assert(store@ =~= old(store)@.with_new_member(member));
            Ok(member)
        },
    }
}

/// Invites `target` into `organisation` in the role `role`. The identifier of a new
/// membership is drawn at random and the instant is read from the clock.
///
/// Refused where `acting` may not manage the members of the organisation, and where
/// `target` is an active member already. A principal that was removed before is taken in
/// again in its old row.
pub fn invite_member(
    store: &mut Store,
    acting: u128,
    organisation: u128,
    target: u128,
    role: OrganisationRole,
) -> (result: Result<OrganisationMemberModel, AppError>)
    requires
        old(store)@.wf(),
    ensures
        final(store)@.wf(),
        match result {
            Ok(member) => {
                &&& old(store)@.invite_permitted(acting, organisation, target, member.id)
                &&& member == invitation(
                    member.id,
                    organisation,
                    target,
                    role,
                    acting,
                    member.invited_at,
                )
                &&& final(store)@ == old(store)@.after_invite(
                    acting,
                    organisation,
                    target,
                    role,
                    member.id,
                    member.invited_at,
                )
            },
            Err(err) => {
                &&& final(store)@ == old(store)@
                &&& exists|membership_id: u128|
                    old(store)@.invite_refusal(err, acting, organisation, target, membership_id)
                &&& !old(store)@.may(acting, organisation, Action::ManageMembers) ==> denies(
                    err,
                    old(store)@.active_role(organisation, acting),
                    acting,
                    Action::ManageMembers,
                )
                &&& old(store)@.may(acting, organisation, Action::ManageMembers) && old(
                    store,
                )@.active_role(organisation, target) is Some ==> err == AppError::Organisation(
                    OrganisationError::AlreadyMember(target),
                )
                &&& old(store)@.may(acting, organisation, Action::ManageMembers) && old(
                    store,
                )@.active_role(organisation, target) is None ==> err.kind()
                    == ErrorKind::PersistenceFailure
            },
        },
        !old(store)@.may(acting, organisation, Action::ManageMembers) ==> result is Err,
        old(store)@.active_role(organisation, target) is Some ==> result is Err,
        old(store)@.may(acting, organisation, Action::ManageMembers) && old(store)@.active_role(
            organisation,
            target,
        ) is None && old(store)@.has_membership(organisation, target) ==> result is Ok,
{
    let instant = now();
    let membership_id = fresh_id();
    let result = invite_member_at(
        store,
        acting,
        organisation,
        target,
        role,
        membership_id,
        instant,
    );
    proof {
        if result is Err {
            assert(old(store)@.invite_refusal(
                result->Err_0,
                acting,
                organisation,
                target,
                membership_id,
            ));
        }
        if let Ok(member) = result {
            let before = old(store)@;
            if before.has_membership(organisation, target) {
                assert(before.invite_permitted(acting, organisation, target, member.id));
                assert(before.invited_member(
                    acting,
                    organisation,
                    target,
                    role,
                    member.id,
                    instant,
                ) == member);
            }
        }
    }
    result
}

/// Gives the membership `target` of `organisation` the role `new_role`.
///
/// Refused where `acting` may not manage the members of the organisation, where the
/// organisation has no such membership, and where the membership is the organisation's only
/// active owner and `new_role` is another role.
pub fn change_role(
    store: &mut Store,
    acting: u128,
    organisation: u128,
    target: u128,
    new_role: OrganisationRole,
) -> (result: Result<OrganisationMemberModel, AppError>)
    requires
        old(store)@.wf(),
    ensures
        final(store)@ == old(store)@.after_role_change(acting, organisation, target, new_role),
        final(store)@.wf(),
        result is Err ==> final(store)@ == old(store)@,
        result is Ok <==> old(store)@.role_change_permitted(acting, organisation, target, new_role),
        result matches Ok(member) ==> member == old(store)@.member_in_role(
            organisation,
            target,
            new_role,
        ),
        result matches Err(err) ==> old(store)@.member_change_refusal(
            err,
            acting,
            organisation,
            target,
        ),
{
    proof {
        old(store)@.lemma_role_change_keeps_rules(acting, organisation, target, new_role);
    }
    match require(store, acting, organisation, Action::ManageMembers) {
        Err(err) => {
            return Err(err);
        },
        Ok(()) => {},
    }
    match store.find_member_of(organisation, target) {
        None => Err(AppError::Organisation(OrganisationError::MembershipNotFound(target))),
        Some(i) => {
            proof {
                store@.lemma_member_index(i as int, organisation, target);
            }
            if new_role != OrganisationRole::Owner && store.is_sole_active_owner(i, organisation) {
                return Err(AppError::Organisation(OrganisationError::CannotRemoveLastOwner));
            }
            let mut member = store.members[i];
            member.role = new_role;
            store.members.set(i, member);
            assert(store@ =~= old(store)@.with_member(i as int, member));
            Ok(member)
        },
    }
}

/// Removes the membership `target` from `organisation`: the membership is no longer
/// active, and its row stays.
///
/// Refused where `acting` may not manage the members of the organisation, where the
/// organisation has no such membership, and where the membership is the organisation's only
/// active owner.
pub fn remove_member(store: &mut Store, acting: u128, organisation: u128, target: u128) -> (result:
    Result<(), AppError>)
    requires
        old(store)@.wf(),
    ensures
        final(store)@ == old(store)@.after_removal(acting, organisation, target),
        final(store)@.wf(),
        result is Err ==> final(store)@ == old(store)@,
        result is Ok <==> old(store)@.removal_permitted(acting, organisation, target),
        result matches Err(err) ==> old(store)@.member_change_refusal(
            err,
            acting,
            organisation,
            target,
        ),
{
    proof {
        old(store)@.lemma_removal_keeps_rules(acting, organisation, target);
    }
    match require(store, acting, organisation, Action::ManageMembers) {
        Err(err) => {
            return Err(err);
        },
        Ok(()) => {},
    }
    match store.find_member_of(organisation, target) {
        None => Err(AppError::Organisation(OrganisationError::MembershipNotFound(target))),
        Some(i) => {
            proof {
                store@.lemma_member_index(i as int, organisation, target);
            }
            if store.is_sole_active_owner(i, organisation) {
                return Err(AppError::Organisation(OrganisationError::CannotRemoveLastOwner));
            }
            let mut member = store.members[i];
            member.is_active = false;
            store.members.set(i, member);
            assert(store@ =~= old(store)@.with_member(i as int, member));
            Ok(())
        },
    }
}

} // verus!
