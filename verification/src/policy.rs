use crate::models::entities::OrganisationRole;
use vstd::prelude::*;

verus! {

/// What a member may attempt inside an organisation.
#[derive(Clone, Copy, Debug, PartialEq, Eq, Structural)]
pub enum Action {
    /// Rename or deactivate the organisation.
    ManageOrganisation,
    /// Invite members, change their roles, remove them.
    ManageMembers,
    /// Create, change, archive and delete projects.
    ManageProjects,
    /// Read access only.
    ViewOnly,
}

impl Action {
    /// The least privileged role that may perform the action.
    pub open spec fn minimum_role(self) -> OrganisationRole {
        match self {
            Action::ManageOrganisation => OrganisationRole::Owner,
            Action::ManageMembers => OrganisationRole::Admin,
            Action::ManageProjects => OrganisationRole::Member,
            Action::ViewOnly => OrganisationRole::Viewer,
        }
    }

    /// Executable form of [`Action::minimum_role`].
    pub fn required_role(self) -> (role: OrganisationRole)
        ensures
            role == self.minimum_role(),
    {
        match self {
            Action::ManageOrganisation => OrganisationRole::Owner,
            Action::ManageMembers => OrganisationRole::Admin,
            Action::ManageProjects => OrganisationRole::Member,
            Action::ViewOnly => OrganisationRole::Viewer,
        }
    }
}

/// The policy as a mathematical function: a role may perform an action exactly when it
/// carries at least the privilege of the action's minimum role.
pub open spec fn permits(role: OrganisationRole, action: Action) -> bool {
    role.at_least(action.minimum_role())
}

/// Decides whether a member holding `role` may perform `action`.
///
/// The decision is defined for every pair of role and action and depends on nothing else.
pub fn authorize(role: OrganisationRole, action: Action) -> (allowed: bool)
    ensures
        allowed == permits(role, action),
{
    role.is_at_least(action.required_role())
}

/// The policy written out as its table: which of the sixteen pairs are allowed.
pub proof fn lemma_policy_table(role: OrganisationRole, action: Action)
    ensures
        permits(role, action) == match action {
            Action::ManageOrganisation => role == OrganisationRole::Owner,
            Action::ManageMembers => role == OrganisationRole::Owner || role
                == OrganisationRole::Admin,
            Action::ManageProjects => role != OrganisationRole::Viewer,
            Action::ViewOnly => true,
        },
{
}

/// More privilege never loses a permission: whatever a role may do, every role at least as
/// privileged may do as well.
pub proof fn lemma_policy_monotone(lower: OrganisationRole, higher: OrganisationRole, action: Action)
    requires
        higher.at_least(lower),
        permits(lower, action),
    ensures
        permits(higher, action),
{
}

} // verus!
