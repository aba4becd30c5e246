use crate::utils::ids::{hyphenated, id_text};
use vstd::prelude::*;
use vstd::string::*;

verus! {

/// A rule of organisations and their memberships that a request ran against.
#[derive(Debug, Clone, PartialEq, Eq)]
pub enum OrganisationError {
    /// No organisation has this identifier.
    OrganisationNotFound(u128),
    /// The principal holds no active membership in the organisation.
    UserNotMember(u128),
    /// The principal's role is below the one that the action needs.
    InsufficientRole { required: String, current: String },
    /// The change would leave the organisation without an active owner.
    CannotRemoveLastOwner,
    /// The organisation's name is empty or white space only.
    InvalidName,
    /// No membership of the organisation has this identifier.
    MembershipNotFound(u128),
    /// The principal already holds an active membership in the organisation.
    AlreadyMember(u128),
}

impl OrganisationError {
    /// The message of the error.
    pub open spec fn text(self) -> Seq<char> {
        match self {
            OrganisationError::OrganisationNotFound(id) => "Organisation not found: "@
                + hyphenated(id),
            OrganisationError::UserNotMember(id) => "User "@ + hyphenated(id)
                + " is not a member"@,
            OrganisationError::InsufficientRole { required, current } =>
                "Insufficient role: required "@ + required@ + ", current "@ + current@,
            OrganisationError::CannotRemoveLastOwner => "Cannot remove the last owner"@,
            OrganisationError::InvalidName => "Organisation name must not be blank"@,
            OrganisationError::MembershipNotFound(id) => "Membership not found: "@
                + hyphenated(id),
            OrganisationError::AlreadyMember(id) => "User "@ + hyphenated(id)
                + " is already a member"@,
        }
    }

    /// Writes the message of the error.
    pub fn message(&self) -> (message: String)
        ensures
            message@ == self.text(),
    {
        match self {
            OrganisationError::OrganisationNotFound(id) => String::from_str(
                "Organisation not found: ",
            ).concat(id_text(*id).as_str()),
            OrganisationError::UserNotMember(id) => {
                let mut message = String::from_str("User ");
                message.append(id_text(*id).as_str());
                message.append(" is not a member");
                message
            },
            OrganisationError::InsufficientRole { required, current } => {
                let mut message = String::from_str("Insufficient role: required ");
                message.append(required.as_str());
                message.append(", current ");
                message.append(current.as_str());
                message
            },
            OrganisationError::CannotRemoveLastOwner => String::from_str(
                "Cannot remove the last owner",
            ),
            OrganisationError::InvalidName => String::from_str(
                "Organisation name must not be blank",
            ),
            OrganisationError::MembershipNotFound(id) => String::from_str(
                "Membership not found: ",
            ).concat(id_text(*id).as_str()),
            OrganisationError::AlreadyMember(id) => {
                let mut message = String::from_str("User ");
                message.append(id_text(*id).as_str());
                message.append(" is already a member");
                message
            },
        }
    }
}

} // verus!
