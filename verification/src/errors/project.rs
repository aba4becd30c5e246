use crate::utils::ids::{hyphenated, id_text};
use crate::utils::text::{decimal, push_decimal};
use vstd::prelude::*;
use vstd::string::*;

verus! {

/// A rule of projects that a request ran against.
#[derive(Debug, Clone, PartialEq, Eq)]
pub enum ProjectError {
    InvalidSlug(String),
    SlugAlreadyExists(String),
    /// No project has this identifier.
    ProjectNotFound(u128),
    CannotArchivePublicProject,
    OwnerCannotLeaveProject,
    ProjectLimitExceeded { current: u32, limit: u32 },
    /// The project's name is empty.
    InvalidName,
    /// The principal named as the project's owner holds no active membership of at least
    /// member rank in the project's organisation.
    OwnerNotMember(u128),
}

impl ProjectError {
    /// The message of the error.
    pub open spec fn text(self) -> Seq<char> {
        match self {
            ProjectError::InvalidSlug(slug) => "Invalid slug: "@ + slug@,
            ProjectError::SlugAlreadyExists(slug) => "Slug already exists: "@ + slug@,
            ProjectError::ProjectNotFound(id) => "Project not found: "@ + hyphenated(id),
            ProjectError::CannotArchivePublicProject => "Cannot archive public project"@,
            ProjectError::OwnerCannotLeaveProject => "Project owner cannot leave project"@,
            ProjectError::ProjectLimitExceeded { current, limit } => "Project limit exceeded: "@
                + decimal(current as nat) + "/"@ + decimal(limit as nat),
            ProjectError::InvalidName => "Project name must not be empty"@,
            ProjectError::OwnerNotMember(id) => "Project owner "@ + hyphenated(id)
                + " is not a member of the organisation"@,
        }
    }

    /// Writes the message of the error.
    pub fn message(&self) -> (message: String)
        ensures
            message@ == self.text(),
    {
        match self {
            ProjectError::InvalidSlug(slug) => String::from_str("Invalid slug: ").concat(
                slug.as_str(),
            ),
            ProjectError::SlugAlreadyExists(slug) => String::from_str(
                "Slug already exists: ",
            ).concat(slug.as_str()),
            ProjectError::ProjectNotFound(id) => String::from_str("Project not found: ").concat(
                id_text(*id).as_str(),
            ),
            ProjectError::CannotArchivePublicProject => String::from_str(
                "Cannot archive public project",
            ),
            ProjectError::OwnerCannotLeaveProject => String::from_str(
                "Project owner cannot leave project",
            ),
            ProjectError::ProjectLimitExceeded { current, limit } => {
                let mut message = String::from_str("Project limit exceeded: ");
                push_decimal(&mut message, *current as u64);
                message.append("/");
                push_decimal(&mut message, *limit as u64);
                message
            },
            ProjectError::InvalidName => String::from_str("Project name must not be empty"),
            ProjectError::OwnerNotMember(id) => {
                let mut message = String::from_str("Project owner ");
                message.append(id_text(*id).as_str());
                message.append(" is not a member of the organisation");
                message
            },
        }
    }
}

} // verus!
