use crate::utils::ids::{hyphenated, id_text};
use vstd::prelude::*;
use vstd::string::*;

verus! {

/// A rule of user accounts that a request ran against.
#[derive(Debug, Clone, PartialEq, Eq)]
pub enum UserError {
    UserNotFound(u128),
    EmailAlreadyExists(String),
    AccountDeactivated,
    InsufficientPermissions,
}

impl UserError {
    /// The message of the error.
    pub open spec fn text(self) -> Seq<char> {
        match self {
            UserError::UserNotFound(id) => "User not found: "@ + hyphenated(id),
            UserError::EmailAlreadyExists(email) => "Email already exists: "@ + email@,
            UserError::AccountDeactivated => "Account is deactivated"@,
            UserError::InsufficientPermissions => "Insufficient permissions"@,
        }
    }

    /// Writes the message of the error.
    pub fn message(&self) -> (message: String)
        ensures
            message@ == self.text(),
    {
        match self {
            UserError::UserNotFound(id) => String::from_str("User not found: ").concat(
                id_text(*id).as_str(),
            ),
            UserError::EmailAlreadyExists(email) => String::from_str(
                "Email already exists: ",
            ).concat(email.as_str()),
            UserError::AccountDeactivated => String::from_str("Account is deactivated"),
            UserError::InsufficientPermissions => String::from_str("Insufficient permissions"),
        }
    }
}

} // verus!
