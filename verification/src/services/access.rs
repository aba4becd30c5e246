use crate::errors::{AppError, DatabaseError, OrganisationError};
use crate::models::entities::OrganisationRole;
use crate::policy::{authorize, permits, Action};
use crate::store::Store;
use vstd::prelude::*;
use vstd::string::*;

verus! {

/// `err` is the refusal owed to a principal that asks for `action` while it holds `role` as
/// its active role in the organisation, or holds none: a principal without an active
/// membership is told that it is no member, one with too low a role is told the role that
/// the action needs and the role that it has.
pub open spec fn denies(
    err: AppError,
    role: Option<OrganisationRole>,
    principal: u128,
    action: Action,
) -> bool {
    match role {
        None => err == AppError::Organisation(OrganisationError::UserNotMember(principal)),
        Some(role) => !permits(role, action) && (err matches AppError::Organisation(
            OrganisationError::InsufficientRole { required, current },
        ) && required@ == action.minimum_role().name() && current@ == role.name()),
    }
}

/// `err` reports that the store refused a row because of the named constraint.
pub open spec fn constraint_violated(err: AppError, constraint: Seq<char>) -> bool {
    err matches AppError::Database(DatabaseError::ConstraintViolation(name)) && name@
        == constraint
}

/// The error that reports that the store refused a row because of the named constraint.
pub fn constraint_violation(constraint: &str) -> (err: AppError)
    ensures
        constraint_violated(err, constraint@),
{
    AppError::Database(DatabaseError::ConstraintViolation(String::from_str(constraint)))
}

/// Lets `principal` pass where it is an active member of `organisation` in a role that
/// permits `action`, and says why not where it is not.
pub fn require(store: &Store, principal: u128, organisation: u128, action: Action) -> (result:
    Result<(), AppError>)
    requires
        store@.memberships_unique(),
    ensures
        result is Ok <==> store@.may(principal, organisation, action),
        result matches Err(err) ==> denies(
            err,
            store@.active_role(organisation, principal),
            principal,
            action,
        ),
{
    match store.active_role(organisation, principal) {
        None => Err(AppError::Organisation(OrganisationError::UserNotMember(principal))),
        Some(role) => {
            if authorize(role, action) {
                Ok(())
            } else {
                Err(
                    AppError::Organisation(
                        OrganisationError::InsufficientRole {
                            required: action.required_role().as_string(),
                            current: role.as_string(),
                        },
                    ),
                )
            }
        },
    }
}

} // verus!
