use crate::errors::AppError;
use crate::middleware::api::unauthorized;
use crate::utils::ids::{parse_id, parsed};
use vstd::prelude::*;
use vstd::string::*;

verus! {

/// Guards the routes that act for a principal: a request passes where its `X-User` header
/// names one.
pub struct AuthMiddleware;

/// The principal that a request acts for.
#[derive(Debug, Clone, Copy, PartialEq, Eq, Structural)]
pub struct UserId(pub u128);

impl UserId {
    /// The identifier of the principal.
    pub fn into_inner(self) -> (id: u128)
        ensures
            id == self.0,
    {
        self.0
    }
}

/// The principal that a header names: the identifier that its text denotes.
pub open spec fn principal_of(header: Option<&str>) -> Option<u128> {
    match header {
        Some(text) => parsed(text@),
        None => None,
    }
}

impl AuthMiddleware {
    /// Lets a request pass that names a principal, and turns away one that names none.
    pub fn authenticate(principal: Option<u128>) -> (result: Result<UserId, AppError>)
        ensures
            match principal {
                Some(id) => result == Ok::<UserId, AppError>(UserId(id)),
                None => result matches Err(err) && unauthorized(err, "User not authenticated"@),
            },
    {
        match principal {
            Some(id) => Ok(UserId(id)),
            None => Err(AppError::Unauthorized(String::from_str("User not authenticated"))),
        }
    }

    /// The principal of a request, from the value of its `X-User` header, or `None` where
    /// the request has no such header or one that is no text. A request whose header is
    /// missing or names no identifier is not authenticated.
    pub fn user_id(header: Option<&str>) -> (result: Result<UserId, AppError>)
        ensures
            match principal_of(header) {
                Some(id) => result == Ok::<UserId, AppError>(UserId(id)),
                None => result matches Err(err) && unauthorized(err, "User not authenticated"@),
            },
    {
        let principal: Option<u128> = match header {
            Some(text) => parse_id(text),
            None => None,
        };
        AuthMiddleware::authenticate(principal)
    }
}

} // verus!
