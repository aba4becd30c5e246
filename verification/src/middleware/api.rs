use crate::errors::AppError;
use vstd::prelude::*;
use vstd::string::*;

verus! {

/// Guards the routes that are called with a shared secret: a request passes where it
/// carries a key in its `X-API-KEY` header.
pub struct ApiMiddleware;

/// The key that a request carried.
#[derive(Debug, Clone, PartialEq, Eq)]
pub struct ApiKey(pub String);

impl ApiKey {
    /// The key itself.
    pub fn into_inner(self) -> (key: String)
        ensures
            key == self.0,
    {
        self.0
    }
}

/// `err` tells a client that it is not authenticated, in the given words.
pub open spec fn unauthorized(err: AppError, words: Seq<char>) -> bool {
    err matches AppError::Unauthorized(message) && message@ == words
}

impl ApiMiddleware {
    /// The key of a request, from the value of its `X-API-KEY` header, or `None` where
    /// the request has no such header or one that is no text. A request without a key is
    /// not authenticated.
    pub fn api_key(header: Option<String>) -> (result: Result<ApiKey, AppError>)
        ensures
            match header {
                Some(key) => result == Ok::<ApiKey, AppError>(ApiKey(key)),
                None => result matches Err(err) && unauthorized(err, "API key not provided"@),
            },
    {
        match header {
            Some(key) => Ok(ApiKey(key)),
            None => Err(AppError::Unauthorized(String::from_str("API key not provided"))),
        }
    }
}

} // verus!
