use c_plane::errors::AppError;
use c_plane::middleware::api::{ApiKey, ApiMiddleware};
use c_plane::middleware::auth::{AuthMiddleware, UserId};

#[test]
fn a_request_with_a_key_passes() {
    assert_eq!(
        ApiMiddleware::api_key(Some("s3cr3t".to_string())),
        Ok(ApiKey("s3cr3t".to_string()))
    );
    assert_eq!(ApiMiddleware::api_key(Some(String::new())), Ok(ApiKey(String::new())));
}

#[test]
fn a_request_without_a_key_is_not_authenticated() {
    assert_eq!(
        ApiMiddleware::api_key(None),
        Err(AppError::Unauthorized("API key not provided".to_string()))
    );
}

#[test]
fn a_key_gives_back_what_it_holds() {
    assert_eq!(ApiKey("s3cr3t".to_string()).into_inner(), "s3cr3t");
}

#[test]
fn a_request_that_names_a_principal_passes() {
    assert_eq!(
        AuthMiddleware::user_id(Some("550e8400-e29b-41d4-a716-446655440000")),
        Ok(UserId(0x550e8400_e29b_41d4_a716_446655440000))
    );
    // The identifier may be written without hyphens and in capitals.
    assert_eq!(
        AuthMiddleware::user_id(Some("550E8400E29B41D4A716446655440000")),
        Ok(UserId(0x550e8400_e29b_41d4_a716_446655440000))
    );
}

#[test]
fn a_request_that_names_no_principal_is_not_authenticated() {
    for header in [None, Some(""), Some("alice"), Some("550e8400-e29b-41d4-a716-44665544000")] {
        assert_eq!(
            AuthMiddleware::user_id(header),
            Err(AppError::Unauthorized("User not authenticated".to_string()))
        );
    }
}

#[test]
fn a_user_id_gives_back_what_it_holds() {
    assert_eq!(UserId(42).into_inner(), 42);
}

#[test]
fn a_principal_passes_and_nobody_is_turned_away() {
    assert_eq!(AuthMiddleware::authenticate(Some(7)), Ok(UserId(7)));
    assert_eq!(
        AuthMiddleware::authenticate(None),
        Err(AppError::Unauthorized("User not authenticated".to_string()))
    );
}
