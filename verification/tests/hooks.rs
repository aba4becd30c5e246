use c_plane::config::Config;
use c_plane::errors::{AppError, OrganisationError};
use c_plane::handlers::hooks::{
    after_registration_handler, registration_data, IdentityTraits, Name, TraitsPayload,
};
use c_plane::middleware::api::ApiKey;
use c_plane::models::entities::OrganisationRole;
use c_plane::services::organisations::CreateOrganisationData;
use c_plane::store::Store;

const IDENTITY: &str = "550e8400-e29b-41d4-a716-446655440000";
const IDENTITY_VALUE: u128 = 0x550e8400_e29b_41d4_a716_446655440000;

fn key(text: &str) -> ApiKey {
    ApiKey(text.to_string())
}

fn traits(first: &str, last: &str) -> TraitsPayload {
    TraitsPayload::Parsed(IdentityTraits {
        name: Name { first: first.to_string(), last: last.to_string() },
        email: "ada@example.org".to_string(),
    })
}

fn config() -> Config {
    Config {
        database_url: "postgres://db/app".to_string(),
        server_host: "127.0.0.1".to_string(),
        server_port: 8080,
        kratos_api_key: "s3cr3t".to_string(),
    }
}

#[test]
fn a_registration_names_the_organisation_after_the_person() {
    let expected = "s3cr3t".to_string();
    assert_eq!(
        registration_data(key("s3cr3t"), &expected, traits("Ada", "Lovelace"), Some(IDENTITY_VALUE)),
        Ok(CreateOrganisationData {
            name: "Ada Lovelace".to_string(),
            description: None,
            avatar_url: None,
            identity_id: IDENTITY_VALUE,
        })
    );
}

#[test]
fn a_registration_with_the_wrong_key_is_not_authenticated() {
    let expected = "s3cr3t".to_string();
    for wrong in ["", "s3cr3t ", "S3CR3T", "other"] {
        assert_eq!(
            registration_data(key(wrong), &expected, traits("Ada", "Lovelace"), Some(IDENTITY_VALUE)),
            Err(AppError::Unauthorized("Invalid API key".to_string()))
        );
    }
    // The key is looked at before anything else.
    assert_eq!(
        registration_data(key("other"), &expected, TraitsPayload::Missing, None),
        Err(AppError::Unauthorized("Invalid API key".to_string()))
    );
}

#[test]
fn a_registration_needs_traits_of_the_right_shape_and_an_identifier() {
    let expected = "s3cr3t".to_string();
    assert_eq!(
        registration_data(key("s3cr3t"), &expected, TraitsPayload::Missing, Some(IDENTITY_VALUE)),
        Err(AppError::Internal("Identity traits not found".to_string()))
    );
    assert_eq!(
        registration_data(key("s3cr3t"), &expected, TraitsPayload::Malformed, Some(IDENTITY_VALUE)),
        Err(AppError::Internal("Invalid identity traits format".to_string()))
    );
    assert_eq!(
        registration_data(key("s3cr3t"), &expected, traits("Ada", "Lovelace"), None),
        Err(AppError::Internal("Invalid identity ID format".to_string()))
    );
}

#[test]
fn a_registration_creates_the_persons_own_organisation() {
    let mut store = Store::new();
    let result = after_registration_handler(
        &mut store,
        &config(),
        key("s3cr3t"),
        traits("Ada", "Lovelace"),
        IDENTITY,
    );
    assert_eq!(result, Ok(()));
    assert_eq!(store.organisations.len(), 1);
    assert_eq!(store.members.len(), 1);
    let organisation = &store.organisations[0];
    let member = &store.members[0];
    assert_eq!(organisation.name, "Ada Lovelace");
    assert_eq!(organisation.description, None);
    assert_eq!(organisation.avatar_url, None);
    assert_eq!(organisation.created_by, IDENTITY_VALUE);
    assert_eq!(member.organisation_id, organisation.id);
    assert_eq!(member.identity_id, IDENTITY_VALUE);
    assert_eq!(member.role, OrganisationRole::Owner);
    assert!(member.is_active);
}

#[test]
fn a_registration_must_name_an_identity() {
    let mut store = Store::new();
    for name in ["", "ada", "550e8400-e29b-41d4-a716-44665544000g"] {
        assert_eq!(
            after_registration_handler(
                &mut store,
                &config(),
                key("s3cr3t"),
                traits("Ada", "Lovelace"),
                name
            ),
            Err(AppError::Internal("Invalid identity ID format".to_string()))
        );
    }
    assert!(store.organisations.is_empty());
}

#[test]
fn a_refused_registration_creates_nothing() {
    let mut store = Store::new();
    assert_eq!(
        after_registration_handler(
            &mut store,
            &config(),
            key("wrong"),
            traits("Ada", "Lovelace"),
            IDENTITY
        ),
        Err(AppError::Unauthorized("Invalid API key".to_string()))
    );
    assert_eq!(
        after_registration_handler(
            &mut store,
            &config(),
            key("s3cr3t"),
            TraitsPayload::Missing,
            IDENTITY
        ),
        Err(AppError::Internal("Identity traits not found".to_string()))
    );
    // A person without a name would get an organisation with a blank one.
    assert_eq!(
        after_registration_handler(&mut store, &config(), key("s3cr3t"), traits("", ""), IDENTITY),
        Err(AppError::Organisation(OrganisationError::InvalidName))
    );
    assert!(store.organisations.is_empty());
    assert!(store.members.is_empty());
}

#[test]
fn on_an_empty_store_a_registration_in_order_succeeds() {
    for (first, last) in [("Ada", "Lovelace"), ("", "x"), ("x", ""), ("Grace", "")] {
        let mut store = Store::new();
        assert_eq!(
            after_registration_handler(
                &mut store,
                &config(),
                key("s3cr3t"),
                traits(first, last),
                IDENTITY
            ),
            Ok(())
        );
        assert_eq!(store.organisations[0].name, format!("{} {}", first, last));
    }
}
