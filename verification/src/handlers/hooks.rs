use crate::config::Config;
use crate::errors::{AppError, ErrorKind, OrganisationError};
use crate::middleware::api::{unauthorized, ApiKey};
use crate::services::organisations::{create_organisation, CreateOrganisationData};
use crate::store::Store;
use crate::utils::ids::{parse_id, parsed};
use crate::utils::text::blank;
use vstd::prelude::*;
use vstd::string::*;

verus! {

/// The name of a person.
#[derive(Debug, Clone, PartialEq, Eq)]
pub struct Name {
    pub first: String,
    pub last: String,
}

/// What the identity provider knows of a person.
#[derive(Debug, Clone, PartialEq, Eq)]
pub struct IdentityTraits {
    pub name: Name,
    pub email: String,
}

/// The traits of an identity as they arrive with a registration.
#[derive(Debug, Clone, PartialEq, Eq)]
pub enum TraitsPayload {
    /// The identity came without traits.
    Missing,
    /// The traits do not have the shape of [`IdentityTraits`].
    Malformed,
    Parsed(IdentityTraits),
}

/// `err` reports a failure of the program itself, in the given words.
pub open spec fn internal(err: AppError, words: Seq<char>) -> bool {
    err matches AppError::Internal(message) && message@ == words
}

/// The name of the organisation that a person gets on registration: the person's first
/// and last name with a space between them.
pub open spec fn personal_name(name: Name) -> Seq<char> {
    name.first@ + " "@ + name.last@
}

/// `err` is the refusal owed to a registration that does not lead to an organisation: the
/// first of a wrong key, missing traits, malformed traits, and an identifier that is none.
pub open spec fn registration_refusal(
    err: AppError,
    api_key: ApiKey,
    expected_key: String,
    traits: TraitsPayload,
    identity: Option<u128>,
) -> bool {
    if api_key.0@ != expected_key@ {
        unauthorized(err, "Invalid API key"@)
    } else if traits is Missing {
        internal(err, "Identity traits not found"@)
    } else if traits is Malformed {
        internal(err, "Invalid identity traits format"@)
    } else {
        identity is None && internal(err, "Invalid identity ID format"@)
    }
}

/// What the registration of an identity gives to create the identity's own organisation.
/// `identity` is the identifier that the registration names, or `None` where what it names
/// is no identifier.
///
/// The call must carry the key that the application is configured with. The organisation
/// is named after the person and has no description or avatar.
pub fn registration_data(
    api_key: ApiKey,
    expected_key: &String,
    traits: TraitsPayload,
    identity: Option<u128>,
) -> (result: Result<CreateOrganisationData, AppError>)
    ensures
        result is Ok <==> api_key.0@ == expected_key@ && traits is Parsed && identity is Some,
        result matches Ok(data) ==> {
            &&& Some(data.identity_id) == identity
            &&& data.name@ == personal_name(traits->Parsed_0.name)
            &&& data.description is None
            &&& data.avatar_url is None
        },
        result matches Err(err) ==> registration_refusal(
            err,
            api_key,
            *expected_key,
            traits,
            identity,
        ),
{
    let key = api_key.into_inner();
    if !(key == *expected_key) {
        return Err(AppError::Unauthorized(String::from_str("Invalid API key")));
    }
    let identity_traits = match traits {
        TraitsPayload::Missing => {
            return Err(AppError::Internal(String::from_str("Identity traits not found")));
        },
        TraitsPayload::Malformed => {
            return Err(AppError::Internal(String::from_str("Invalid identity traits format")));
        },
        TraitsPayload::Parsed(identity_traits) => identity_traits,
    };
    let id: u128 = match identity {
        Some(id) => id,
        None => {
            return Err(AppError::Internal(String::from_str("Invalid identity ID format")));
        },
    };
    let mut name = identity_traits.name.first;
    name.append(" ");
    name.append(identity_traits.name.last.as_str());
    Ok(CreateOrganisationData { identity_id: id, name, description: None, avatar_url: None })
}

/// A registration is in order where it carries the expected key, comes with traits of the
/// right shape, and names an identity.
pub open spec fn registration_in_order(
    api_key: ApiKey,
    expected_key: String,
    traits: TraitsPayload,
    identity: Option<u128>,
) -> bool {
    api_key.0@ == expected_key@ && traits is Parsed && identity is Some
}

/// Handles the registration of an identity: where the call carries the configured key and
/// names an identity with its traits, the identity gets an organisation of its own, of
/// which it is the creator and the first owner.
///
/// A registration that is in order fails only where the person's name is blank or a drawn
/// identifier is taken already: on a store without organisations and memberships every
/// other one succeeds.
pub fn after_registration_handler(
    store: &mut Store,
    config: &Config,
    api_key: ApiKey,
    traits: TraitsPayload,
    identity_id: &str,
) -> (result: Result<(), AppError>)
    requires
        old(store)@.wf(),
    ensures
        final(store)@.wf(),
        result is Ok ==> {
            &&& registration_in_order(
                api_key,
                config.kratos_api_key,
                traits,
                parsed(identity_id@),
            )
            &&& !blank(personal_name(traits->Parsed_0.name))
            &&& final(store)@.organisations.len() == old(store)@.organisations.len() + 1
            &&& final(store)@.organisations.drop_last() == old(store)@.organisations
            &&& final(store)@.members.drop_last() == old(store)@.members
            &&& final(store)@.projects == old(store)@.projects
            &&& final(store)@.organisations.last().name@ == personal_name(traits->Parsed_0.name)
            &&& Some(final(store)@.organisations.last().created_by) == parsed(identity_id@)
            &&& final(store)@.members.last().is_active_owner_of(
                final(store)@.organisations.last().id,
            )
            &&& Some(final(store)@.members.last().identity_id) == parsed(identity_id@)
        },
        result matches Err(err) ==> {
            &&& final(store)@ == old(store)@
            &&& if !registration_in_order(
                api_key,
                config.kratos_api_key,
                traits,
                parsed(identity_id@),
            ) {
                registration_refusal(
                    err,
                    api_key,
                    config.kratos_api_key,
                    traits,
                    parsed(identity_id@),
                )
            } else {
                let name = personal_name(traits->Parsed_0.name);
                &&& exists|organisation_id: u128, membership_id: u128|
                    old(store)@.creation_refusal_of(err, name, organisation_id, membership_id)
                &&& blank(name) ==> err == AppError::Organisation(OrganisationError::InvalidName)
                &&& !blank(name) ==> err.kind() == ErrorKind::PersistenceFailure
            }
        },
        !registration_in_order(api_key, config.kratos_api_key, traits, parsed(identity_id@))
            ==> result is Err,
        registration_in_order(api_key, config.kratos_api_key, traits, parsed(identity_id@))
            && blank(personal_name(traits->Parsed_0.name)) ==> result is Err,
        registration_in_order(api_key, config.kratos_api_key, traits, parsed(identity_id@))
            && !blank(personal_name(traits->Parsed_0.name)) && old(store)@.organisations.len()
            == 0 && old(store)@.members.len() == 0 ==> result is Ok,
{
    let identity = parse_id(identity_id);
    let data = match registration_data(api_key, &config.kratos_api_key, traits, identity) {
        Ok(data) => data,
        Err(err) => {
            return Err(err);
        },
    };
    match create_organisation(store, data) {
        Ok((organisation, member)) => {
            assert(store@.organisations.drop_last() =~= old(store)@.organisations);
            assert(store@.members.drop_last() =~= old(store)@.members);
            Ok(())
        },
        Err(err) => Err(err),
    }
}

} // verus!
