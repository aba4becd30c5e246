use crate::errors::{AppError, ErrorKind, OrganisationError};
use crate::middleware::auth::UserId;
use crate::models::entities::{OrganisationMemberModel, OrganisationModel, OrganisationRole};
use crate::services::organisations::{
    create_organisation, founding_membership, get_organisation, new_organisation,
    CreateOrganisationData,
};
use crate::store::Store;
use crate::utils::text::blank;
use crate::utils::time::Timestamp;
use vstd::prelude::*;
use vstd::std_specs::convert::FromSpecImpl;

verus! {

/// An organisation as a client is shown it.
#[derive(Debug, Clone, PartialEq, Eq)]
pub struct OrganisationResponse {
    pub id: u128,
    pub name: String,
    pub description: Option<String>,
    pub avatar_url: Option<String>,
    pub is_active: bool,
    pub created_at: Timestamp,
    pub updated_at: Timestamp,
    pub created_by: u128,
}

/// A membership as a client is shown it: without the principals that it names.
#[derive(Debug, Clone, Copy, PartialEq, Eq, Structural)]
pub struct OrganisationMemberResponse {
    pub id: u128,
    pub organisation_id: u128,
    pub role: OrganisationRole,
    pub is_active: bool,
    pub joined_at: Timestamp,
    pub invitation_accepted_at: Timestamp,
}

/// What a client sends to create an organisation.
#[derive(Debug, Clone, PartialEq, Eq)]
pub struct CreateOrganisationRequest {
    pub name: String,
    pub description: Option<String>,
    pub avatar_url: Option<String>,
}

/// What a client is shown of an organisation that it created.
#[derive(Debug, Clone, PartialEq, Eq)]
pub struct CreateOrganisationResponse {
    pub organisation: OrganisationResponse,
    pub organisation_member: OrganisationMemberResponse,
}

impl OrganisationResponse {
    /// What a client is shown of a row: all of it.
    pub open spec fn of(organisation: OrganisationModel) -> OrganisationResponse {
        OrganisationResponse {
            id: organisation.id,
            name: organisation.name,
            description: organisation.description,
            avatar_url: organisation.avatar_url,
            is_active: organisation.is_active,
            created_at: organisation.created_at,
            updated_at: organisation.updated_at,
            created_by: organisation.created_by,
        }
    }
}

impl From<OrganisationModel> for OrganisationResponse {
    fn from(organisation: OrganisationModel) -> (response: OrganisationResponse) {
        OrganisationResponse {
            id: organisation.id,
            name: organisation.name,
            description: organisation.description,
            avatar_url: organisation.avatar_url,
            is_active: organisation.is_active,
            created_at: organisation.created_at,
            updated_at: organisation.updated_at,
            created_by: organisation.created_by,
        }
    }
}

impl FromSpecImpl<OrganisationModel> for OrganisationResponse {
    open spec fn obeys_from_spec() -> bool {
        true
    }

    open spec fn from_spec(organisation: OrganisationModel) -> OrganisationResponse {
        OrganisationResponse::of(organisation)
    }
}

impl OrganisationMemberResponse {
    /// What a client is shown of a row.
    pub open spec fn of(member: OrganisationMemberModel) -> OrganisationMemberResponse {
        OrganisationMemberResponse {
            id: member.id,
            organisation_id: member.organisation_id,
            role: member.role,
            is_active: member.is_active,
            joined_at: member.joined_at,
            invitation_accepted_at: member.invitation_accepted_at,
        }
    }
}

impl From<OrganisationMemberModel> for OrganisationMemberResponse {
    fn from(member: OrganisationMemberModel) -> (response: OrganisationMemberResponse) {
        OrganisationMemberResponse {
            id: member.id,
            organisation_id: member.organisation_id,
            role: member.role,
            is_active: member.is_active,
            joined_at: member.joined_at,
            invitation_accepted_at: member.invitation_accepted_at,
        }
    }
}

impl FromSpecImpl<OrganisationMemberModel> for OrganisationMemberResponse {
    open spec fn obeys_from_spec() -> bool {
        true
    }

    open spec fn from_spec(member: OrganisationMemberModel) -> OrganisationMemberResponse {
        OrganisationMemberResponse::of(member)
    }
}

/// What a principal gives to create the organisation that a client's request describes.
pub open spec fn creation_data(
    request: CreateOrganisationRequest,
    user_id: UserId,
) -> CreateOrganisationData {
    CreateOrganisationData {
        name: request.name,
        description: request.description,
        avatar_url: request.avatar_url,
        identity_id: user_id.0,
    }
}

/// Creates the organisation that `request` describes for the principal `user_id`, which
/// becomes its first owner, and shows the client both rows.
///
/// A blank name is refused, and nothing else is but an identifier that is taken already:
/// on a store without organisations and memberships every other name succeeds.
pub fn create_organisation_handler(
    store: &mut Store,
    request: CreateOrganisationRequest,
    user_id: UserId,
) -> (result: Result<CreateOrganisationResponse, AppError>)
    requires
        old(store)@.wf(),
    ensures
        final(store)@.wf(),
        match result {
            Ok(response) => {
                let data = creation_data(request, user_id);
                let organisation = new_organisation(
                    data,
                    response.organisation.id,
                    response.organisation.created_at,
                );
                let member = founding_membership(
                    response.organisation_member.id,
                    response.organisation.id,
                    user_id.0,
                    response.organisation.created_at,
                );
                &&& old(store)@.creation_permitted(data, organisation.id, member.id)
                &&& response.organisation == OrganisationResponse::of(organisation)
                &&& response.organisation_member == OrganisationMemberResponse::of(member)
                &&& final(store)@ == old(store)@.with_organisation(organisation, member)
            },
            Err(err) => {
                &&& final(store)@ == old(store)@
                &&& exists|organisation_id: u128, membership_id: u128|
                    old(store)@.creation_refusal_of(
                        err,
                        request.name@,
                        organisation_id,
                        membership_id,
                    )
                &&& blank(request.name@) ==> err == AppError::Organisation(
                    OrganisationError::InvalidName,
                )
                &&& !blank(request.name@) ==> err.kind() == ErrorKind::PersistenceFailure
            },
        },
        blank(request.name@) ==> result is Err,
        !blank(request.name@) && old(store)@.organisations.len() == 0 && old(
            store,
        )@.members.len() == 0 ==> result is Ok,
{
    let data = CreateOrganisationData {
        identity_id: user_id.into_inner(),
        name: request.name,
        description: request.description,
        avatar_url: request.avatar_url,
    };
    match create_organisation(store, data) {
        Ok((organisation, organisation_member)) => Ok(
            CreateOrganisationResponse {
                organisation: OrganisationResponse::from(organisation),
                organisation_member: OrganisationMemberResponse::from(organisation_member),
            },
        ),
        Err(err) => Err(err),
    }
}

/// Shows the client the organisation `organisation_id`.
pub fn get_organisation_handler(store: &Store, organisation_id: u128) -> (result: Result<
    OrganisationResponse,
    AppError,
>)
    requires
        store@.identifiers_unique(),
    ensures
        result is Ok <==> store@.has_organisation(organisation_id),
        result matches Ok(organisation) ==> organisation == OrganisationResponse::of(
            store@.organisations[store@.organisation_index(organisation_id)],
        ),
        result matches Err(err) ==> err == AppError::Organisation(
            OrganisationError::OrganisationNotFound(organisation_id),
        ),
{
    match get_organisation(store, organisation_id) {
        Ok(organisation) => Ok(OrganisationResponse::from(organisation)),
        Err(err) => Err(err),
    }
}

} // verus!
