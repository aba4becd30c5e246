use crate::utils::time::Timestamp;
use vstd::prelude::*;
use vstd::string::*;

verus! {

/// Privilege tier held by a member within one organisation.
///
/// The tiers are totally ordered: `Owner > Admin > Member > Viewer`.
#[derive(Clone, Copy, Debug, PartialEq, Eq, Structural)]
pub enum OrganisationRole {
    Owner,
    Admin,
    Member,
    Viewer,
}

impl OrganisationRole {
    /// Position of the role in the privilege order; a larger rank means more privilege.
    pub open spec fn rank(self) -> nat {
        match self {
            OrganisationRole::Owner => 3,
            OrganisationRole::Admin => 2,
            OrganisationRole::Member => 1,
            OrganisationRole::Viewer => 0,
        }
    }

    /// `self` carries at least the privilege of `other`.
    pub open spec fn at_least(self, other: OrganisationRole) -> bool {
        self.rank() >= other.rank()
    }

    /// The name under which the role is stored and shown.
    pub open spec fn name(self) -> Seq<char> {
        match self {
            OrganisationRole::Owner => "owner"@,
            OrganisationRole::Admin => "admin"@,
            OrganisationRole::Member => "member"@,
            OrganisationRole::Viewer => "viewer"@,
        }
    }

    /// Executable form of [`OrganisationRole::rank`].
    pub fn level(self) -> (n: u8)
        ensures
            n == self.rank(),
    {
        match self {
            OrganisationRole::Owner => 3,
            OrganisationRole::Admin => 2,
            OrganisationRole::Member => 1,
            OrganisationRole::Viewer => 0,
        }
    }

    /// Executable form of [`OrganisationRole::at_least`].
    pub fn is_at_least(self, other: OrganisationRole) -> (b: bool)
        ensures
            b == self.at_least(other),
    {
        self.level() >= other.level()
    }

    /// Executable form of [`OrganisationRole::name`].
    pub fn as_string(self) -> (name: String)
        ensures
            name@ == self.name(),
    {
        match self {
            OrganisationRole::Owner => String::from_str("owner"),
            OrganisationRole::Admin => String::from_str("admin"),
            OrganisationRole::Member => String::from_str("member"),
            OrganisationRole::Viewer => String::from_str("viewer"),
        }
    }
}

/// The membership of one principal in one organisation.
#[derive(Clone, Copy, Debug, PartialEq, Eq, Structural)]
pub struct Model {
    pub id: u128,
    pub organisation_id: u128,
    /// The principal that holds the membership.
    pub identity_id: u128,
    pub role: OrganisationRole,
    /// A removed membership stays as a row that is no longer active.
    pub is_active: bool,
    pub joined_at: Timestamp,
    /// The principal that invited the member.
    pub invited_by: u128,
    pub invited_at: Timestamp,
    pub invitation_accepted_at: Timestamp,
}

impl Model {
    /// The membership counts as an owner of the organisation `organisation`.
    pub open spec fn is_active_owner_of(self, organisation: u128) -> bool {
        self.organisation_id == organisation && self.is_active && self.role
            == OrganisationRole::Owner
    }

    /// Executable form of [`Model::is_active_owner_of`].
    pub fn active_owner_of(&self, organisation: u128) -> (b: bool)
        ensures
            b == self.is_active_owner_of(organisation),
    {
        self.organisation_id == organisation && self.is_active && self.role
            == OrganisationRole::Owner
    }
}

} // verus!
