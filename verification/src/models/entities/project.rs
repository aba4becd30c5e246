use crate::utils::time::Timestamp;
use vstd::prelude::*;

verus! {

/// A project of an organisation.
#[derive(Debug, Clone, PartialEq, Eq)]
pub struct Model {
    pub id: u128,
    pub name: String,
    pub description: Option<String>,
    pub organisation_id: u128,
    /// The principal that owns the project.
    pub owner_id: u128,
    pub is_archived: bool,
    pub created_at: Timestamp,
    pub updated_at: Timestamp,
}

impl Model {
    /// `self` comes before `other` in a listing: the younger project first, and of two
    /// created at the same instant the one with the smaller identifier.
    pub open spec fn precedes(self, other: Model) -> bool {
        self.created_at.later_than(other.created_at) || (self.created_at == other.created_at
            && self.id < other.id)
    }

    /// Executable form of [`Model::precedes`].
    pub fn comes_before(&self, other: &Model) -> (b: bool)
        ensures
            b == self.precedes(*other),
    {
        self.created_at.is_later_than(&other.created_at) || (self.created_at
            == other.created_at && self.id < other.id)
    }
}

} // verus!
