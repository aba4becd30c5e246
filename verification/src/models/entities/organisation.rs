use crate::utils::text::copy_optional;
use crate::utils::time::Timestamp;
use vstd::prelude::*;

verus! {

/// An organisation: the tenant that memberships and projects belong to.
#[derive(Debug, Clone, PartialEq, Eq)]
pub struct Model {
    pub id: u128,
    pub name: String,
    pub description: Option<String>,
    pub avatar_url: Option<String>,
    pub is_active: bool,
    pub created_at: Timestamp,
    pub updated_at: Timestamp,
    /// The principal that created the organisation.
    pub created_by: u128,
}

impl Model {
    /// A copy of the row.
    pub fn duplicate(&self) -> (copy: Model)
        ensures
            copy == *self,
    {
        Model {
            id: self.id,
            name: self.name.clone(),
            description: copy_optional(&self.description),
            avatar_url: copy_optional(&self.avatar_url),
            is_active: self.is_active,
            created_at: self.created_at,
            updated_at: self.updated_at,
            created_by: self.created_by,
        }
    }
}

} // verus!
