pub mod entities;

pub use entities::organisation_member::{self, OrganisationRole};
