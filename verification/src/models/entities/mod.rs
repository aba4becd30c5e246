pub mod organisation;
pub mod organisation_member;
pub mod project;

pub use organisation::Model as OrganisationModel;
pub use organisation_member::{Model as OrganisationMemberModel, OrganisationRole};
pub use project::Model as ProjectModel;
