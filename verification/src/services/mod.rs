pub mod access;
pub mod listing;
pub mod organisations;
pub mod projects;
