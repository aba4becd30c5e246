pub mod api;
pub mod auth;
