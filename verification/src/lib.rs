//! Organisations, their members and their projects: who may create, own, join and change
//! them, and what each request does to the rows of the store.
//!
//! The rules are stated over [`store::StoreView`], the mathematical content of a
//! [`store::Store`], and every operation of [`services`] is proved to follow them. What
//! depends on the clock or on chance is read in one place and handed to a function that is
//! proved for every value of it.

pub mod config;
pub mod errors;
pub mod handlers;
pub mod middleware;
pub mod models;
pub mod policy;
pub mod services;
pub mod store;
pub mod utils;
