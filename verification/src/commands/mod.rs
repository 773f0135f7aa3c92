//! What the commands decide: checks on a profile, changes to the list of
//! profiles, the connection test, and the requests that list resources.

pub mod auth;
pub mod profile;
pub mod resources;
