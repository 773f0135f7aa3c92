//! The records that the library hands to its callers.

pub mod compute;
pub mod database;
pub mod iam;
pub mod network;
pub mod profile;
pub mod storage;
