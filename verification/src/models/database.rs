//! Database systems.

use vstd::prelude::*;

verus! {

/// One database system, as the service lists it.
#[derive(Debug, Clone, PartialEq, Eq)]
pub struct DbSystem {
    /// The system's identifier.
    pub id: String,
    /// The name shown to users.
    pub display_name: String,
    /// The database version.
    pub db_version: Option<String>,
    /// The lifecycle state.
    pub lifecycle_state: String,
    /// The shape.
    pub shape: Option<String>,
    /// When the system was created.
    pub time_created: Option<String>,
}

} // verus!
