//! Users and groups.

use vstd::prelude::*;

verus! {

/// One user, as the service lists it.
#[derive(Debug, Clone, PartialEq, Eq)]
pub struct IamUser {
    /// The user's identifier.
    pub id: String,
    /// The user's name.
    pub name: String,
    /// A description.
    pub description: Option<String>,
    /// The lifecycle state.
    pub lifecycle_state: String,
    /// When the user was created.
    pub time_created: Option<String>,
}

/// One group, as the service lists it.
#[derive(Debug, Clone, PartialEq, Eq)]
pub struct IamGroup {
    /// The group's identifier.
    pub id: String,
    /// The group's name.
    pub name: String,
    /// A description.
    pub description: Option<String>,
    /// The lifecycle state.
    pub lifecycle_state: String,
    /// When the group was created.
    pub time_created: Option<String>,
}

} // verus!
