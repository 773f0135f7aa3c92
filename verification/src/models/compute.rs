//! Compute instances.

use vstd::prelude::*;

verus! {

/// One compute instance, as the service lists it.
#[derive(Debug, Clone, PartialEq, Eq)]
pub struct ComputeInstance {
    /// The instance's identifier.
    pub id: String,
    /// The name shown to users.
    pub display_name: String,
    /// The shape, such as `VM.Standard.E4.Flex`.
    pub shape: String,
    /// The lifecycle state.
    pub lifecycle_state: String,
    /// The availability domain.
    pub availability_domain: String,
    /// When the instance was created.
    pub time_created: Option<String>,
}

} // verus!
