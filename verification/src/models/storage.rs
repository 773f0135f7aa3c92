//! Object storage.

use vstd::prelude::*;

verus! {

/// One bucket, as the service lists it.
#[derive(Debug, Clone, PartialEq, Eq)]
pub struct ObjectStorageBucket {
    /// The bucket's name.
    pub name: String,
    /// The compartment that holds it.
    pub compartment_id: String,
    /// The namespace.
    pub namespace: String,
    /// When the bucket was created.
    pub time_created: Option<String>,
}

} // verus!
