//! The requests that list the resources of a compartment.

use crate::models::profile::{OciProfile, ProfileView};
use crate::oci::client::{get_request, get_request_of, url_of, RequestPlan};
use crate::oci::signature::RequestView;
use vstd::prelude::*;
use vstd::string::*;

verus! {

/// The query that names a compartment.
pub open spec fn compartment_query(compartment_id: Seq<char>) -> Seq<char> {
    "compartmentId="@ + compartment_id
}

/// The path under which the buckets of a namespace are listed.
pub open spec fn buckets_path(namespace: Seq<char>) -> Seq<char> {
    "/n/"@ + namespace + "/b/"@
}

/// The request that lists what `service` holds under `path` in a
/// compartment.
pub open spec fn listing_of(
    profile: ProfileView,
    service: Seq<char>,
    path: Seq<char>,
    compartment_id: Seq<char>,
) -> RequestView {
    get_request_of(profile, service, path, Some(compartment_query(compartment_id)))
}

/// The request that lists what `service` holds under `path` in the
/// compartment `compartment_id`.
pub fn list_request(profile: &OciProfile, service: &str, path: &str, compartment_id: &str) -> (plan:
    RequestPlan)
    ensures
        plan.request@ == listing_of(profile@, service@, path@, compartment_id@),
        plan.url@ == url_of(plan.request@),
{
    let mut query = String::from_str("compartmentId=");
    query.append(compartment_id);
    get_request(profile, service, path, Some(query.as_str()))
}

/// The request that lists the compute instances of a compartment.
pub fn list_instances(profile: &OciProfile, compartment_id: &str) -> (plan: RequestPlan)
    ensures
        plan.request@ == listing_of(profile@, "iaas"@, "/20160918/instances"@, compartment_id@),
        plan.url@ == url_of(plan.request@),
{
    list_request(profile, "iaas", "/20160918/instances", compartment_id)
}

/// The request that lists the database systems of a compartment.
pub fn list_db_systems(profile: &OciProfile, compartment_id: &str) -> (plan: RequestPlan)
    ensures
        plan.request@ == listing_of(profile@, "database"@, "/20160918/dbSystems"@, compartment_id@),
        plan.url@ == url_of(plan.request@),
{
    list_request(profile, "database", "/20160918/dbSystems", compartment_id)
}

/// The request that lists the users of the profile's tenancy.
pub fn list_users(profile: &OciProfile) -> (plan: RequestPlan)
    ensures
        plan.request@ == listing_of(profile@, "identity"@, "/20160918/users"@, profile@.tenancy),
        plan.url@ == url_of(plan.request@),
{
    list_request(profile, "identity", "/20160918/users", profile.tenancy.as_str())
}

/// The request that lists the groups of the profile's tenancy.
pub fn list_groups(profile: &OciProfile) -> (plan: RequestPlan)
    ensures
        plan.request@ == listing_of(profile@, "identity"@, "/20160918/groups"@, profile@.tenancy),
        plan.url@ == url_of(plan.request@),
{
    list_request(profile, "identity", "/20160918/groups", profile.tenancy.as_str())
}

/// The request that lists the virtual cloud networks of a compartment.
pub fn list_vcns(profile: &OciProfile, compartment_id: &str) -> (plan: RequestPlan)
    ensures
        plan.request@ == listing_of(profile@, "iaas"@, "/20160918/vcns"@, compartment_id@),
        plan.url@ == url_of(plan.request@),
{
    list_request(profile, "iaas", "/20160918/vcns", compartment_id)
}

/// The request that reads the namespace of the object storage.
pub fn get_namespace(profile: &OciProfile) -> (plan: RequestPlan)
    ensures
        plan.request@ == get_request_of(profile@, "objectstorage"@, "/n/"@, None),
        plan.url@ == url_of(plan.request@),
{
    get_request(profile, "objectstorage", "/n/", None)
}

/// The request that lists the buckets of `namespace` in a compartment.
pub fn list_buckets(profile: &OciProfile, compartment_id: &str, namespace: &str) -> (plan:
    RequestPlan)
    ensures
        plan.request@ == listing_of(
            profile@,
            "objectstorage"@,
            buckets_path(namespace@),
            compartment_id@,
        ),
        plan.url@ == url_of(plan.request@),
{
    let mut path = String::from_str("/n/");
    path.append(namespace);
    path.append("/b/");
    list_request(profile, "objectstorage", path.as_str(), compartment_id)
}

} // verus!
