//! Profiles and the results of checking them.

use crate::text::str_eq;
use vstd::prelude::*;

verus! {

/// One named set of credentials.
#[derive(Debug, PartialEq, Eq)]
pub struct OciProfile {
    /// The profile's name, such as `DEFAULT`.
    pub name: String,
    /// The user's identifier.
    pub user: String,
    /// The tenancy's identifier.
    pub tenancy: String,
    /// The region's code, such as `ap-tokyo-1`.
    pub region: String,
    /// The fingerprint of the API key.
    pub fingerprint: String,
    /// The path of the private key file.
    pub key_file: String,
}

/// What a profile holds, as sequences of characters.
pub struct ProfileView {
    pub name: Seq<char>,
    pub user: Seq<char>,
    pub tenancy: Seq<char>,
    pub region: Seq<char>,
    pub fingerprint: Seq<char>,
    pub key_file: Seq<char>,
}

impl View for OciProfile {
    type V = ProfileView;

    open spec fn view(&self) -> ProfileView {
        ProfileView {
            name: self.name@,
            user: self.user@,
            tenancy: self.tenancy@,
            region: self.region@,
            fingerprint: self.fingerprint@,
            key_file: self.key_file@,
        }
    }
}

impl Clone for OciProfile {
    fn clone(&self) -> (out: OciProfile)
        ensures
            out@ == self@,
    {
        OciProfile {
            name: self.name.clone(),
            user: self.user.clone(),
            tenancy: self.tenancy.clone(),
            region: self.region.clone(),
            fingerprint: self.fingerprint.clone(),
            key_file: self.key_file.clone(),
        }
    }
}

/// The views of a list of profiles, in order.
pub open spec fn views(profiles: Seq<OciProfile>) -> Seq<ProfileView> {
    Seq::new(profiles.len(), |i: int| profiles[i]@)
}

/// The names of a list of profiles, in order.
pub open spec fn names(profiles: Seq<ProfileView>) -> Seq<Seq<char>> {
    Seq::new(profiles.len(), |i: int| profiles[i].name)
}

/// The place of the first profile named `name`, or the length of the list
/// where there is none.
pub open spec fn name_index(profiles: Seq<ProfileView>, name: Seq<char>) -> int
    decreases profiles.len(),
{
    if profiles.len() == 0 {
        0
    } else if profiles[0].name == name {
        0
    } else {
        1 + name_index(profiles.drop_first(), name)
    }
}

/// Whether a profile named `name` is in the list.
pub open spec fn has_name(profiles: Seq<ProfileView>, name: Seq<char>) -> bool {
    exists|i: int| 0 <= i < profiles.len() && #[trigger] profiles[i].name == name
}

/// Whether no two profiles of the list have one name.
pub open spec fn has_unique_names(profiles: Seq<ProfileView>) -> bool {
    forall|i: int, j: int|
        0 <= i < j < profiles.len() ==> (#[trigger] profiles[i]).name != (#[trigger] profiles[j]).name
}

/// `name_index` is in range, points at a profile of that name where it is
/// below the length, and passes none of that name.
pub proof fn lemma_name_index(profiles: Seq<ProfileView>, name: Seq<char>)
    ensures
        0 <= name_index(profiles, name) <= profiles.len(),
        name_index(profiles, name) < profiles.len() ==> profiles[name_index(profiles, name)].name
            == name,
        forall|i: int| 0 <= i < name_index(profiles, name) ==> #[trigger] profiles[i].name != name,
        has_name(profiles, name) == (name_index(profiles, name) < profiles.len()),
    decreases profiles.len(),
{
    if profiles.len() > 0 && profiles[0].name != name {
        let rest = profiles.drop_first();
        lemma_name_index(rest, name);
        assert forall|i: int| 0 <= i < name_index(profiles, name) implies #[trigger] profiles[i].name
            != name by {
            if i > 0 {
                assert(profiles[i] == rest[i - 1]);
            }
        }
        if name_index(rest, name) < rest.len() {
            assert(profiles[name_index(rest, name) + 1] == rest[name_index(rest, name)]);
        }
    }
    let k = name_index(profiles, name);
    if k < profiles.len() {
        assert(profiles[k].name == name);
    }
}

/// The place of the first profile named `name` in `profiles`.
pub fn position_of(profiles: &Vec<OciProfile>, name: &str) -> (place: Option<usize>)
    ensures
        match place {
            Some(i) => i == name_index(views(profiles@), name@) && i < profiles@.len(),
            None => name_index(views(profiles@), name@) == profiles@.len(),
        },
{
    let mut i: usize = 0;
    while i < profiles.len()
        invariant
            i <= profiles@.len(),
            forall|j: int| 0 <= j < i ==> #[trigger] views(profiles@)[j].name != name@,
        decreases profiles@.len() - i,
    {
        if str_eq(profiles[i].name.as_str(), name) {
            proof {
                lemma_name_index(views(profiles@), name@);
                let k = name_index(views(profiles@), name@);
                assert(views(profiles@)[i as int].name == name@);
                if k < i {
                    assert(views(profiles@)[k].name != name@);
                }
                if k > i {
                    assert(views(profiles@)[i as int].name != name@);
                }
            }
            return Some(i);
        }
        i += 1;
    }
    proof {
        lemma_name_index(views(profiles@), name@);
        let k = name_index(views(profiles@), name@);
        if k < profiles@.len() {
            assert(views(profiles@)[k].name != name@);
        }
    }
    None
}

/// The outcome of a connection test.
#[derive(Debug, PartialEq, Eq)]
pub struct ConnectionResult {
    /// Whether the service accepted the request.
    pub success: bool,
    /// What to tell the user.
    pub message: String,
}

/// The outcome of checking a profile's fields.
#[derive(Debug, PartialEq, Eq)]
pub struct ValidationResult {
    /// Whether no check failed.
    pub valid: bool,
    /// One message for each check that failed, in the order of the checks.
    pub errors: Vec<String>,
}

} // verus!
