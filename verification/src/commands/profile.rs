//! Changes to the list of profiles. Each takes the list as it was read and
//! gives the list that is to be written.

use crate::commands::auth::string_views;
use crate::models::profile::{
    has_name, has_unique_names, lemma_name_index, name_index, names, position_of, views,
    OciProfile, ProfileView,
};
use crate::oci::client::{find_profile, found_profile, profile_result_view, ClientError};
use crate::oci::regions::{get_available_regions, region_table, region_views, OciRegion};
use crate::text::str_eq;
use vstd::prelude::*;
use vstd::string::*;

verus! {

/// Why the list of profiles was not changed.
#[derive(Debug, Clone, Copy, PartialEq, Eq)]
pub enum StoreError {
    /// No profile has the name.
    NotFound,
    /// A profile of this name is in the list already.
    AlreadyExists,
}

/// The profiles that are not named `name`, in their order.
pub open spec fn without_name(profiles: Seq<ProfileView>, name: Seq<char>) -> Seq<ProfileView>
    decreases profiles.len(),
{
    if profiles.len() == 0 {
        profiles
    } else if profiles.last().name == name {
        without_name(profiles.drop_last(), name)
    } else {
        without_name(profiles.drop_last(), name).push(profiles.last())
    }
}

/// The message of an error about the profile `name`.
pub open spec fn store_message(e: StoreError, name: Seq<char>) -> Seq<char> {
    match e {
        StoreError::NotFound => "プロファイル '"@ + name + "' が見つかりません。"@,
        StoreError::AlreadyExists => "プロファイル '"@ + name + "' は既に存在します。"@,
    }
}

impl StoreError {
    /// What to tell the user about the profile `name`.
    pub fn message(&self, name: &str) -> (text: String)
        ensures
            text@ == store_message(*self, name@),
    {
        let mut text = String::from_str("プロファイル '");
        text.append(name);
        match self {
            StoreError::NotFound => text.append("' が見つかりません。"),
            StoreError::AlreadyExists => text.append("' は既に存在します。"),
        }
        text
    }
}

/// Removing a name leaves the list as long as it was exactly where no
/// profile has that name.
pub proof fn lemma_without_name_len(profiles: Seq<ProfileView>, name: Seq<char>)
    ensures
        without_name(profiles, name).len() <= profiles.len(),
        (without_name(profiles, name).len() == profiles.len()) == !has_name(profiles, name),
        !has_name(without_name(profiles, name), name),
    decreases profiles.len(),
{
    if profiles.len() > 0 {
        let rest = profiles.drop_last();
        lemma_without_name_len(rest, name);
        let kept = without_name(rest, name);
        if profiles.last().name == name {
            assert(profiles[profiles.len() - 1].name == name);
        } else {
            if has_name(profiles, name) {
                let i = choose|i: int| 0 <= i < profiles.len() && #[trigger] profiles[i].name == name;
                assert(rest[i].name == name);
            }
            if has_name(rest, name) {
                let i = choose|i: int| 0 <= i < rest.len() && #[trigger] rest[i].name == name;
                assert(profiles[i].name == name);
            }
            let out = kept.push(profiles.last());
            if has_name(out, name) {
                let i = choose|i: int| 0 <= i < out.len() && #[trigger] out[i].name == name;
                assert(kept[i].name == name);
            }
        }
    }
}

/// What is left after removing a name stands in the list, in the order of
/// the list: each profile that is left has a place in the list, and a later
/// one a later place.
pub proof fn lemma_without_name_order(profiles: Seq<ProfileView>, name: Seq<char>)
    ensures
        forall|i: int|
            0 <= i < without_name(profiles, name).len() ==> 0 <= #[trigger] kept_place(
                profiles,
                name,
                i,
            ) < profiles.len() && profiles[kept_place(profiles, name, i)] == without_name(
                profiles,
                name,
            )[i],
        forall|i: int, j: int|
            0 <= i < j < without_name(profiles, name).len() ==> #[trigger] kept_place(
                profiles,
                name,
                i,
            ) < #[trigger] kept_place(profiles, name, j),
    decreases profiles.len(),
{
    if profiles.len() > 0 {
        let rest = profiles.drop_last();
        lemma_without_name_order(rest, name);
        let kept = without_name(rest, name);
        assert forall|i: int| 0 <= i < without_name(profiles, name).len() implies 0
            <= #[trigger] kept_place(profiles, name, i) < profiles.len() && profiles[kept_place(
            profiles,
            name,
            i,
        )] == without_name(profiles, name)[i] by {
            if i < kept.len() {
                assert(kept_place(profiles, name, i) == kept_place(rest, name, i));
                assert(profiles[kept_place(rest, name, i)] == rest[kept_place(rest, name, i)]);
            }
        }
        assert forall|i: int, j: int| 0 <= i < j < without_name(profiles, name).len() implies
            #[trigger] kept_place(profiles, name, i) < #[trigger] kept_place(profiles, name, j) by {
            assert(kept_place(profiles, name, i) == kept_place(rest, name, i));
            if j < kept.len() {
                assert(kept_place(profiles, name, j) == kept_place(rest, name, j));
            }
        }
    }
}

/// The place in `profiles` of the profile that stands at `i` once `name` is
/// removed.
pub open spec fn kept_place(profiles: Seq<ProfileView>, name: Seq<char>, i: int) -> int
    decreases profiles.len(),
{
    if profiles.len() == 0 {
        0
    } else if i < without_name(profiles.drop_last(), name).len() {
        kept_place(profiles.drop_last(), name, i)
    } else {
        profiles.len() - 1
    }
}

/// Removing a name leaves the names of a list unique where they were.
pub proof fn lemma_without_name_unique(profiles: Seq<ProfileView>, name: Seq<char>)
    requires
        has_unique_names(profiles),
    ensures
        has_unique_names(without_name(profiles, name)),
{
    lemma_without_name_order(profiles, name);
    let kept = without_name(profiles, name);
    assert forall|i: int, j: int| 0 <= i < j < kept.len() implies (#[trigger] kept[i]).name != (
    #[trigger] kept[j]).name by {
        let a = kept_place(profiles, name, i);
        let b = kept_place(profiles, name, j);
        assert(profiles[a] == kept[i]);
        assert(profiles[b] == kept[j]);
        assert(a < b);
    }
}

/// The names of `profiles`, in their order.
pub fn list_profiles(profiles: &Vec<OciProfile>) -> (out: Vec<String>)
    ensures
        string_views(out@) == names(views(profiles@)),
{
    let mut out: Vec<String> = Vec::new();
    let mut i: usize = 0;
    while i < profiles.len()
        invariant
            i <= profiles@.len(),
            out@.len() == i,
            forall|j: int| 0 <= j < i ==> out@[j]@ == profiles@[j].name@,
        decreases profiles@.len() - i,
    {
        out.push(profiles[i].name.clone());
        i += 1;
    }
    proof {
        assert(string_views(out@) =~= names(views(profiles@)));
    }
    out
}

/// The profile named `name`.
pub fn get_profile(profiles: &Vec<OciProfile>, name: &str) -> (out: Result<OciProfile, ClientError>)
    ensures
        profile_result_view(out) == found_profile(views(profiles@), name@),
{
    find_profile(profiles, name)
}

/// The list with `profile` at its end. It fails where a profile of that name
/// is in the list already.
pub fn create_profile(profiles: Vec<OciProfile>, profile: OciProfile) -> (out: Result<
    Vec<OciProfile>,
    StoreError,
>)
    ensures
        match out {
            Ok(list) => !has_name(views(profiles@), profile@.name) && views(list@) == views(
                profiles@,
            ).push(profile@),
            Err(e) => e == StoreError::AlreadyExists && has_name(views(profiles@), profile@.name),
        },
        out is Ok && has_unique_names(views(profiles@)) ==> has_unique_names(views(out->Ok_0@)),
{
    proof {
        lemma_name_index(views(profiles@), profile@.name);
    }
    match position_of(&profiles, profile.name.as_str()) {
        Some(_) => Err(StoreError::AlreadyExists),
        None => {
            let mut list = profiles;
            proof {
                let before = views(list@);
                let after = before.push(profile@);
                assert(views(list@.push(profile)) =~= after);
                if has_unique_names(before) {
                    assert forall|i: int, j: int| 0 <= i < j < after.len() implies (
                    #[trigger] after[i]).name != (#[trigger] after[j]).name by {
                        assert(after[i] == before[i]);
                        if j < before.len() {
                            assert(after[j] == before[j]);
                        }
                    }
                }
            }
            list.push(profile);
            Ok(list)
        },
    }
}

/// What an update gives. It fails with `NotFound` where no profile is named
/// `name`, and with `AlreadyExists` where the new profile has another name
/// that a profile of the list has already. Otherwise the new profile stands
/// in the place of the first profile named `name`.
pub open spec fn updated(profiles: Seq<ProfileView>, name: Seq<char>, profile: ProfileView) -> Result<
    Seq<ProfileView>,
    StoreError,
> {
    if !has_name(profiles, name) {
        Err(StoreError::NotFound)
    } else if profile.name != name && has_name(profiles, profile.name) {
        Err(StoreError::AlreadyExists)
    } else {
        Ok(profiles.update(name_index(profiles, name), profile))
    }
}

/// An update that succeeds leaves the names of a list unique where they were.
pub proof fn lemma_update_keeps_names_unique(
    profiles: Seq<ProfileView>,
    name: Seq<char>,
    profile: ProfileView,
)
    requires
        has_unique_names(profiles),
        updated(profiles, name, profile) is Ok,
    ensures
        has_unique_names(updated(profiles, name, profile)->Ok_0),
{
    lemma_name_index(profiles, name);
    let at = name_index(profiles, name);
    let after = profiles.update(at, profile);
    assert forall|i: int, j: int| 0 <= i < j < after.len() implies (#[trigger] after[i]).name != (
    #[trigger] after[j]).name by {
        assert(profiles[i].name != profiles[j].name);
        if i == at {
            assert(after[j] == profiles[j]);
            assert(profiles[j].name != profile.name);
        } else if j == at {
            assert(after[i] == profiles[i]);
            assert(profiles[i].name != profile.name);
        } else {
            assert(after[i] == profiles[i]);
            assert(after[j] == profiles[j]);
        }
    }
}

/// The list with `profile` in the place of the first profile named `name`.
/// It fails where no profile has that name, and where the new profile would
/// bear the name of another profile of the list.
pub fn update_profile(profiles: Vec<OciProfile>, name: &str, profile: OciProfile) -> (out: Result<
    Vec<OciProfile>,
    StoreError,
>)
    ensures
        match updated(views(profiles@), name@, profile@) {
            Ok(list) => out is Ok && views(out->Ok_0@) == list,
            Err(e) => out == Err::<Vec<OciProfile>, StoreError>(e),
        },
        out is Ok && has_unique_names(views(profiles@)) ==> has_unique_names(views(out->Ok_0@)),
{
    proof {
        lemma_name_index(views(profiles@), name@);
        lemma_name_index(views(profiles@), profile@.name);
        if has_unique_names(views(profiles@)) && updated(views(profiles@), name@, profile@) is Ok {
            lemma_update_keeps_names_unique(views(profiles@), name@, profile@);
        }
    }
    let place = match position_of(&profiles, name) {
        Some(i) => i,
        None => {
            return Err(StoreError::NotFound);
        },
    };
    if !str_eq(profile.name.as_str(), name) {
        if let Some(_) = position_of(&profiles, profile.name.as_str()) {
            return Err(StoreError::AlreadyExists);
        }
    }
    let mut list = profiles;
    proof {
        assert(views(list@.update(place as int, profile)) =~= views(list@).update(
            place as int,
            profile@,
        ));
    }
    list.set(place, profile);
    Ok(list)
}

/// The list without the profiles named `name`. It fails where no profile has
/// that name.
pub fn delete_profile(profiles: Vec<OciProfile>, name: &str) -> (out: Result<
    Vec<OciProfile>,
    StoreError,
>)
    ensures
        match out {
            Ok(list) => has_name(views(profiles@), name@) && views(list@) == without_name(
                views(profiles@),
                name@,
            ),
            Err(e) => e == StoreError::NotFound && !has_name(views(profiles@), name@),
        },
        out is Ok ==> !has_name(views(out->Ok_0@), name@),
        out is Ok && has_unique_names(views(profiles@)) ==> has_unique_names(views(out->Ok_0@)),
{
    let mut list: Vec<OciProfile> = Vec::new();
    let mut i: usize = 0;
    proof {
        assert(views(list@) =~= without_name(views(profiles@).subrange(0, 0), name@));
    }
    while i < profiles.len()
        invariant
            i <= profiles@.len(),
            views(list@) == without_name(views(profiles@).subrange(0, i as int), name@),
        decreases profiles@.len() - i,
    {
        proof {
            let after = views(profiles@).subrange(0, i + 1);
            assert(after.drop_last() =~= views(profiles@).subrange(0, i as int));
            assert(after.last() == profiles@[i as int]@);
        }
        if !str_eq(profiles[i].name.as_str(), name) {
            let kept = profiles[i].clone();
            proof {
                assert(views(list@.push(kept)) =~= views(list@).push(kept@));
            }
            list.push(kept);
        }
        i += 1;
    }
    proof {
        assert(views(profiles@).subrange(0, profiles@.len() as int) =~= views(profiles@));
        lemma_without_name_len(views(profiles@), name@);
        if has_unique_names(views(profiles@)) {
            lemma_without_name_unique(views(profiles@), name@);
        }
        assert(views(list@).len() == list@.len());
        assert(views(profiles@).len() == profiles@.len());
    }
    if list.len() == profiles.len() {
        Err(StoreError::NotFound)
    } else {
        Ok(list)
    }
}

/// The regions that can be chosen.
pub fn get_regions() -> (regions: Vec<OciRegion>)
    ensures
        region_views(regions@) == region_table(),
{
    get_available_regions()
}

} // verus!
