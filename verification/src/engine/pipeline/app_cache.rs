//! Cleans the caches of every user's applications.
use vstd::prelude::*;

use crate::engine::pipeline::CleanStage;
use crate::paths;
use crate::platform::encryption::StorageState;
use crate::platform::users::AndroidUser;
use crate::text;

verus! {

pub struct AppCacheStage;

impl CleanStage for AppCacheStage {
    open spec fn stage_name(&self) -> Seq<char> {
        "AppCacheMultiUser"@
    }

    fn name(&self) -> (r: &'static str) {
        "AppCacheMultiUser"
    }
}

/// Which directories of a user are there.
#[derive(Debug, Clone, Copy, PartialEq, Eq, Structural)]
pub struct UserDirs {
    pub de: bool,
    pub ce: bool,
    pub external: bool,
}

/// The directory of a user's application data on shared storage.
pub open spec fn external_dir(user: AndroidUser) -> Seq<char> {
    paths::joined(user.media_path@, "Android/data"@)
}

impl AppCacheStage {
    /// The directories of a user to clean, in order: device encrypted storage,
    /// credential encrypted storage, shared storage. The latter two are left alone
    /// until the user has unlocked them.
    pub open spec fn targets_of(user: AndroidUser, state: StorageState, there: UserDirs) -> Seq<
        Seq<char>,
    > {
        let de = if state.de_available && there.de {
            seq![user.de_path@]
        } else {
            Seq::empty()
        };
        let ce = if state.ce_available && there.ce {
            seq![user.ce_path@]
        } else {
            Seq::empty()
        };
        let external = if state.ce_available && there.external {
            seq![external_dir(user)]
        } else {
            Seq::empty()
        };
        de + ce + external
    }

    /// The directory of a user's application data on shared storage.
    pub fn external_data(user: &AndroidUser) -> (r: String)
        ensures
            r@ == external_dir(*user),
    {
        paths::join_path(user.media_path.as_str(), "Android/data")
    }

    /// The directories of a user to clean, in order.
    pub fn targets(user: &AndroidUser, state: &StorageState, there: UserDirs) -> (r: Vec<String>)
        ensures
            text::texts(r@) == AppCacheStage::targets_of(*user, *state, there),
    {
        let mut r: Vec<String> = Vec::new();
        if state.de_available && there.de {
            r.push(user.de_path.clone());
        }
        if state.ce_available && there.ce {
            r.push(user.ce_path.clone());
        }
        if state.ce_available && there.external {
            r.push(AppCacheStage::external_data(user));
        }
        assert(text::texts(r@) =~= AppCacheStage::targets_of(*user, *state, there));
        r
    }
}

/// Of a user whose storage is locked nothing but device encrypted storage is cleaned.
pub proof fn law_locked_users_keep_their_data(
    user: AndroidUser,
    state: StorageState,
    there: UserDirs,
    target: Seq<char>,
)
    requires
        !state.ce_available,
        AppCacheStage::targets_of(user, state, there).contains(target),
    ensures
        target == user.de_path@,
{
}

/// Of a user are cleaned, in this order and each once: device encrypted storage where it
/// is accessible and there, credential encrypted storage and the data of applications on
/// shared storage where the user has unlocked them and they are there.
pub proof fn law_accessible_storage_is_cleaned(
    user: &AndroidUser,
    state: &StorageState,
    there: UserDirs,
    r: Vec<String>,
    external: String,
)
    requires
        call_ensures(AppCacheStage::targets, (user, state, there), r),
        call_ensures(AppCacheStage::external_data, (user,), external),
    ensures
        external@ == paths::joined(user.media_path@, "Android/data"@),
        ({
            let one = |b: bool|
                if b {
                    1int
                } else {
                    0
                };
            let de = state.de_available && there.de;
            let ce = state.ce_available && there.ce;
            let shared = state.ce_available && there.external;
            &&& r@.len() == one(de) + one(ce) + one(shared)
            &&& de ==> r@[0]@ == user.de_path@
            &&& ce ==> r@[one(de)]@ == user.ce_path@
            &&& shared ==> r@[one(de) + one(ce)]@ == external@
        }),
{
    let all = text::texts(r@);
    assert(all.len() == r@.len());
    assert forall|i: int| 0 <= i < r@.len() implies #[trigger] r@[i]@ == all[i] by {}
}

} // verus!
