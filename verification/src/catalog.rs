//! The targets known at a time.
use vstd::prelude::*;

use crate::assoc;
use crate::assoc::TextMap;
use crate::domain::target::{TargetClass, TargetDescriptor, TargetModel, TargetSafetyTier};
use crate::domain::types::{
    CatalogGeneration, DeviceNumber, GenerationId, InodeNumber, TargetId,
};
use crate::error::CleanerError;
use crate::numerals;
use crate::paths;
use crate::platform::encryption::EncryptionState;
use crate::text;

verus! {

/// The number of targets beyond which no further package is looked at.
pub const MAX_CATALOG_TARGETS: usize = 5000;

/// The cache directories that packages are known to have.
pub open spec fn known_cache_subdirs() -> Seq<Seq<char>> {
    seq![
        "cache"@,
        ".cache"@,
        "app_webview/Default/Cache"@,
        "app_webview/Default/Code Cache"@,
        "app_webview/Default/GPUCache"@,
        "app_textures"@,
        "splash_cache"@,
        "image_cache"@,
        "fresco_cache"@,
        "glide_cache"@,
        "coil_cache"@,
        "http-engine-cache"@,
        "picasso-cache"@,
        "volley"@,
        "disk_cache"@,
        "network_cache"@,
    ]
}

/// The cache directories that packages are known to have.
pub fn known_cache_list() -> (r: [&'static str; 16])
    ensures
        text::literals(r@) == known_cache_subdirs(),
{
    let r = [
        "cache",
        ".cache",
        "app_webview/Default/Cache",
        "app_webview/Default/Code Cache",
        "app_webview/Default/GPUCache",
        "app_textures",
        "splash_cache",
        "image_cache",
        "fresco_cache",
        "glide_cache",
        "coil_cache",
        "http-engine-cache",
        "picasso-cache",
        "volley",
        "disk_cache",
        "network_cache",
    ];
    assert(text::literals(r@) =~= known_cache_subdirs());
    r
}

/// The system directories that collect junk.
pub open spec fn system_junk_locations() -> Seq<(Seq<char>, TargetClass)> {
    seq![
        ("/data/anr"@, TargetClass::Tombstones),
        ("/data/tombstones"@, TargetClass::Tombstones),
        ("/data/system/dropbox"@, TargetClass::LogArchive),
        ("/data/local/tmp"@, TargetClass::TempDir),
    ]
}

/// The system directories that collect junk.
pub fn system_junk_list() -> (r: [(&'static str, TargetClass); 4])
    ensures
        r@.len() == system_junk_locations().len(),
        forall|i: int|
            0 <= i < r@.len() ==> (#[trigger] r@[i]).0@ == system_junk_locations()[i].0 && r@[i].1
                == system_junk_locations()[i].1,
{
    [
        ("/data/anr", TargetClass::Tombstones),
        ("/data/tombstones", TargetClass::Tombstones),
        ("/data/system/dropbox", TargetClass::LogArchive),
        ("/data/local/tmp", TargetClass::TempDir),
    ]
}

/// What was seen of a directory that could be opened safely.
#[derive(Debug, Clone, Copy, PartialEq, Eq, Structural)]
pub struct DirFacts {
    pub dev: DeviceNumber,
    pub ino: InodeNumber,
    pub owner_uid: u32,
    pub owner_gid: u32,
}

/// The directory of a package, and which of the known cache directories could be
/// opened in it, in the order of the known ones.
#[derive(Debug, Clone)]
pub struct PackageDir {
    pub path: String,
    pub name: String,
    pub caches: Vec<Option<DirFacts>>,
}

/// The directory of a package on shared storage, and its cache directory where that
/// could be opened.
#[derive(Debug, Clone)]
pub struct ExternalDir {
    pub path: String,
    pub name: String,
    pub cache: Option<DirFacts>,
}

/// What was seen of one user's storage. What the state does not allow to be read
/// is empty.
#[derive(Debug, Clone)]
pub struct UserStorage {
    pub user_id: u32,
    pub state: EncryptionState,
    pub ce: Vec<PackageDir>,
    pub de: Vec<PackageDir>,
    pub media: Vec<ExternalDir>,
}

/// What was seen of the whole device.
#[derive(Debug, Clone)]
pub struct DeviceStorage {
    pub users: Vec<UserStorage>,
    /// The directories to fall back on where no user's storage could be told, in
    /// the order in which to take them.
    pub fallback: Vec<Vec<PackageDir>>,
    /// Which of the system directories could be opened, in their order.
    pub system: Vec<Option<DirFacts>>,
}

/// The targets, by their identifiers.
pub type Targets = Map<Seq<char>, TargetModel>;

/// The models of the descriptors.
pub open spec fn models(targets: Map<Seq<char>, TargetDescriptor>) -> Targets {
    targets.map_values(|d: TargetDescriptor| d@)
}

/// The name is refused as that of a package.
pub open spec fn is_bad_name(name: Seq<char>) -> bool {
    name.len() == 0 || text::byte_len(name) > 255 || name.contains('\0')
}

/// The identifier of a package's cache directory.
pub open spec fn cache_target(user_id: u32, package: Seq<char>, sub: Seq<char>) -> Seq<char> {
    let owner = if user_id == 0 {
        "android:"@
    } else {
        "android:u"@ + numerals::decimal(user_id as nat) + ":"@
    };
    if sub == "cache"@ {
        owner + package + ":cache"@
    } else {
        owner + package + ":"@ + text::replaced(sub, '/', "_"@) + ":cache"@
    }
}

/// The identifier of a package's cache directory on shared storage.
pub open spec fn external_target(user_id: u32, package: Seq<char>) -> Seq<char> {
    "android:u"@ + numerals::decimal(user_id as nat) + ":"@ + package + ":ext_cache"@
}

/// The identifier of a system directory.
pub open spec fn system_target(path: Seq<char>) -> Seq<char> {
    "system:"@ + text::replaced(path, '/', "_"@)
}

/// The facts at a position, where there are any.
pub open spec fn facts_at(facts: Seq<Option<DirFacts>>, i: int) -> Option<DirFacts> {
    if 0 <= i < facts.len() {
        facts[i]
    } else {
        None
    }
}

/// The target for a directory.
pub open spec fn target_for(
    id: Seq<char>,
    class: TargetClass,
    path: Seq<char>,
    facts: DirFacts,
    package: Option<Seq<char>>,
    generation: CatalogGeneration,
) -> TargetModel {
    TargetModel {
        target_id: id,
        target_class: class,
        base_path: path,
        dev: facts.dev,
        ino: facts.ino,
        owner_uid: facts.owner_uid,
        owner_gid: facts.owner_gid,
        package_name: package,
        safety_tier: TargetSafetyTier::StandardCache,
        catalog_generation: generation,
    }
}

/// `targets` with those of the first `n` known cache directories of a package. A
/// target that is there already stays.
pub open spec fn with_caches(
    targets: Targets,
    package: PackageDir,
    user_id: u32,
    generation: CatalogGeneration,
    n: int,
) -> Targets
    decreases n,
{
    if n <= 0 {
        targets
    } else {
        let done = with_caches(targets, package, user_id, generation, n - 1);
        let sub = known_cache_subdirs()[n - 1];
        let id = cache_target(user_id, package.name@, sub);
        match facts_at(package.caches@, n - 1) {
            Some(facts) => if done.contains_key(id) {
                done
            } else {
                done.insert(
                    id,
                    target_for(
                        id,
                        TargetClass::AppCache,
                        paths::joined(package.path@, sub),
                        facts,
                        Some(package.name@),
                        generation,
                    ),
                )
            },
            None => done,
        }
    }
}

/// `targets` with those of the first `n` packages, as long as there are not too
/// many.
pub open spec fn with_packages(
    targets: Targets,
    packages: Seq<PackageDir>,
    user_id: u32,
    generation: CatalogGeneration,
    n: int,
) -> Targets
    decreases n,
{
    if n <= 0 {
        targets
    } else {
        let done = with_packages(targets, packages, user_id, generation, n - 1);
        if is_bad_name(packages[n - 1].name@) || done.dom().len() > MAX_CATALOG_TARGETS {
            done
        } else {
            with_caches(
                done,
                packages[n - 1],
                user_id,
                generation,
                known_cache_subdirs().len() as int,
            )
        }
    }
}

/// `targets` with those of the first `n` packages on shared storage.
pub open spec fn with_external(
    targets: Targets,
    packages: Seq<ExternalDir>,
    user_id: u32,
    generation: CatalogGeneration,
    n: int,
) -> Targets
    decreases n,
{
    if n <= 0 {
        targets
    } else {
        let done = with_external(targets, packages, user_id, generation, n - 1);
        let package = packages[n - 1];
        let id = external_target(user_id, package.name@);
        match package.cache {
            Some(facts) => done.insert(
                id,
                target_for(
                    id,
                    TargetClass::ExternalCache,
                    paths::joined(package.path@, "cache"@),
                    facts,
                    Some(package.name@),
                    generation,
                ),
            ),
            None => done,
        }
    }
}

/// The number of packages among the first `n` that have a cache directory on shared
/// storage.
pub open spec fn external_count(packages: Seq<ExternalDir>, n: int) -> int
    decreases n,
{
    if n <= 0 {
        0
    } else {
        external_count(packages, n - 1) + if packages[n - 1].cache is Some {
            1int
        } else {
            0int
        }
    }
}

/// `targets` with the first `n` system directories.
pub open spec fn with_system(
    targets: Targets,
    facts: Seq<Option<DirFacts>>,
    generation: CatalogGeneration,
    n: int,
) -> Targets
    decreases n,
{
    if n <= 0 {
        targets
    } else {
        let done = with_system(targets, facts, generation, n - 1);
        let (path, class) = system_junk_locations()[n - 1];
        let id = system_target(path);
        match facts_at(facts, n - 1) {
            Some(f) => done.insert(id, target_for(id, class, path, f, None, generation)),
            None => done,
        }
    }
}

/// The number of the first `n` system directories that are there.
pub open spec fn system_count(facts: Seq<Option<DirFacts>>, n: int) -> int
    decreases n,
{
    if n <= 0 {
        0
    } else {
        system_count(facts, n - 1) + if facts_at(facts, n - 1) is Some {
            1int
        } else {
            0int
        }
    }
}

/// Everything of a user's storage may be looked at.
pub open spec fn reads_everything(state: EncryptionState) -> bool {
    state == EncryptionState::FullyUnlocked || state == EncryptionState::Unencrypted
}

/// `targets` with those of a user, as far as the state of their storage allows.
pub open spec fn with_user(
    targets: Targets,
    user: UserStorage,
    generation: CatalogGeneration,
) -> Targets {
    let ce = with_packages(targets, user.ce@, user.user_id, generation, user.ce@.len() as int);
    if reads_everything(user.state) {
        let de = with_packages(ce, user.de@, user.user_id, generation, user.de@.len() as int);
        with_external(de, user.media@, user.user_id, generation, user.media@.len() as int)
    } else if user.state == EncryptionState::DeviceEncryptedOnly {
        with_packages(targets, user.de@, user.user_id, generation, user.de@.len() as int)
    } else {
        targets
    }
}

/// `targets` with those of the first `n` users.
pub open spec fn with_users(
    targets: Targets,
    users: Seq<UserStorage>,
    generation: CatalogGeneration,
    n: int,
) -> Targets
    decreases n,
{
    if n <= 0 {
        targets
    } else {
        with_user(with_users(targets, users, generation, n - 1), users[n - 1], generation)
    }
}

/// The storage of one of the first `n` users could be told.
pub open spec fn some_user_known(users: Seq<UserStorage>, n: int) -> bool {
    exists|i: int| 0 <= i < n && (#[trigger] users[i]).state != EncryptionState::Unknown
}

/// `targets` with those of the first `n` directories to fall back on, which belong
/// to the first user.
pub open spec fn with_fallback(
    targets: Targets,
    lists: Seq<Vec<PackageDir>>,
    generation: CatalogGeneration,
    n: int,
) -> Targets
    decreases n,
{
    if n <= 0 {
        targets
    } else {
        let list = lists[n - 1]@;
        with_packages(
            with_fallback(targets, lists, generation, n - 1),
            list,
            0,
            generation,
            list.len() as int,
        )
    }
}

/// The targets that a look at the whole device finds.
pub open spec fn discovered(device: DeviceStorage, generation: CatalogGeneration) -> Targets {
    let users = with_users(
        Map::empty(),
        device.users@,
        generation,
        device.users@.len() as int,
    );
    let all = if some_user_known(device.users@, device.users@.len() as int) {
        users
    } else {
        with_fallback(users, device.fallback@, generation, device.fallback@.len() as int)
    };
    with_system(all, device.system@, generation, system_junk_locations().len() as int)
}

/// The targets of one generation.
#[derive(Debug, Clone)]
pub struct CatalogSnapshot {
    pub generation: CatalogGeneration,
    pub targets: TextMap<TargetDescriptor>,
}

impl CatalogSnapshot {
    /// The targets.
    pub open spec fn known(self) -> Targets {
        models(self.targets@)
    }

    pub fn get(&self, target_id: &TargetId) -> (r: Option<&TargetDescriptor>)
        ensures
            r is Some <==> self.targets@.contains_key(target_id@),
            r is Some ==> *r->0 == self.targets@[target_id@],
            r is Some <==> self.known().contains_key(target_id@),
            r is Some ==> r->0@ == self.known()[target_id@],
    {
        self.targets.get(target_id.0.as_str())
    }

    /// The descriptors, one for each target and none else. The one at a place is filed
    /// under the key at that place.
    pub fn iter(&self) -> (r: Vec<&TargetDescriptor>)
        ensures
            r@.len() == self.known().dom().len(),
            r@.len() == self.targets.keys().len(),
            self.targets.keys().no_duplicates(),
            self.targets.keys().to_set() == self.known().dom(),
            forall|i: int|
                0 <= i < r@.len() ==> {
                    &&& self.targets@.contains_pair(self.targets.keys()[i], *(#[trigger] r@[i]))
                    &&& self.targets@.values().contains(*r@[i])
                    &&& self.known().contains_pair(self.targets.keys()[i], r@[i]@)
                },
            forall|k: Seq<char>| #[trigger]
                self.known().contains_key(k) ==> exists|i: int|
                    0 <= i < r@.len() && #[trigger] self.targets.keys()[i] == k && *r@[i]
                        == self.targets@[k],
            forall|i: int, j: int|
                0 <= i < j < r@.len() ==> #[trigger] self.targets.keys()[i]
                    != #[trigger] self.targets.keys()[j],
            forall|i: int|
                0 <= i < r@.len() ==> *(#[trigger] r@[i]) == self.targets.listed()[i].1,
    {
        let mut r: Vec<&TargetDescriptor> = Vec::new();
        let n: usize = self.targets.len();
        let mut i: usize = 0;
        while i < n
            invariant
                i <= n,
                n == self.targets.listed().len(),
                r@.len() == i,
                forall|j: int|
                    0 <= j < i ==> *(#[trigger] r@[j]) == self.targets.listed()[j].1,
            decreases n - i,
        {
            r.push(self.targets.value_at(i));
            i = i + 1;
        }
        proof {
            let entries = self.targets.listed();
            let keys = self.targets.keys();
            assoc::law_entries_make_the_map(entries);
            assert(self.known().dom() =~= self.targets@.dom());
            assert forall|i: int| 0 <= i < r@.len() implies {
                &&& self.targets@.contains_pair(keys[i], *(#[trigger] r@[i]))
                &&& self.targets@.values().contains(*r@[i])
                &&& self.known().contains_pair(keys[i], r@[i]@)
            } by {
                assert(self.targets@.contains_pair(assoc::keys_of(entries)[i], entries[i].1));
            }
            assert forall|k: Seq<char>| #[trigger] self.known().contains_key(k) implies exists|
                i: int,
            |
                0 <= i < r@.len() && #[trigger] keys[i] == k && *r@[i] == self.targets@[k] by {
                assert(keys.to_set().contains(k));
                let i = choose|i: int| 0 <= i < keys.len() && keys[i] == k;
                assert(self.targets@.contains_pair(assoc::keys_of(entries)[i], entries[i].1));
                assert(*r@[i] == self.targets@[k]);
            }
        }
        r
    }

    pub fn len(&self) -> (r: usize)
        ensures
            r == self.known().dom().len(),
    {
        assert(self.known().dom() =~= self.targets@.dom());
        self.targets.len()
    }

    pub fn is_empty(&self) -> (r: bool)
        ensures
            r == (self.known() == Map::<Seq<char>, TargetModel>::empty()),
    {
        let n: usize = self.targets.len();
        proof {
            assert(self.known().dom() =~= self.targets@.dom());
            if n == 0 {
                assert(self.targets@.dom() =~= Set::<Seq<char>>::empty());
                assert(self.known() =~= Map::<Seq<char>, TargetModel>::empty());
            }
            if self.known() == Map::<Seq<char>, TargetModel>::empty() {
                assert(self.targets@.dom() =~= Set::<Seq<char>>::empty());
            }
        }
        n == 0
    }

    /// A copy of this snapshot.
    pub fn copy(&self) -> (r: Self)
        ensures
            r.generation == self.generation,
            r.targets@ == self.targets@,
            r.targets.listed() == self.targets.listed(),
    {
        CatalogSnapshot { generation: self.generation, targets: self.targets.copy() }
    }
}

/// The catalog in force. A look at the device replaces it as a whole.
#[derive(Debug)]
pub struct TargetCatalog {
    snapshot: CatalogSnapshot,
}

/// What a catalog holds.
pub struct CatalogModel {
    pub generation: CatalogGeneration,
    pub targets: Targets,
}

impl View for TargetCatalog {
    type V = CatalogModel;

    closed spec fn view(&self) -> CatalogModel {
        CatalogModel { generation: self.snapshot.generation, targets: self.snapshot.known() }
    }
}

impl Default for TargetCatalog {
    fn default() -> (r: Self)
        ensures
            r@.generation.0 == 1,
            r@.targets == Map::<Seq<char>, TargetModel>::empty(),
    {
        TargetCatalog::new()
    }
}

/// The generation after `g`; the last one stays.
pub open spec fn following(g: GenerationId) -> GenerationId {
    if g.0 < u64::MAX {
        GenerationId((g.0 + 1) as u64)
    } else {
        g
    }
}

fn insert_target(targets: &mut TextMap<TargetDescriptor>, descriptor: TargetDescriptor)
    ensures
        models(final(targets)@) == models(old(targets)@).insert(
            descriptor.target_id@,
            descriptor@,
        ),
{
    let ghost before = targets@;
    targets.insert(descriptor.target_id.0.clone(), descriptor);
    assert(models(targets@) =~= models(before).insert(descriptor.target_id@, descriptor@));
}

fn describe(
    id: String,
    class: TargetClass,
    path: String,
    facts: DirFacts,
    package: Option<String>,
    generation: CatalogGeneration,
) -> (r: TargetDescriptor)
    ensures
        r@ == target_for(
            id@,
            class,
            path@,
            facts,
            match package {
                Some(p) => Some(p@),
                None => None,
            },
            generation,
        ),
        r.target_id@ == id@,
{
    TargetDescriptor {
        target_id: TargetId(id),
        target_class: class,
        base_path: path,
        dev: facts.dev,
        ino: facts.ino,
        owner_uid: facts.owner_uid,
        owner_gid: facts.owner_gid,
        package_name: package,
        safety_tier: TargetSafetyTier::StandardCache,
        catalog_generation: generation,
    }
}

fn cache_target_text(user_id: u32, package: &str, sub: &str) -> (r: String)
    ensures
        r@ == cache_target(user_id, package@, sub@),
{
    let mut r = if user_id == 0 {
        "android:".to_owned()
    } else {
        let mut owner = numerals::numbered("android:u", user_id as u64);
        owner.append(":");
        owner
    };
    r.append(package);
    if text::same_text(sub, "cache") {
        r.append(":cache");
    } else {
        r.append(":");
        r.append(text::replace_text(sub, '/', "_").as_str());
        r.append(":cache");
    }
    r
}

fn external_target_text(user_id: u32, package: &str) -> (r: String)
    ensures
        r@ == external_target(user_id, package@),
{
    let mut r = numerals::numbered("android:u", user_id as u64);
    r.append(":");
    r.append(package);
    r.append(":ext_cache");
    r
}

fn system_target_text(path: &str) -> (r: String)
    ensures
        r@ == system_target(path@),
{
    let mut r = "system:".to_owned();
    r.append(text::replace_text(path, '/', "_").as_str());
    r
}

fn fact(facts: &Vec<Option<DirFacts>>, i: usize) -> (r: Option<DirFacts>)
    ensures
        r == facts_at(facts@, i as int),
{
    if i < facts.len() {
        facts[i]
    } else {
        None
    }
}

fn name_is_bad(name: &str) -> (r: bool)
    ensures
        r == is_bad_name(name@),
{
    name.is_empty() || name.as_bytes().len() > 255 || text::contains_char(name, '\0')
}

fn collect_caches(
    package: &PackageDir,
    user_id: u32,
    generation: CatalogGeneration,
    out: &mut TextMap<TargetDescriptor>,
)
    ensures
        models(final(out)@) == with_caches(
            models(old(out)@),
            *package,
            user_id,
            generation,
            known_cache_subdirs().len() as int,
        ),
{
    let subs = known_cache_list();
    let ghost before = models(out@);
    let ghost all = known_cache_subdirs();
    let mut i: usize = 0;
    while i < subs.len()
        invariant
            i <= subs.len(),
            all == known_cache_subdirs(),
            all == text::literals(subs@),
            all.len() == subs.len(),
            models(out@) == with_caches(before, *package, user_id, generation, i as int),
        decreases subs.len() - i,
    {
        assert(all[i as int] == subs@[i as int]@);
        match fact(&package.caches, i) {
            Some(facts) => {
                let id = cache_target_text(user_id, package.name.as_str(), subs[i]);
                assert(models(out@).contains_key(id@) == out@.contains_key(id@));
                if !out.contains(id.as_str()) {
                    insert_target(
                        out,
                        describe(
                            id,
                            TargetClass::AppCache,
                            paths::join_path(package.path.as_str(), subs[i]),
                            facts,
                            Some(package.name.clone()),
                            generation,
                        ),
                    );
                }
            },
            None => {},
        }
        i = i + 1;
    }
}

proof fn lemma_with_caches_grows(
    targets: Targets,
    package: PackageDir,
    user_id: u32,
    generation: CatalogGeneration,
    n: int,
)
    requires
        targets.dom().finite(),
    ensures
        with_caches(targets, package, user_id, generation, n).dom().finite(),
        with_caches(targets, package, user_id, generation, n).dom().len() >= targets.dom().len(),
    decreases n,
{
    if n > 0 {
        lemma_with_caches_grows(targets, package, user_id, generation, n - 1);
    }
}

fn collect_android_user_targets(
    packages: &Vec<PackageDir>,
    user_id: u32,
    generation: CatalogGeneration,
    out: &mut TextMap<TargetDescriptor>,
) -> (count: usize)
    ensures
        models(final(out)@) == with_packages(
            models(old(out)@),
            packages@,
            user_id,
            generation,
            packages@.len() as int,
        ),
        count == models(final(out)@).dom().len() - models(old(out)@).dom().len(),
{
    let before: usize = out.len();
    let ghost start = models(out@);
    assert(start.dom() =~= out@.dom());
    let mut i: usize = 0;
    while i < packages.len()
        invariant
            i <= packages.len(),
            start.dom().finite(),
            models(out@).dom().finite(),
            models(out@) == with_packages(start, packages@, user_id, generation, i as int),
            models(out@).dom().len() >= start.dom().len(),
        decreases packages.len() - i,
    {
        let package = &packages[i];
        if !name_is_bad(package.name.as_str()) {
            let n: usize = out.len();
            assert(models(out@).dom() =~= out@.dom());
            if n <= MAX_CATALOG_TARGETS {
                proof {
                    lemma_with_caches_grows(
                        models(out@),
                        *package,
                        user_id,
                        generation,
                        known_cache_subdirs().len() as int,
                    );
                }
                collect_caches(package, user_id, generation, out);
            }
        }
        i = i + 1;
    }
    let after: usize = out.len();
    assert(models(out@).dom() =~= out@.dom());
    after - before
}

fn collect_android_external_targets(
    packages: &Vec<ExternalDir>,
    user_id: u32,
    generation: CatalogGeneration,
    out: &mut TextMap<TargetDescriptor>,
) -> (count: usize)
    ensures
        models(final(out)@) == with_external(
            models(old(out)@),
            packages@,
            user_id,
            generation,
            packages@.len() as int,
        ),
        count == external_count(packages@, packages@.len() as int),
{
    let ghost start = models(out@);
    let mut count: usize = 0;
    let mut i: usize = 0;
    while i < packages.len()
        invariant
            i <= packages.len(),
            count <= i,
            count == external_count(packages@, i as int),
            models(out@) == with_external(start, packages@, user_id, generation, i as int),
        decreases packages.len() - i,
    {
        let package = &packages[i];
        match package.cache {
            Some(facts) => {
                insert_target(
                    out,
                    describe(
                        external_target_text(user_id, package.name.as_str()),
                        TargetClass::ExternalCache,
                        paths::join_path(package.path.as_str(), "cache"),
                        facts,
                        Some(package.name.clone()),
                        generation,
                    ),
                );
                count = count + 1;
            },
            None => {},
        }
        i = i + 1;
    }
    count
}

fn collect_system_targets(
    facts: &Vec<Option<DirFacts>>,
    generation: CatalogGeneration,
    out: &mut TextMap<TargetDescriptor>,
) -> (count: usize)
    ensures
        models(final(out)@) == with_system(
            models(old(out)@),
            facts@,
            generation,
            system_junk_locations().len() as int,
        ),
        count == system_count(facts@, system_junk_locations().len() as int),
{
    let places = system_junk_list();
    let ghost all = system_junk_locations();
    let ghost start = models(out@);
    let mut count: usize = 0;
    let mut i: usize = 0;
    while i < places.len()
        invariant
            i <= places.len(),
            count <= i,
            all == system_junk_locations(),
            all.len() == places.len(),
            forall|j: int|
                0 <= j < places@.len() ==> (#[trigger] places@[j]).0@ == all[j].0 && places@[j].1
                    == all[j].1,
            count == system_count(facts@, i as int),
            models(out@) == with_system(start, facts@, generation, i as int),
        decreases places.len() - i,
    {
        assert(places@[i as int].0@ == all[i as int].0);
        match fact(facts, i) {
            Some(f) => {
                insert_target(
                    out,
                    describe(
                        system_target_text(places[i].0),
                        places[i].1,
                        places[i].0.to_owned(),
                        f,
                        None,
                        generation,
                    ),
                );
                count = count + 1;
            },
            None => {},
        }
        i = i + 1;
    }
    count
}

impl TargetCatalog {
    /// A catalog without targets, of the first generation.
    pub fn new() -> (r: Self)
        ensures
            r@.generation.0 == 1,
            r@.targets == Map::<Seq<char>, TargetModel>::empty(),
    {
        let r = TargetCatalog {
            snapshot: CatalogSnapshot { generation: GenerationId(1), targets: TextMap::new() },
        };
        assert(r@.targets =~= Map::<Seq<char>, TargetModel>::empty());
        r
    }

    /// Adds a target, or replaces the one with its identifier.
    pub fn register_target(&mut self, descriptor: TargetDescriptor)
        ensures
            final(self)@.generation == old(self)@.generation,
            final(self)@.targets == old(self)@.targets.insert(
                descriptor.target_id@,
                descriptor@,
            ),
    {
        insert_target(&mut self.snapshot.targets, descriptor);
    }

    /// Replaces the catalog by what was seen of the device, under the next
    /// generation. Where nothing was seen, a catalog that has targets is kept as it
    /// is.
    pub fn discover_all_targets(&mut self, device: &DeviceStorage)
        ensures
            ({
                let found = discovered(*device, following(old(self)@.generation));
                let nothing = Map::<Seq<char>, TargetModel>::empty();
                if found != nothing || old(self)@.targets == nothing {
                    final(self)@ == (CatalogModel {
                        generation: following(old(self)@.generation),
                        targets: found,
                    })
                } else {
                    final(self)@ == old(self)@
                }
            }),
    {
        let next_gen = self.snapshot.generation.next();
        let mut staging: TextMap<TargetDescriptor> = TextMap::new();
        assert(models(staging@) =~= Map::<Seq<char>, TargetModel>::empty());
        let ghost nothing = Map::<Seq<char>, TargetModel>::empty();
        let mut found_any_user = false;
        let mut i: usize = 0;
        while i < device.users.len()
            invariant
                i <= device.users.len(),
                found_any_user == some_user_known(device.users@, i as int),
                models(staging@) == with_users(nothing, device.users@, next_gen, i as int),
            decreases device.users.len() - i,
        {
            let user = &device.users[i];
            match user.state {
                EncryptionState::FullyUnlocked | EncryptionState::Unencrypted => {
                    found_any_user = true;
                    collect_android_user_targets(&user.ce, user.user_id, next_gen, &mut staging);
                    collect_android_user_targets(&user.de, user.user_id, next_gen, &mut staging);
                    collect_android_external_targets(
                        &user.media,
                        user.user_id,
                        next_gen,
                        &mut staging,
                    );
                },
                EncryptionState::DeviceEncryptedOnly => {
                    found_any_user = true;
                    collect_android_user_targets(&user.de, user.user_id, next_gen, &mut staging);
                },
                EncryptionState::Unknown => {},
            }
            proof {
                assert(device.users@[i as int] == *user);
                if some_user_known(device.users@, i + 1) && user.state == EncryptionState::Unknown {
                    let k = choose|k: int|
                        0 <= k < i + 1 && (#[trigger] device.users@[k]).state
                            != EncryptionState::Unknown;
                    assert(k < i);
                }
            }
            i = i + 1;
        }
        if !found_any_user {
            let ghost users = models(staging@);
            let mut j: usize = 0;
            while j < device.fallback.len()
                invariant
                    j <= device.fallback.len(),
                    models(staging@) == with_fallback(
                        users,
                        device.fallback@,
                        next_gen,
                        j as int,
                    ),
                decreases device.fallback.len() - j,
            {
                collect_android_user_targets(&device.fallback[j], 0, next_gen, &mut staging);
                j = j + 1;
            }
        }
        collect_system_targets(&device.system, next_gen, &mut staging);
        let found = CatalogSnapshot { generation: next_gen, targets: staging };
        if !found.is_empty() || self.snapshot.is_empty() {
            self.snapshot = found;
        }
    }

    /// Adds the targets of the first user's packages.
    pub fn discover_android_user_targets(&mut self, packages: &Vec<PackageDir>) -> (r: Result<
        usize,
        CleanerError,
    >)
        ensures
            ({
                let found = with_packages(
                    Map::empty(),
                    packages@,
                    0,
                    old(self)@.generation,
                    packages@.len() as int,
                );
                &&& final(self)@.generation == old(self)@.generation
                &&& final(self)@.targets == old(self)@.targets.union_prefer_right(found)
                &&& r matches Ok(count) && count == found.dom().len()
            }),
    {
        self.discover_android_user_targets_for_user(packages, 0)
    }

    /// Adds the targets of a user's packages.
    pub fn discover_android_user_targets_for_user(
        &mut self,
        packages: &Vec<PackageDir>,
        user_id: u32,
    ) -> (r: Result<usize, CleanerError>)
        ensures
            ({
                let found = with_packages(
                    Map::empty(),
                    packages@,
                    user_id,
                    old(self)@.generation,
                    packages@.len() as int,
                );
                &&& final(self)@.generation == old(self)@.generation
                &&& final(self)@.targets == old(self)@.targets.union_prefer_right(found)
                &&& r matches Ok(count) && count == found.dom().len()
            }),
    {
        let mut staging: TextMap<TargetDescriptor> = TextMap::new();
        assert(models(staging@) =~= Map::<Seq<char>, TargetModel>::empty());
        let count = collect_android_user_targets(
            packages,
            user_id,
            self.snapshot.generation,
            &mut staging,
        );
        self.take_over(&staging);
        Ok(count)
    }

    /// Adds the targets of a user's packages on shared storage.
    pub fn discover_android_external_targets(
        &mut self,
        packages: &Vec<ExternalDir>,
        user_id: u32,
    ) -> (r: Result<usize, CleanerError>)
        ensures
            ({
                let found = with_external(
                    Map::empty(),
                    packages@,
                    user_id,
                    old(self)@.generation,
                    packages@.len() as int,
                );
                &&& final(self)@.generation == old(self)@.generation
                &&& final(self)@.targets == old(self)@.targets.union_prefer_right(found)
                &&& r matches Ok(count) && count == external_count(packages@, packages@.len() as int)
            }),
    {
        let mut staging: TextMap<TargetDescriptor> = TextMap::new();
        assert(models(staging@) =~= Map::<Seq<char>, TargetModel>::empty());
        let count = collect_android_external_targets(
            packages,
            user_id,
            self.snapshot.generation,
            &mut staging,
        );
        self.take_over(&staging);
        Ok(count)
    }

    /// Adds the system directories.
    pub fn discover_system_targets(&mut self, facts: &Vec<Option<DirFacts>>) -> (r: Result<
        usize,
        CleanerError,
    >)
        ensures
            ({
                let n = system_junk_locations().len() as int;
                let found = with_system(Map::empty(), facts@, old(self)@.generation, n);
                &&& final(self)@.generation == old(self)@.generation
                &&& final(self)@.targets == old(self)@.targets.union_prefer_right(found)
                &&& r matches Ok(count) && count == system_count(facts@, n)
            }),
    {
        let mut staging: TextMap<TargetDescriptor> = TextMap::new();
        assert(models(staging@) =~= Map::<Seq<char>, TargetModel>::empty());
        let count = collect_system_targets(facts, self.snapshot.generation, &mut staging);
        self.take_over(&staging);
        Ok(count)
    }

    fn take_over(&mut self, staging: &TextMap<TargetDescriptor>)
        ensures
            final(self)@.generation == old(self)@.generation,
            final(self)@.targets == old(self)@.targets.union_prefer_right(models(staging@)),
    {
        self.snapshot.targets.merge(staging);
        assert(self@.targets =~= old(self)@.targets.union_prefer_right(models(staging@)));
    }

    /// Adds one target at a directory that could be opened.
    pub fn register_target_simple(
        &mut self,
        target_id: &str,
        base_path: String,
        safety_tier: TargetSafetyTier,
        target_class: TargetClass,
        package_name: &str,
        facts: DirFacts,
    )
        ensures
            final(self)@.generation == old(self)@.generation,
            final(self)@.targets == old(self)@.targets.insert(
                target_id@,
                TargetModel {
                    safety_tier,
                    ..target_for(
                        target_id@,
                        target_class,
                        base_path@,
                        facts,
                        if package_name@.len() == 0 {
                            None
                        } else {
                            Some(package_name@)
                        },
                        old(self)@.generation,
                    )
                },
            ),
    {
        let package = if package_name.is_empty() {
            None
        } else {
            Some(package_name.to_owned())
        };
        let mut descriptor = describe(
            target_id.to_owned(),
            target_class,
            base_path,
            facts,
            package,
            self.snapshot.generation,
        );
        descriptor.safety_tier = safety_tier;
        self.register_target(descriptor);
    }

    /// A copy of the catalog as it is.
    pub fn take_snapshot(&self) -> (r: CatalogSnapshot)
        ensures
            r.generation == self@.generation,
            r.known() == self@.targets,
    {
        self.snapshot.copy()
    }

    /// Moves on to the next generation with the targets as they are, so that plans
    /// made before no longer run.
    pub fn refresh_generation(&mut self) -> (r: CatalogGeneration)
        ensures
            r == following(old(self)@.generation),
            final(self)@ == (CatalogModel { generation: r, targets: old(self)@.targets }),
    {
        let next = self.snapshot.generation.next();
        self.snapshot.generation = next;
        next
    }
}

/// Every target is filed under its own identifier, belongs to the generation and
/// may be cleaned at any idle time.
pub open spec fn all_current(targets: Targets, generation: CatalogGeneration) -> bool {
    forall|id: Seq<char>| #[trigger]
        targets.contains_key(id) ==> targets[id].target_id == id && targets[id].catalog_generation
            == generation && targets[id].safety_tier == TargetSafetyTier::StandardCache
}

proof fn lemma_caches_current(
    targets: Targets,
    package: PackageDir,
    user_id: u32,
    generation: CatalogGeneration,
    n: int,
)
    requires
        all_current(targets, generation),
    ensures
        all_current(with_caches(targets, package, user_id, generation, n), generation),
    decreases n,
{
    if n > 0 {
        lemma_caches_current(targets, package, user_id, generation, n - 1);
    }
}

proof fn lemma_packages_current(
    targets: Targets,
    packages: Seq<PackageDir>,
    user_id: u32,
    generation: CatalogGeneration,
    n: int,
)
    requires
        all_current(targets, generation),
    ensures
        all_current(with_packages(targets, packages, user_id, generation, n), generation),
    decreases n,
{
    if n > 0 {
        lemma_packages_current(targets, packages, user_id, generation, n - 1);
        lemma_caches_current(
            with_packages(targets, packages, user_id, generation, n - 1),
            packages[n - 1],
            user_id,
            generation,
            known_cache_subdirs().len() as int,
        );
    }
}

proof fn lemma_external_current(
    targets: Targets,
    packages: Seq<ExternalDir>,
    user_id: u32,
    generation: CatalogGeneration,
    n: int,
)
    requires
        all_current(targets, generation),
    ensures
        all_current(with_external(targets, packages, user_id, generation, n), generation),
    decreases n,
{
    if n > 0 {
        lemma_external_current(targets, packages, user_id, generation, n - 1);
    }
}

proof fn lemma_system_current(
    targets: Targets,
    facts: Seq<Option<DirFacts>>,
    generation: CatalogGeneration,
    n: int,
)
    requires
        all_current(targets, generation),
    ensures
        all_current(with_system(targets, facts, generation, n), generation),
    decreases n,
{
    if n > 0 {
        lemma_system_current(targets, facts, generation, n - 1);
    }
}

proof fn lemma_users_current(users: Seq<UserStorage>, generation: CatalogGeneration, n: int)
    ensures
        all_current(with_users(Map::empty(), users, generation, n), generation),
    decreases n,
{
    if n > 0 {
        lemma_users_current(users, generation, n - 1);
        let before = with_users(Map::empty(), users, generation, n - 1);
        let user = users[n - 1];
        lemma_packages_current(before, user.de@, user.user_id, generation, user.de@.len() as int);
        lemma_packages_current(before, user.ce@, user.user_id, generation, user.ce@.len() as int);
        let ce = with_packages(before, user.ce@, user.user_id, generation, user.ce@.len() as int);
        lemma_packages_current(ce, user.de@, user.user_id, generation, user.de@.len() as int);
        let de = with_packages(ce, user.de@, user.user_id, generation, user.de@.len() as int);
        lemma_external_current(de, user.media@, user.user_id, generation, user.media@.len() as int);
    }
}

proof fn lemma_fallback_current(
    targets: Targets,
    lists: Seq<Vec<PackageDir>>,
    generation: CatalogGeneration,
    n: int,
)
    requires
        all_current(targets, generation),
    ensures
        all_current(with_fallback(targets, lists, generation, n), generation),
    decreases n,
{
    if n > 0 {
        lemma_fallback_current(targets, lists, generation, n - 1);
        lemma_packages_current(
            with_fallback(targets, lists, generation, n - 1),
            lists[n - 1]@,
            0,
            generation,
            lists[n - 1]@.len() as int,
        );
    }
}

/// Whatever a look at the device finds is filed under its own identifier and
/// belongs to the generation of that look.
pub proof fn law_discovered_targets_are_current(
    device: DeviceStorage,
    generation: CatalogGeneration,
)
    ensures
        all_current(discovered(device, generation), generation),
{
    let n = device.users@.len() as int;
    lemma_users_current(device.users@, generation, n);
    let users = with_users(Map::empty(), device.users@, generation, n);
    lemma_fallback_current(
        users,
        device.fallback@,
        generation,
        device.fallback@.len() as int,
    );
    let all = if some_user_known(device.users@, n) {
        users
    } else {
        with_fallback(users, device.fallback@, generation, device.fallback@.len() as int)
    };
    lemma_system_current(all, device.system@, generation, system_junk_locations().len() as int);
}

/// Storage whose state cannot be told adds no target, and storage that is locked
/// adds none from its credential encrypted part or from shared storage.
pub proof fn law_locked_storage_is_left_alone(
    targets: Targets,
    user: UserStorage,
    other: UserStorage,
    generation: CatalogGeneration,
)
    requires
        user.state == EncryptionState::DeviceEncryptedOnly,
        other.state == EncryptionState::DeviceEncryptedOnly,
        user.user_id == other.user_id,
        user.de@ == other.de@,
    ensures
        with_user(targets, user, generation) == with_user(targets, other, generation),
        with_user(
            targets,
            UserStorage { state: EncryptionState::Unknown, ..user },
            generation,
        ) == targets,
{
}

/// Generations never go back, and but for the very last one they never repeat.
pub proof fn law_generations_move_on(generation: GenerationId)
    ensures
        following(generation).0 >= generation.0,
        generation.0 < u64::MAX ==> following(generation) != generation,
{
}

/// The target is a cache directory that was seen in the directory of the package: it
/// stands below that directory, at one of the places where packages are known to keep
/// caches, and carries what was seen at that very place. The package has a name that
/// can be used.
pub open spec fn is_cache_seen_in(
    target: TargetModel,
    package: PackageDir,
    generation: CatalogGeneration,
) -> bool {
    let places = seq![
        "cache"@,
        ".cache"@,
        "app_webview/Default/Cache"@,
        "app_webview/Default/Code Cache"@,
        "app_webview/Default/GPUCache"@,
        "app_textures"@,
        "splash_cache"@,
        "image_cache"@,
        "fresco_cache"@,
        "glide_cache"@,
        "coil_cache"@,
        "http-engine-cache"@,
        "picasso-cache"@,
        "volley"@,
        "disk_cache"@,
        "network_cache"@,
    ];
    &&& 0 < package.name@.len() && text::byte_len(package.name@) <= 255 && !package.name@.contains(
        '\0',
    )
    &&& target.target_class == TargetClass::AppCache
    &&& target.package_name == Some(package.name@)
    &&& target.safety_tier == TargetSafetyTier::StandardCache
    &&& target.catalog_generation == generation
    &&& exists|k: int|
        #![trigger package.caches@[k]]
        {
            &&& 0 <= k < package.caches@.len() && k < places.len()
            &&& paths::components(places[k]).len() > 0
            &&& paths::components(target.base_path) == paths::components(package.path@)
                + paths::components(places[k])
            &&& package.caches@[k] == Some(
                DirFacts {
                    dev: target.dev,
                    ino: target.ino,
                    owner_uid: target.owner_uid,
                    owner_gid: target.owner_gid,
                },
            )
        }
}

/// The target is the cache directory that was seen in the directory of a package on
/// shared storage.
pub open spec fn is_external_cache_seen_in(
    target: TargetModel,
    package: ExternalDir,
    generation: CatalogGeneration,
) -> bool {
    &&& target.target_class == TargetClass::ExternalCache
    &&& target.package_name == Some(package.name@)
    &&& target.safety_tier == TargetSafetyTier::StandardCache
    &&& target.catalog_generation == generation
    &&& paths::components(target.base_path) == paths::components(package.path@).push("cache"@)
    &&& package.cache == Some(
        DirFacts {
            dev: target.dev,
            ino: target.ino,
            owner_uid: target.owner_uid,
            owner_gid: target.owner_gid,
        },
    )
}

/// The target is one of the directories where the system collects junk, with what was
/// seen there.
pub open spec fn is_system_junk_seen(
    target: TargetModel,
    facts: Seq<Option<DirFacts>>,
    generation: CatalogGeneration,
) -> bool {
    &&& target.package_name is None
    &&& target.safety_tier == TargetSafetyTier::StandardCache
    &&& target.catalog_generation == generation
    &&& exists|k: int|
        #![trigger facts[k]]
        {
            &&& 0 <= k < facts.len()
            &&& facts[k] == Some(
                DirFacts {
                    dev: target.dev,
                    ino: target.ino,
                    owner_uid: target.owner_uid,
                    owner_gid: target.owner_gid,
                },
            )
            &&& {
                ||| k == 0 && target.base_path == "/data/anr"@ && target.target_class
                    == TargetClass::Tombstones
                ||| k == 1 && target.base_path == "/data/tombstones"@ && target.target_class
                    == TargetClass::Tombstones
                ||| k == 2 && target.base_path == "/data/system/dropbox"@ && target.target_class
                    == TargetClass::LogArchive
                ||| k == 3 && target.base_path == "/data/local/tmp"@ && target.target_class
                    == TargetClass::TempDir
            }
        }
}

/// One of the packages shows the target.
pub open spec fn is_shown_by(
    target: TargetModel,
    packages: Seq<PackageDir>,
    generation: CatalogGeneration,
) -> bool {
    exists|i: int|
        0 <= i < packages.len() && is_cache_seen_in(target, #[trigger] packages[i], generation)
}

/// One of the packages on shared storage shows the target.
pub open spec fn is_shown_outside_by(
    target: TargetModel,
    packages: Seq<ExternalDir>,
    generation: CatalogGeneration,
) -> bool {
    exists|i: int|
        0 <= i < packages.len() && is_external_cache_seen_in(
            target,
            #[trigger] packages[i],
            generation,
        )
}

/// The user's storage shows the target, as far as it is unlocked: device encrypted
/// storage where its state is known, everything else only where all of it is unlocked.
pub open spec fn is_shown_by_user(
    target: TargetModel,
    user: UserStorage,
    generation: CatalogGeneration,
) -> bool {
    let open = user.state == EncryptionState::FullyUnlocked || user.state
        == EncryptionState::Unencrypted;
    ||| open && is_shown_by(target, user.ce@, generation)
    ||| (open || user.state == EncryptionState::DeviceEncryptedOnly) && is_shown_by(
        target,
        user.de@,
        generation,
    )
    ||| open && is_shown_outside_by(target, user.media@, generation)
}

proof fn lemma_known_place(k: int)
    requires
        0 <= k < known_cache_subdirs().len(),
    ensures
        known_cache_subdirs().len() == 16,
        known_cache_subdirs()[k].len() > 0,
        known_cache_subdirs()[k][0] != '/',
        known_cache_subdirs()[k][0] == '.' ==> known_cache_subdirs()[k].len() > 1
            && known_cache_subdirs()[k][1] != '/',
{
    reveal_strlit("cache");
    reveal_strlit(".cache");
    reveal_strlit("app_webview/Default/Cache");
    reveal_strlit("app_webview/Default/Code Cache");
    reveal_strlit("app_webview/Default/GPUCache");
    reveal_strlit("app_textures");
    reveal_strlit("splash_cache");
    reveal_strlit("image_cache");
    reveal_strlit("fresco_cache");
    reveal_strlit("glide_cache");
    reveal_strlit("coil_cache");
    reveal_strlit("http-engine-cache");
    reveal_strlit("picasso-cache");
    reveal_strlit("volley");
    reveal_strlit("disk_cache");
    reveal_strlit("network_cache");
}

proof fn lemma_cache_component()
    ensures
        paths::components("cache"@) == seq!["cache"@],
{
    reveal_strlit("cache");
    let t = "cache"@;
    let parts = seq![t];
    assert(!t.contains('/'));
    assert(text::joined_by(parts, seq!['/']) == t);
    text::law_parts_come_back(parts, '/');
    reveal_with_fuel(paths::components_among, 2);
    assert(paths::components(t) =~= seq![t]);
}

proof fn lemma_caches_seen(
    targets: Targets,
    package: PackageDir,
    user_id: u32,
    generation: CatalogGeneration,
    n: int,
    id: Seq<char>,
)
    requires
        n <= known_cache_subdirs().len(),
        with_caches(targets, package, user_id, generation, n).contains_key(id),
        !is_bad_name(package.name@),
    ensures
        ({
            let all = with_caches(targets, package, user_id, generation, n);
            ||| targets.contains_pair(id, all[id])
            ||| all[id].target_id == id && is_cache_seen_in(all[id], package, generation)
        }),
    decreases n,
{
    if n > 0 {
        let done = with_caches(targets, package, user_id, generation, n - 1);
        let sub = known_cache_subdirs()[n - 1];
        let all = with_caches(targets, package, user_id, generation, n);
        let new = cache_target(user_id, package.name@, sub);
        if done.contains_key(id) {
            lemma_caches_seen(targets, package, user_id, generation, n - 1, id);
            assert(all[id] == done[id]);
        } else {
            assert(id == new);
            lemma_known_place(n - 1);
            paths::law_join_adds_components(package.path@, sub);
            let facts = package.caches@[n - 1];
            assert(facts is Some);
        }
    }
}

proof fn lemma_packages_seen(
    targets: Targets,
    packages: Seq<PackageDir>,
    user_id: u32,
    generation: CatalogGeneration,
    n: int,
    id: Seq<char>,
)
    requires
        n <= packages.len(),
        with_packages(targets, packages, user_id, generation, n).contains_key(id),
    ensures
        ({
            let all = with_packages(targets, packages, user_id, generation, n);
            ||| targets.contains_pair(id, all[id])
            ||| all[id].target_id == id && is_shown_by(all[id], packages, generation)
        }),
    decreases n,
{
    if n > 0 {
        let done = with_packages(targets, packages, user_id, generation, n - 1);
        let all = with_packages(targets, packages, user_id, generation, n);
        let package = packages[n - 1];
        if is_bad_name(package.name@) || done.dom().len() > MAX_CATALOG_TARGETS {
            lemma_packages_seen(targets, packages, user_id, generation, n - 1, id);
        } else {
            lemma_caches_seen(
                done,
                package,
                user_id,
                generation,
                known_cache_subdirs().len() as int,
                id,
            );
            if done.contains_pair(id, all[id]) {
                lemma_packages_seen(targets, packages, user_id, generation, n - 1, id);
            } else {
                assert(is_cache_seen_in(all[id], packages[n - 1], generation));
            }
        }
    }
}

proof fn lemma_external_seen(
    targets: Targets,
    packages: Seq<ExternalDir>,
    user_id: u32,
    generation: CatalogGeneration,
    n: int,
    id: Seq<char>,
)
    requires
        n <= packages.len(),
        with_external(targets, packages, user_id, generation, n).contains_key(id),
    ensures
        ({
            let all = with_external(targets, packages, user_id, generation, n);
            ||| targets.contains_pair(id, all[id])
            ||| all[id].target_id == id && is_shown_outside_by(all[id], packages, generation)
        }),
    decreases n,
{
    if n > 0 {
        let done = with_external(targets, packages, user_id, generation, n - 1);
        let all = with_external(targets, packages, user_id, generation, n);
        let package = packages[n - 1];
        if package.cache is Some && id == external_target(user_id, package.name@) {
            reveal_strlit("cache");
            paths::law_join_adds_components(package.path@, "cache"@);
            lemma_cache_component();
            assert(paths::components(package.path@) + seq!["cache"@] =~= paths::components(
                package.path@,
            ).push("cache"@));
            assert(is_external_cache_seen_in(all[id], packages[n - 1], generation));
        } else {
            assert(done.contains_key(id) && all[id] == done[id]);
            lemma_external_seen(targets, packages, user_id, generation, n - 1, id);
        }
    }
}

proof fn lemma_system_seen(
    targets: Targets,
    facts: Seq<Option<DirFacts>>,
    generation: CatalogGeneration,
    n: int,
    id: Seq<char>,
)
    requires
        n <= system_junk_locations().len(),
        with_system(targets, facts, generation, n).contains_key(id),
    ensures
        ({
            let all = with_system(targets, facts, generation, n);
            ||| targets.contains_pair(id, all[id])
            ||| all[id].target_id == id && is_system_junk_seen(all[id], facts, generation)
        }),
    decreases n,
{
    if n > 0 {
        let done = with_system(targets, facts, generation, n - 1);
        let all = with_system(targets, facts, generation, n);
        let (path, class) = system_junk_locations()[n - 1];
        if facts_at(facts, n - 1) is Some && id == system_target(path) {
            assert(facts[n - 1] is Some);
            assert(is_system_junk_seen(all[id], facts, generation));
        } else {
            assert(done.contains_key(id) && all[id] == done[id]);
            lemma_system_seen(targets, facts, generation, n - 1, id);
        }
    }
}

proof fn lemma_users_seen(
    users: Seq<UserStorage>,
    generation: CatalogGeneration,
    n: int,
    id: Seq<char>,
)
    requires
        0 <= n <= users.len(),
        with_users(Map::empty(), users, generation, n).contains_key(id),
    ensures
        ({
            let all = with_users(Map::empty(), users, generation, n);
            all[id].target_id == id && exists|u: int|
                0 <= u < users.len() && is_shown_by_user(all[id], #[trigger] users[u], generation)
        }),
    decreases n,
{
    if n > 0 {
        let done = with_users(Map::empty(), users, generation, n - 1);
        let all = with_users(Map::empty(), users, generation, n);
        let user = users[n - 1];
        let ce = with_packages(done, user.ce@, user.user_id, generation, user.ce@.len() as int);
        let de = with_packages(ce, user.de@, user.user_id, generation, user.de@.len() as int);
        if reads_everything(user.state) {
            lemma_external_seen(
                de,
                user.media@,
                user.user_id,
                generation,
                user.media@.len() as int,
                id,
            );
            if de.contains_pair(id, all[id]) {
                lemma_packages_seen(
                    ce,
                    user.de@,
                    user.user_id,
                    generation,
                    user.de@.len() as int,
                    id,
                );
                if ce.contains_pair(id, all[id]) {
                    lemma_packages_seen(
                        done,
                        user.ce@,
                        user.user_id,
                        generation,
                        user.ce@.len() as int,
                        id,
                    );
                }
            }
        } else if user.state == EncryptionState::DeviceEncryptedOnly {
            lemma_packages_seen(
                done,
                user.de@,
                user.user_id,
                generation,
                user.de@.len() as int,
                id,
            );
        }
        if done.contains_pair(id, all[id]) {
            lemma_users_seen(users, generation, n - 1, id);
        } else {
            assert(is_shown_by_user(all[id], users[n - 1], generation));
        }
    }
}

proof fn lemma_fallback_seen(
    targets: Targets,
    lists: Seq<Vec<PackageDir>>,
    generation: CatalogGeneration,
    n: int,
    id: Seq<char>,
)
    requires
        0 <= n <= lists.len(),
        with_fallback(targets, lists, generation, n).contains_key(id),
    ensures
        ({
            let all = with_fallback(targets, lists, generation, n);
            ||| targets.contains_pair(id, all[id])
            ||| all[id].target_id == id && exists|l: int|
                0 <= l < lists.len() && is_shown_by(all[id], (#[trigger] lists[l])@, generation)
        }),
    decreases n,
{
    if n > 0 {
        let done = with_fallback(targets, lists, generation, n - 1);
        let all = with_fallback(targets, lists, generation, n);
        let list = lists[n - 1]@;
        lemma_packages_seen(done, list, 0, generation, list.len() as int, id);
        if done.contains_pair(id, all[id]) {
            lemma_fallback_seen(targets, lists, generation, n - 1, id);
        } else {
            assert(is_shown_by(all[id], lists[n - 1]@, generation));
        }
    }
}

/// Whatever a look at the device puts into the catalog was seen there, at the place
/// that the target names and with the device, inode and owner of that place: a cache
/// directory of a package in storage that is unlocked far enough, or, where the storage
/// of no user could be told, in one of the directories to fall back on; a cache on
/// shared storage; or one of the directories where the system collects junk. Each is
/// filed under its own identifier and belongs to the new generation.
pub proof fn law_discovered_targets_were_seen(
    catalog: &mut TargetCatalog,
    device: &DeviceStorage,
    id: Seq<char>,
)
    requires
        call_ensures(TargetCatalog::discover_all_targets, (catalog, device), ()),
        final(catalog)@ != old(catalog)@,
        final(catalog)@.targets.contains_key(id),
    ensures
        final(catalog)@.generation.0 == old(catalog)@.generation.0 + 1 || (final(catalog)@.generation.0 == u64::MAX && old(catalog)@.generation.0 == u64::MAX),
        ({
            let target = final(catalog)@.targets[id];
            let generation = final(catalog)@.generation;
            &&& target.target_id == id
            &&& {
                ||| exists|u: int|
                    0 <= u < device.users@.len() && is_shown_by_user(
                        target,
                        #[trigger] device.users@[u],
                        generation,
                    )
                ||| (forall|u: int|
                    0 <= u < device.users@.len() ==> (#[trigger] device.users@[u]).state
                        == EncryptionState::Unknown) && exists|l: int|
                    0 <= l < device.fallback@.len() && is_shown_by(
                        target,
                        (#[trigger] device.fallback@[l])@,
                        generation,
                    )
                ||| is_system_junk_seen(target, device.system@, generation)
            }
        }),
{
    let generation = final(catalog)@.generation;
    let users = with_users(
        Map::empty(),
        device.users@,
        generation,
        device.users@.len() as int,
    );
    let known = some_user_known(device.users@, device.users@.len() as int);
    let all = if known {
        users
    } else {
        with_fallback(users, device.fallback@, generation, device.fallback@.len() as int)
    };
    let target = final(catalog)@.targets[id];
    lemma_system_seen(all, device.system@, generation, system_junk_locations().len() as int, id);
    if all.contains_pair(id, target) {
        if !known {
            lemma_fallback_seen(
                users,
                device.fallback@,
                generation,
                device.fallback@.len() as int,
                id,
            );
        }
        if users.contains_pair(id, target) {
            lemma_users_seen(device.users@, generation, device.users@.len() as int, id);
        }
    }
}

/// A look at a device where nothing is seen keeps the catalog as it is; any other look
/// replaces it.
pub proof fn law_empty_look_keeps_the_catalog(catalog: &mut TargetCatalog, device: &DeviceStorage)
    requires
        call_ensures(TargetCatalog::discover_all_targets, (catalog, device), ()),
    ensures
        old(catalog)@.targets != Map::<Seq<char>, TargetModel>::empty() ==> final(catalog)@.targets
            != Map::<Seq<char>, TargetModel>::empty(),
        final(catalog)@.generation == old(catalog)@.generation && old(catalog)@.generation.0
            < u64::MAX ==> final(catalog)@ == old(catalog)@,
{
}

/// What is added for the packages of a user was seen in the directory of one of them,
/// and replaces nothing but what it stands for; every other target stays. A catalog that
/// held nothing holds as many targets afterwards as are counted.
pub proof fn law_package_targets_were_seen(
    catalog: &mut TargetCatalog,
    packages: &Vec<PackageDir>,
    user_id: u32,
    count: usize,
    id: Seq<char>,
)
    requires
        call_ensures(
            TargetCatalog::discover_android_user_targets_for_user,
            (catalog, packages, user_id),
            Ok::<usize, CleanerError>(count),
        ),
    ensures
        final(catalog)@.generation == old(catalog)@.generation,
        old(catalog)@.targets.contains_key(id) ==> final(catalog)@.targets.contains_key(id),
        final(catalog)@.targets.contains_key(id) ==> {
            let target = final(catalog)@.targets[id];
            ||| old(catalog)@.targets.contains_pair(id, target)
            ||| target.target_id == id && is_shown_by(
                target,
                packages@,
                final(catalog)@.generation,
            )
        },
        old(catalog)@.targets == Map::<Seq<char>, TargetModel>::empty() ==> count == final(catalog)@.targets.dom().len(),
{
    let generation = old(catalog)@.generation;
    let found = with_packages(
        Map::empty(),
        packages@,
        user_id,
        generation,
        packages@.len() as int,
    );
    if found.contains_key(id) {
        lemma_packages_seen(
            Map::empty(),
            packages@,
            user_id,
            generation,
            packages@.len() as int,
            id,
        );
    }
    if old(catalog)@.targets == Map::<Seq<char>, TargetModel>::empty() {
        assert(final(catalog)@.targets =~= found);
    }
}

proof fn lemma_caches_kept(
    targets: Targets,
    package: PackageDir,
    user_id: u32,
    generation: CatalogGeneration,
    n: int,
)
    ensures
        targets.dom().subset_of(with_caches(targets, package, user_id, generation, n).dom()),
        forall|k: int|
            #![trigger package.caches@[k]]
            0 <= k < n && k < package.caches@.len() && package.caches@[k] is Some ==> with_caches(
                targets,
                package,
                user_id,
                generation,
                n,
            ).contains_key(cache_target(user_id, package.name@, known_cache_subdirs()[k])),
    decreases n,
{
    if n > 0 {
        lemma_caches_kept(targets, package, user_id, generation, n - 1);
    }
}

proof fn lemma_packages_kept(
    packages: Seq<PackageDir>,
    user_id: u32,
    generation: CatalogGeneration,
    n: int,
)
    requires
        0 <= n <= packages.len(),
    ensures
        ({
            let all = with_packages(Map::empty(), packages, user_id, generation, n);
            &&& all.dom().finite()
            &&& all.dom().len() <= MAX_CATALOG_TARGETS ==> forall|i: int, k: int|
                #![trigger packages[i].caches@[k]]
                0 <= i < n && !is_bad_name(packages[i].name@) && 0 <= k
                    < known_cache_subdirs().len() && k < packages[i].caches@.len()
                    && packages[i].caches@[k] is Some ==> all.contains_key(
                    cache_target(user_id, packages[i].name@, known_cache_subdirs()[k]),
                )
        }),
    decreases n,
{
    if n > 0 {
        lemma_packages_kept(packages, user_id, generation, n - 1);
        let done = with_packages(Map::empty(), packages, user_id, generation, n - 1);
        let whole = known_cache_subdirs().len() as int;
        lemma_with_caches_grows(done, packages[n - 1], user_id, generation, whole);
        lemma_caches_kept(done, packages[n - 1], user_id, generation, whole);
    } else {
        assert(with_packages(Map::empty(), packages, user_id, generation, n).dom() =~= Set::<
            Seq<char>,
        >::empty());
    }
}

/// No cache directory that was seen is left out: as long as no more than five thousand
/// targets are found, each cache directory of a package with a name that can be used has
/// its target, filed under the user, the package and the place.
pub proof fn law_no_seen_cache_is_left_out(
    catalog: &mut TargetCatalog,
    packages: &Vec<PackageDir>,
    user_id: u32,
    count: usize,
    i: int,
    k: int,
)
    requires
        call_ensures(
            TargetCatalog::discover_android_user_targets_for_user,
            (catalog, packages, user_id),
            Ok::<usize, CleanerError>(count),
        ),
        count <= 5000,
        0 <= i < packages@.len(),
        0 < packages@[i].name@.len(),
        text::byte_len(packages@[i].name@) <= 255,
        !packages@[i].name@.contains('\0'),
        0 <= k < 16,
        k < packages@[i].caches@.len(),
        packages@[i].caches@[k] is Some,
    ensures
        k == 0 && user_id == 0 ==> final(catalog)@.targets.contains_key(
            "android:"@ + packages@[i].name@ + ":cache"@,
        ),
        k == 0 && user_id != 0 ==> final(catalog)@.targets.contains_key(
            "android:u"@ + numerals::decimal(user_id as nat) + ":"@ + packages@[i].name@
                + ":cache"@,
        ),
        k != 0 && user_id == 0 ==> final(catalog)@.targets.contains_key(
            "android:"@ + packages@[i].name@ + ":"@ + text::replaced(
                known_cache_subdirs()[k],
                '/',
                "_"@,
            ) + ":cache"@,
        ),
        k != 0 && user_id != 0 ==> final(catalog)@.targets.contains_key(
            "android:u"@ + numerals::decimal(user_id as nat) + ":"@ + packages@[i].name@ + ":"@
                + text::replaced(known_cache_subdirs()[k], '/', "_"@) + ":cache"@,
        ),
{
    let generation = old(catalog)@.generation;
    lemma_packages_kept(packages@, user_id, generation, packages@.len() as int);
    assert(packages@[i].caches@[k] is Some);
    if k > 0 {
        lemma_places_differ(k);
    }
}

proof fn lemma_places_differ(k: int)
    requires
        0 < k < 16,
    ensures
        known_cache_subdirs()[k] != "cache"@,
{
    reveal_strlit("cache");
    reveal_strlit(".cache");
    reveal_strlit("app_webview/Default/Cache");
    reveal_strlit("app_webview/Default/Code Cache");
    reveal_strlit("app_webview/Default/GPUCache");
    reveal_strlit("app_textures");
    reveal_strlit("splash_cache");
    reveal_strlit("image_cache");
    reveal_strlit("fresco_cache");
    reveal_strlit("glide_cache");
    reveal_strlit("coil_cache");
    reveal_strlit("http-engine-cache");
    reveal_strlit("picasso-cache");
    reveal_strlit("volley");
    reveal_strlit("disk_cache");
    reveal_strlit("network_cache");
    assert(known_cache_subdirs()[k].len() != 5);
}

/// What is added from shared storage was seen in the directory of one of the packages,
/// and each cache that was seen has its target; every other target stays. One more
/// package counts once where it has a cache, and not at all where it has none.
pub proof fn law_external_targets_were_seen(
    catalog: &mut TargetCatalog,
    packages: &Vec<ExternalDir>,
    user_id: u32,
    count: usize,
    id: Seq<char>,
)
    requires
        call_ensures(
            TargetCatalog::discover_android_external_targets,
            (catalog, packages, user_id),
            Ok::<usize, CleanerError>(count),
        ),
    ensures
        final(catalog)@.generation == old(catalog)@.generation,
        old(catalog)@.targets.contains_key(id) ==> final(catalog)@.targets.contains_key(id),
        final(catalog)@.targets.contains_key(id) ==> {
            let target = final(catalog)@.targets[id];
            ||| old(catalog)@.targets.contains_pair(id, target)
            ||| target.target_id == id && is_shown_outside_by(
                target,
                packages@,
                final(catalog)@.generation,
            )
        },
        forall|i: int|
            #![trigger packages@[i]]
            0 <= i < packages@.len() && packages@[i].cache is Some ==> final(catalog)@.targets.contains_key(
                "android:u"@ + numerals::decimal(user_id as nat) + ":"@ + packages@[i].name@
                    + ":ext_cache"@,
            ),
        packages@.len() == 0 ==> count == 0,
{
    let generation = old(catalog)@.generation;
    let found = with_external(
        Map::empty(),
        packages@,
        user_id,
        generation,
        packages@.len() as int,
    );
    if found.contains_key(id) {
        lemma_external_seen(
            Map::empty(),
            packages@,
            user_id,
            generation,
            packages@.len() as int,
            id,
        );
    }
    lemma_external_kept(packages@, user_id, generation, packages@.len() as int);
}

proof fn lemma_external_kept(
    packages: Seq<ExternalDir>,
    user_id: u32,
    generation: CatalogGeneration,
    n: int,
)
    requires
        0 <= n <= packages.len(),
    ensures
        forall|i: int|
            #![trigger packages[i]]
            0 <= i < n && packages[i].cache is Some ==> with_external(
                Map::empty(),
                packages,
                user_id,
                generation,
                n,
            ).contains_key(external_target(user_id, packages[i].name@)),
    decreases n,
{
    if n > 0 {
        lemma_external_kept(packages, user_id, generation, n - 1);
    }
}

/// Two looks at shared storage, the second of which saw one package more: the second
/// counts one more where that package has a cache, and as many where it has none.
pub proof fn law_each_external_cache_counts_once(
    first: &mut TargetCatalog,
    second: &mut TargetCatalog,
    packages: &Vec<ExternalDir>,
    more: &Vec<ExternalDir>,
    user_id: u32,
    count: usize,
    higher: usize,
)
    requires
        call_ensures(
            TargetCatalog::discover_android_external_targets,
            (first, packages, user_id),
            Ok::<usize, CleanerError>(count),
        ),
        call_ensures(
            TargetCatalog::discover_android_external_targets,
            (second, more, user_id),
            Ok::<usize, CleanerError>(higher),
        ),
        more@.len() == packages@.len() + 1,
        more@.drop_last() == packages@,
    ensures
        higher == count + if more@.last().cache is Some {
            1int
        } else {
            0
        },
{
    lemma_external_count_of_front(packages@, more@, packages@.len() as int);
}

proof fn lemma_external_count_of_front(a: Seq<ExternalDir>, b: Seq<ExternalDir>, n: int)
    requires
        a == b.drop_last(),
        b.len() > 0,
        n <= a.len(),
    ensures
        external_count(a, n) == external_count(b, n),
    decreases n,
{
    if n > 0 {
        lemma_external_count_of_front(a, b, n - 1);
        assert(a[n - 1] == b[n - 1]);
    }
}

/// What is added of the system is one of the directories where it collects junk, with
/// what was seen there; each that was seen is added and counts once; every other target
/// stays.
pub proof fn law_system_targets_were_seen(
    catalog: &mut TargetCatalog,
    facts: &Vec<Option<DirFacts>>,
    count: usize,
    id: Seq<char>,
)
    requires
        call_ensures(
            TargetCatalog::discover_system_targets,
            (catalog, facts),
            Ok::<usize, CleanerError>(count),
        ),
    ensures
        final(catalog)@.generation == old(catalog)@.generation,
        old(catalog)@.targets.contains_key(id) ==> final(catalog)@.targets.contains_key(id),
        final(catalog)@.targets.contains_key(id) ==> {
            let target = final(catalog)@.targets[id];
            ||| old(catalog)@.targets.contains_pair(id, target)
            ||| target.target_id == id && is_system_junk_seen(
                target,
                facts@,
                final(catalog)@.generation,
            )
        },
        ({
            let seen = |k: int| k < facts@.len() && facts@[k] is Some;
            let one = |k: int|
                if seen(k) {
                    1int
                } else {
                    0
                };
            &&& count == one(0) + one(1) + one(2) + one(3)
            &&& seen(0) ==> final(catalog)@.targets.contains_key(
                "system:"@ + text::replaced("/data/anr"@, '/', "_"@),
            )
            &&& seen(1) ==> final(catalog)@.targets.contains_key(
                "system:"@ + text::replaced("/data/tombstones"@, '/', "_"@),
            )
            &&& seen(2) ==> final(catalog)@.targets.contains_key(
                "system:"@ + text::replaced("/data/system/dropbox"@, '/', "_"@),
            )
            &&& seen(3) ==> final(catalog)@.targets.contains_key(
                "system:"@ + text::replaced("/data/local/tmp"@, '/', "_"@),
            )
        }),
{
    let generation = old(catalog)@.generation;
    let n = system_junk_locations().len() as int;
    let found = with_system(Map::empty(), facts@, generation, n);
    if found.contains_key(id) {
        lemma_system_seen(Map::empty(), facts@, generation, n, id);
    }
    reveal_with_fuel(with_system, 5);
    reveal_with_fuel(system_count, 5);
}

/// A target that is put into the catalog is there afterwards, as it was given, under
/// its own identifier, and no other changes.
pub proof fn law_registered_target_is_there(
    catalog: &mut TargetCatalog,
    descriptor: TargetDescriptor,
    other: Seq<char>,
)
    requires
        call_ensures(TargetCatalog::register_target, (catalog, descriptor), ()),
    ensures
        final(catalog)@.targets.contains_pair(descriptor.target_id@, descriptor@),
        other != descriptor.target_id@ ==> (final(catalog)@.targets.contains_key(other)
            <==> old(catalog)@.targets.contains_key(other)),
        other != descriptor.target_id@ && old(catalog)@.targets.contains_key(other) ==> final(catalog)@.targets[other] == old(catalog)@.targets[other],
        final(catalog)@.generation == old(catalog)@.generation,
{
}

/// A target that is put into the catalog by its parts carries each of them, and belongs
/// to the generation in force. A package without a name is none.
pub proof fn law_simple_target_carries_its_parts(
    catalog: &mut TargetCatalog,
    target_id: &str,
    base_path: String,
    safety_tier: TargetSafetyTier,
    target_class: TargetClass,
    package_name: &str,
    facts: DirFacts,
)
    requires
        call_ensures(
            TargetCatalog::register_target_simple,
            (catalog, target_id, base_path, safety_tier, target_class, package_name, facts),
            (),
        ),
    ensures
        final(catalog)@.targets.contains_key(target_id@),
        ({
            let target = final(catalog)@.targets[target_id@];
            &&& target.target_id == target_id@
            &&& target.base_path == base_path@
            &&& target.safety_tier == safety_tier
            &&& target.target_class == target_class
            &&& target.dev == facts.dev
            &&& target.ino == facts.ino
            &&& target.owner_uid == facts.owner_uid
            &&& target.owner_gid == facts.owner_gid
            &&& target.catalog_generation == old(catalog)@.generation
            &&& package_name@.len() > 0 ==> target.package_name == Some(package_name@)
            &&& package_name@.len() == 0 ==> target.package_name is None
        }),
        final(catalog)@.generation == old(catalog)@.generation,
{
}

/// A snapshot shows the targets and the generation of its moment, and gives for each
/// identifier the target that is filed under it. A new generation follows the one
/// before and leaves the targets as they are.
pub proof fn law_snapshot_shows_the_catalog(
    catalog: &TargetCatalog,
    snapshot: CatalogSnapshot,
    target_id: &TargetId,
    found: Option<&TargetDescriptor>,
)
    requires
        call_ensures(TargetCatalog::take_snapshot, (catalog,), snapshot),
        call_ensures(CatalogSnapshot::get, (&snapshot, target_id), found),
    ensures
        snapshot.generation == catalog@.generation,
        found is Some <==> catalog@.targets.contains_key(target_id@),
        found matches Some(target) ==> target@ == catalog@.targets[target_id@],
{
}

/// A refreshed catalog has the next generation and the same targets.
pub proof fn law_refresh_moves_on(catalog: &mut TargetCatalog, r: CatalogGeneration)
    requires
        call_ensures(TargetCatalog::refresh_generation, (catalog,), r),
    ensures
        final(catalog)@.generation == r,
        final(catalog)@.targets == old(catalog)@.targets,
        old(catalog)@.generation.0 < u64::MAX ==> r.0 == old(catalog)@.generation.0 + 1,
        old(catalog)@.generation.0 == u64::MAX ==> r.0 == u64::MAX,
{
}

/// The first user's packages are those of the user with the number zero.
pub proof fn law_first_user_is_number_zero(
    one: &mut TargetCatalog,
    other: &mut TargetCatalog,
    packages: &Vec<PackageDir>,
    r: Result<usize, CleanerError>,
    s: Result<usize, CleanerError>,
)
    requires
        call_ensures(TargetCatalog::discover_android_user_targets, (one, packages), r),
        call_ensures(
            TargetCatalog::discover_android_user_targets_for_user,
            (other, packages, 0),
            s,
        ),
        old(one)@ == old(other)@,
    ensures
        final(one)@ == final(other)@,
        r is Ok && s is Ok && r->Ok_0 == s->Ok_0,
{
}

/// A new catalog knows nothing and begins with the first generation.
pub proof fn law_new_catalog_is_empty(r: TargetCatalog)
    requires
        call_ensures(TargetCatalog::new, (), r),
    ensures
        r@.generation.0 == 1,
        forall|id: Seq<char>| !#[trigger] r@.targets.contains_key(id),
{
}

/// A snapshot hands out every target that it knows, once, and counts as many.
pub proof fn law_snapshot_hands_out_what_it_knows(
    s: &CatalogSnapshot,
    r: Vec<&TargetDescriptor>,
    n: usize,
    empty: bool,
    copy: CatalogSnapshot,
    id: Seq<char>,
)
    requires
        call_ensures(CatalogSnapshot::iter, (s,), r),
        call_ensures(CatalogSnapshot::len, (s,), n),
        call_ensures(CatalogSnapshot::is_empty, (s,), empty),
        call_ensures(CatalogSnapshot::copy, (s,), copy),
    ensures
        r@.len() == n,
        empty ==> !s.known().contains_key(id),
        empty ==> n == 0,
        !empty ==> n > 0,
        s.known().contains_key(id) ==> exists|i: int|
            0 <= i < r@.len() && (#[trigger] r@[i])@ == s.known()[id],
        copy.generation == s.generation,
        copy.known() == s.known(),
{
    if s.known().contains_key(id) {
        let i = choose|i: int|
            0 <= i < r@.len() && #[trigger] s.targets.keys()[i] == id && *r@[i] == s.targets@[id];
        assert(s.known().contains_pair(s.targets.keys()[i], r@[i]@));
    }
    if n == 0 {
        assert(s.known().dom() =~= Set::<Seq<char>>::empty());
        assert(s.known() =~= Map::<Seq<char>, TargetModel>::empty());
    }
    if empty {
        assert(s.known().dom() =~= Set::<Seq<char>>::empty());
    }
}

/// The places that are looked at, in the order in which they are looked at.
pub proof fn law_places_looked_at(
    caches: [&'static str; 16],
    junk: [(&'static str, TargetClass); 4],
)
    requires
        call_ensures(known_cache_list, (), caches),
        call_ensures(system_junk_list, (), junk),
    ensures
        caches@[0]@ == "cache"@ && caches@[1]@ == ".cache"@,
        caches@[2]@ == "app_webview/Default/Cache"@,
        caches@[3]@ == "app_webview/Default/Code Cache"@,
        caches@[4]@ == "app_webview/Default/GPUCache"@,
        caches@[5]@ == "app_textures"@ && caches@[6]@ == "splash_cache"@,
        caches@[7]@ == "image_cache"@ && caches@[8]@ == "fresco_cache"@,
        caches@[9]@ == "glide_cache"@ && caches@[10]@ == "coil_cache"@,
        caches@[11]@ == "http-engine-cache"@ && caches@[12]@ == "picasso-cache"@,
        caches@[13]@ == "volley"@ && caches@[14]@ == "disk_cache"@,
        caches@[15]@ == "network_cache"@,
        junk@[0].0@ == "/data/anr"@ && junk@[0].1 == TargetClass::Tombstones,
        junk@[1].0@ == "/data/tombstones"@ && junk@[1].1 == TargetClass::Tombstones,
        junk@[2].0@ == "/data/system/dropbox"@ && junk@[2].1 == TargetClass::LogArchive,
        junk@[3].0@ == "/data/local/tmp"@ && junk@[3].1 == TargetClass::TempDir,
{
    assert forall|i: int| 0 <= i < 16 implies (#[trigger] caches@[i])@ == known_cache_subdirs()[i] by {
        assert(text::literals(caches@)[i] == caches@[i]@);
    }
}

} // verus!
