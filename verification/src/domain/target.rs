//! The places that are cleaned.
use vstd::prelude::*;

use crate::assoc::Duplicate;
use crate::domain::types::{CatalogGeneration, DeviceNumber, InodeNumber, TargetId};

verus! {

/// What kind of place a target is.
#[derive(Debug, Clone, Copy, PartialEq, Eq, PartialOrd, Ord, Hash, Structural)]
pub enum TargetClass {
    AppCache,
    CodeCache,
    Tombstones,
    MediaCache,
    ShaderCache,
    LogArchive,
    TempDir,
    ExternalCache,
}

impl TargetClass {
    /// The text shown for it.
    pub open spec fn shown(self) -> Seq<char> {
        match self {
            TargetClass::AppCache => "AppCache"@,
            TargetClass::CodeCache => "CodeCache"@,
            TargetClass::Tombstones => "Tombstones"@,
            TargetClass::MediaCache => "MediaCache"@,
            TargetClass::ShaderCache => "ShaderCache"@,
            TargetClass::LogArchive => "LogArchive"@,
            TargetClass::TempDir => "TempDir"@,
            TargetClass::ExternalCache => "ExternalCache"@,
        }
    }

    /// The text shown for it.
    pub fn as_str(&self) -> (r: &'static str)
        ensures
            r@ == self.shown(),
    {
        match self {
            TargetClass::AppCache => "AppCache",
            TargetClass::CodeCache => "CodeCache",
            TargetClass::Tombstones => "Tombstones",
            TargetClass::MediaCache => "MediaCache",
            TargetClass::ShaderCache => "ShaderCache",
            TargetClass::LogArchive => "LogArchive",
            TargetClass::TempDir => "TempDir",
            TargetClass::ExternalCache => "ExternalCache",
        }
    }
}

/// How freely a target may be changed.
#[derive(Debug, Clone, Copy, PartialEq, Eq, PartialOrd, Ord, Hash, Structural)]
pub enum TargetSafetyTier {
    /// At any idle time.
    StandardCache,
    /// Only while its application is frozen or stopped.
    RequiresColdApp,
    /// Never; it may be looked at.
    ReadOnlyInspection,
    /// Never.
    ProtectedSystem,
}

/// Everything known of a target.
#[derive(Debug, Clone, PartialEq, Eq)]
pub struct TargetDescriptor {
    pub target_id: TargetId,
    pub target_class: TargetClass,
    pub base_path: String,
    pub dev: DeviceNumber,
    pub ino: InodeNumber,
    pub owner_uid: u32,
    pub owner_gid: u32,
    pub package_name: Option<String>,
    pub safety_tier: TargetSafetyTier,
    pub catalog_generation: CatalogGeneration,
}

/// Everything known of a target, in terms of characters.
pub struct TargetModel {
    pub target_id: Seq<char>,
    pub target_class: TargetClass,
    pub base_path: Seq<char>,
    pub dev: DeviceNumber,
    pub ino: InodeNumber,
    pub owner_uid: u32,
    pub owner_gid: u32,
    pub package_name: Option<Seq<char>>,
    pub safety_tier: TargetSafetyTier,
    pub catalog_generation: CatalogGeneration,
}

impl View for TargetDescriptor {
    type V = TargetModel;

    open spec fn view(&self) -> TargetModel {
        TargetModel {
            target_id: self.target_id@,
            target_class: self.target_class,
            base_path: self.base_path@,
            dev: self.dev,
            ino: self.ino,
            owner_uid: self.owner_uid,
            owner_gid: self.owner_gid,
            package_name: match self.package_name {
                Some(name) => Some(name@),
                None => None,
            },
            safety_tier: self.safety_tier,
            catalog_generation: self.catalog_generation,
        }
    }
}

impl Duplicate for TargetDescriptor {
    fn duplicate(&self) -> (r: Self) {
        self.copy()
    }
}

impl TargetDescriptor {
    /// The target may be changed.
    pub open spec fn allows_mutation(self) -> bool {
        self.safety_tier == TargetSafetyTier::StandardCache || self.safety_tier
            == TargetSafetyTier::RequiresColdApp
    }

    pub fn is_mutation_allowed(&self) -> (r: bool)
        ensures
            r == self.allows_mutation(),
    {
        match self.safety_tier {
            TargetSafetyTier::StandardCache | TargetSafetyTier::RequiresColdApp => true,
            TargetSafetyTier::ReadOnlyInspection | TargetSafetyTier::ProtectedSystem => false,
        }
    }

    /// A copy of this descriptor.
    pub fn copy(&self) -> (r: Self)
        ensures
            r == *self,
    {
        TargetDescriptor {
            target_id: self.target_id.copy(),
            target_class: self.target_class,
            base_path: self.base_path.clone(),
            dev: self.dev,
            ino: self.ino,
            owner_uid: self.owner_uid,
            owner_gid: self.owner_gid,
            package_name: match &self.package_name {
                Some(name) => Some(name.clone()),
                None => None,
            },
            safety_tier: self.safety_tier,
            catalog_generation: self.catalog_generation,
        }
    }
}

/// A target may be changed where it is an ordinary cache or one whose application must
/// rest, and never where it may only be looked at or is the system's.
pub proof fn law_only_caches_may_be_changed(t: &TargetDescriptor, r: bool)
    requires
        call_ensures(TargetDescriptor::is_mutation_allowed, (t,), r),
    ensures
        t.safety_tier is StandardCache || t.safety_tier is RequiresColdApp ==> r,
        t.safety_tier is ReadOnlyInspection || t.safety_tier is ProtectedSystem ==> !r,
{
}

/// Every class has its own name.
pub proof fn law_classes_are_named(c: &TargetClass, r: &'static str)
    requires
        call_ensures(TargetClass::as_str, (c,), r),
    ensures
        *c is AppCache <==> r@ == "AppCache"@,
        *c is CodeCache ==> r@ == "CodeCache"@,
        *c is Tombstones ==> r@ == "Tombstones"@,
        *c is MediaCache ==> r@ == "MediaCache"@,
        *c is ShaderCache ==> r@ == "ShaderCache"@,
        *c is LogArchive ==> r@ == "LogArchive"@,
        *c is TempDir ==> r@ == "TempDir"@,
        *c is ExternalCache ==> r@ == "ExternalCache"@,
{
    reveal_strlit("AppCache");
    reveal_strlit("CodeCache");
    reveal_strlit("Tombstones");
    reveal_strlit("MediaCache");
    reveal_strlit("ShaderCache");
    reveal_strlit("LogArchive");
    reveal_strlit("TempDir");
    reveal_strlit("ExternalCache");
    assert("AppCache"@.len() == 8 && "CodeCache"@.len() == 9 && "Tombstones"@.len() == 10
        && "MediaCache"@.len() == 10 && "ShaderCache"@.len() == 11 && "LogArchive"@.len() == 10
        && "TempDir"@.len() == 7 && "ExternalCache"@.len() == 13);
}

/// A copy of a target is the same in every respect.
pub proof fn law_copied_targets_are_the_same(
    t: &TargetDescriptor,
    r: TargetDescriptor,
    d: TargetDescriptor,
)
    requires
        call_ensures(TargetDescriptor::copy, (t,), r),
        call_ensures(TargetDescriptor::duplicate, (t,), d),
    ensures
        r.target_id@ == t.target_id@ && r.base_path@ == t.base_path@,
        r.target_class == t.target_class && r.safety_tier == t.safety_tier,
        r.dev == t.dev && r.ino == t.ino && r.owner_uid == t.owner_uid && r.owner_gid
            == t.owner_gid,
        r.package_name is Some <==> t.package_name is Some,
        r.package_name is Some ==> r.package_name->0@ == t.package_name->0@,
        r.catalog_generation == t.catalog_generation,
        d == r,
{
}

} // verus!
