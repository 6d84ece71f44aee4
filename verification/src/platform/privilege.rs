//! The ways in which the daemon may have come by its privileges.
use vstd::prelude::*;

use crate::domain::types::UnixTimestamp;
use crate::numerals;
use crate::platform::selinux::SelinuxMode;

verus! {

/// Who calls, as the kernel tells it.
#[derive(Debug, Clone, Copy, PartialEq, Eq, Structural)]
pub struct CallerIdentity {
    pub uid: u32,
    pub pid: u32,
    pub gid: u32,
}

impl CallerIdentity {
    /// The caller as it is shown.
    pub open spec fn shown(self) -> Seq<char> {
        "uid:"@ + numerals::decimal(self.uid as nat) + " pid:"@ + numerals::decimal(
            self.pid as nat,
        ) + " gid:"@ + numerals::decimal(self.gid as nat)
    }

    pub fn to_text(&self) -> (r: String)
        ensures
            r@ == self.shown(),
    {
        let mut r = numerals::numbered("uid:", self.uid as u64);
        r.append(" pid:");
        r.append(numerals::decimal_text(self.pid as u64).as_str());
        r.append(" gid:");
        r.append(numerals::decimal_text(self.gid as u64).as_str());
        r
    }
}

/// What the device can do.
#[derive(Debug, Clone, Copy, PartialEq, Eq, Structural)]
pub struct PlatformCapabilities {
    pub has_openat2: bool,
    pub has_statx: bool,
    pub supports_magisk: bool,
    pub supports_kernelsu: bool,
    pub supports_apatch: bool,
    pub selinux_enforcing: bool,
    pub detected_at: UnixTimestamp,
}

impl PlatformCapabilities {
    /// Nothing was found, at this time.
    pub open spec fn none_at(detected_at: UnixTimestamp) -> PlatformCapabilities {
        PlatformCapabilities {
            has_openat2: false,
            has_statx: false,
            supports_magisk: false,
            supports_kernelsu: false,
            supports_apatch: false,
            selinux_enforcing: false,
            detected_at,
        }
    }
}

impl Default for PlatformCapabilities {
    fn default() -> (r: Self)
        ensures
            r == PlatformCapabilities::none_at(r.detected_at),
    {
        PlatformCapabilities {
            has_openat2: false,
            has_statx: false,
            supports_magisk: false,
            supports_kernelsu: false,
            supports_apatch: false,
            selinux_enforcing: false,
            detected_at: UnixTimestamp::now(),
        }
    }
}

/// What stands on the device that tells of its privileges.
#[derive(Debug, Clone, Copy, PartialEq, Eq, Structural)]
pub struct PlatformFacts {
    pub magisk_binary: bool,
    pub magisk_dir: bool,
    pub kernelsu_dir: bool,
    pub apatch_dir: bool,
    pub selinux: SelinuxMode,
}

/// The file of the program of Magisk.
pub const MAGISK_BINARY: &'static str = "/sbin/magisk";

/// The directory of Magisk.
pub const MAGISK_DIR: &'static str = "/data/adb/magisk";

/// The directory of KernelSU.
pub const KERNELSU_DIR: &'static str = "/data/adb/ksu";

/// The directory of APatch.
pub const APATCH_DIR: &'static str = "/data/adb/ap";

/// A way to come by privileges.
pub trait PrivilegePlatform {
    /// Its name.
    spec fn platform_name(&self) -> Seq<char>;

    /// What is found of it where these things stand on the device, at this time.
    spec fn found(&self, facts: PlatformFacts, at: UnixTimestamp) -> PlatformCapabilities;

    /// It is there.
    spec fn supported(&self, facts: PlatformFacts) -> bool;

    fn name(&self) -> (r: &'static str)
        ensures
            r@ == self.platform_name(),
    ;

    /// Who calls. Only what the kernel tells counts.
    fn identify_caller(&self, peer_uid: u32, peer_pid: u32, peer_gid: u32) -> (r: CallerIdentity)
        ensures
            r.uid == peer_uid,
            r.pid == peer_pid,
            r.gid == peer_gid,
    ;

    fn discover_capabilities(&self, facts: &PlatformFacts) -> (r: PlatformCapabilities)
        ensures
            r == self.found(*facts, r.detected_at),
    ;

    fn is_available(&self, facts: &PlatformFacts) -> (r: bool)
        ensures
            r == self.supported(*facts),
    ;
}

/// Whether the kernel knows the careful way of opening files. It is taken to, until a
/// first attempt tells otherwise.
fn probe_openat2() -> (r: bool)
    ensures
        r,
{
    true
}

/// Magisk.
#[derive(Debug, Clone, Copy)]
pub struct MagiskPlatform;

impl Default for MagiskPlatform {
    fn default() -> (r: Self)
        ensures
            r == MagiskPlatform,
    {
        MagiskPlatform
    }
}

impl PrivilegePlatform for MagiskPlatform {
    open spec fn platform_name(&self) -> Seq<char> {
        "magisk"@
    }

    open spec fn found(&self, facts: PlatformFacts, at: UnixTimestamp) -> PlatformCapabilities {
        PlatformCapabilities {
            supports_magisk: facts.magisk_binary || facts.magisk_dir,
            has_openat2: true,
            selinux_enforcing: facts.selinux == SelinuxMode::Enforcing,
            ..PlatformCapabilities::none_at(at)
        }
    }

    open spec fn supported(&self, facts: PlatformFacts) -> bool {
        facts.magisk_binary || facts.magisk_dir
    }

    fn name(&self) -> (r: &'static str) {
        "magisk"
    }

    fn identify_caller(&self, peer_uid: u32, peer_pid: u32, peer_gid: u32) -> (r: CallerIdentity) {
        CallerIdentity { uid: peer_uid, pid: peer_pid, gid: peer_gid }
    }

    fn discover_capabilities(&self, facts: &PlatformFacts) -> (r: PlatformCapabilities) {
        PlatformCapabilities {
            supports_magisk: facts.magisk_binary || facts.magisk_dir,
            has_openat2: probe_openat2(),
            selinux_enforcing: facts.selinux == SelinuxMode::Enforcing,
            ..PlatformCapabilities::default()
        }
    }

    fn is_available(&self, facts: &PlatformFacts) -> (r: bool) {
        self.discover_capabilities(facts).supports_magisk
    }
}

/// KernelSU.
#[derive(Debug, Clone, Copy)]
pub struct KernelSUPlatform;

impl Default for KernelSUPlatform {
    fn default() -> (r: Self)
        ensures
            r == KernelSUPlatform,
    {
        KernelSUPlatform
    }
}

impl PrivilegePlatform for KernelSUPlatform {
    open spec fn platform_name(&self) -> Seq<char> {
        "kernelsu"@
    }

    open spec fn found(&self, facts: PlatformFacts, at: UnixTimestamp) -> PlatformCapabilities {
        PlatformCapabilities {
            supports_kernelsu: facts.kernelsu_dir,
            has_openat2: true,
            ..PlatformCapabilities::none_at(at)
        }
    }

    open spec fn supported(&self, facts: PlatformFacts) -> bool {
        facts.kernelsu_dir
    }

    fn name(&self) -> (r: &'static str) {
        "kernelsu"
    }

    fn identify_caller(&self, peer_uid: u32, peer_pid: u32, peer_gid: u32) -> (r: CallerIdentity) {
        CallerIdentity { uid: peer_uid, pid: peer_pid, gid: peer_gid }
    }

    fn discover_capabilities(&self, facts: &PlatformFacts) -> (r: PlatformCapabilities) {
        PlatformCapabilities {
            supports_kernelsu: facts.kernelsu_dir,
            has_openat2: probe_openat2(),
            ..PlatformCapabilities::default()
        }
    }

    fn is_available(&self, facts: &PlatformFacts) -> (r: bool) {
        self.discover_capabilities(facts).supports_kernelsu
    }
}

/// APatch.
#[derive(Debug, Clone, Copy)]
pub struct APatchPlatform;

impl Default for APatchPlatform {
    fn default() -> (r: Self)
        ensures
            r == APatchPlatform,
    {
        APatchPlatform
    }
}

impl PrivilegePlatform for APatchPlatform {
    open spec fn platform_name(&self) -> Seq<char> {
        "apatch"@
    }

    open spec fn found(&self, facts: PlatformFacts, at: UnixTimestamp) -> PlatformCapabilities {
        PlatformCapabilities {
            supports_apatch: facts.apatch_dir,
            has_openat2: true,
            ..PlatformCapabilities::none_at(at)
        }
    }

    open spec fn supported(&self, facts: PlatformFacts) -> bool {
        facts.apatch_dir
    }

    fn name(&self) -> (r: &'static str) {
        "apatch"
    }

    fn identify_caller(&self, peer_uid: u32, peer_pid: u32, peer_gid: u32) -> (r: CallerIdentity) {
        CallerIdentity { uid: peer_uid, pid: peer_pid, gid: peer_gid }
    }

    fn discover_capabilities(&self, facts: &PlatformFacts) -> (r: PlatformCapabilities) {
        PlatformCapabilities {
            supports_apatch: facts.apatch_dir,
            has_openat2: probe_openat2(),
            ..PlatformCapabilities::default()
        }
    }

    fn is_available(&self, facts: &PlatformFacts) -> (r: bool) {
        self.discover_capabilities(facts).supports_apatch
    }
}

/// A platform reports itself alone, however many are there.
pub proof fn law_platforms_report_themselves(facts: PlatformFacts, at: UnixTimestamp)
    ensures
        !MagiskPlatform.found(facts, at).supports_kernelsu && !MagiskPlatform.found(
            facts,
            at,
        ).supports_apatch,
        !KernelSUPlatform.found(facts, at).supports_magisk && !KernelSUPlatform.found(
            facts,
            at,
        ).supports_apatch,
        !APatchPlatform.found(facts, at).supports_magisk && !APatchPlatform.found(
            facts,
            at,
        ).supports_kernelsu,
        MagiskPlatform.supported(facts) == MagiskPlatform.found(facts, at).supports_magisk,
        KernelSUPlatform.supported(facts) == KernelSUPlatform.found(facts, at).supports_kernelsu,
        APatchPlatform.supported(facts) == APatchPlatform.found(facts, at).supports_apatch,
{
}

/// A platform is there exactly where what tells of it stands on the device, and what is
/// found of it says so of itself alone. Only for Magisk is it asked how strict SELinux
/// is.
pub proof fn law_platforms_are_found_by_their_files(
    facts: &PlatformFacts,
    magisk: PlatformCapabilities,
    kernelsu: PlatformCapabilities,
    apatch: PlatformCapabilities,
    a: bool,
    b: bool,
    c: bool,
)
    requires
        call_ensures(MagiskPlatform::discover_capabilities, (&MagiskPlatform, facts), magisk),
        call_ensures(KernelSUPlatform::discover_capabilities, (&KernelSUPlatform, facts), kernelsu),
        call_ensures(APatchPlatform::discover_capabilities, (&APatchPlatform, facts), apatch),
        call_ensures(MagiskPlatform::is_available, (&MagiskPlatform, facts), a),
        call_ensures(KernelSUPlatform::is_available, (&KernelSUPlatform, facts), b),
        call_ensures(APatchPlatform::is_available, (&APatchPlatform, facts), c),
    ensures
        a <==> facts.magisk_binary || facts.magisk_dir,
        b <==> facts.kernelsu_dir,
        c <==> facts.apatch_dir,
        magisk.supports_magisk == a && !magisk.supports_kernelsu && !magisk.supports_apatch,
        kernelsu.supports_kernelsu == b && !kernelsu.supports_magisk && !kernelsu.supports_apatch,
        apatch.supports_apatch == c && !apatch.supports_magisk && !apatch.supports_kernelsu,
        magisk.has_openat2 && kernelsu.has_openat2 && apatch.has_openat2,
        !magisk.has_statx && !kernelsu.has_statx && !apatch.has_statx,
        magisk.selinux_enforcing <==> facts.selinux == SelinuxMode::Enforcing,
        !kernelsu.selinux_enforcing && !apatch.selinux_enforcing,
{
}

/// Who calls is who the kernel says it is, whatever the platform; and each platform has
/// its name.
pub proof fn law_callers_are_who_the_kernel_says(
    uid: u32,
    pid: u32,
    gid: u32,
    a: CallerIdentity,
    b: CallerIdentity,
    c: CallerIdentity,
    x: &'static str,
    y: &'static str,
    z: &'static str,
)
    requires
        call_ensures(MagiskPlatform::identify_caller, (&MagiskPlatform, uid, pid, gid), a),
        call_ensures(KernelSUPlatform::identify_caller, (&KernelSUPlatform, uid, pid, gid), b),
        call_ensures(APatchPlatform::identify_caller, (&APatchPlatform, uid, pid, gid), c),
        call_ensures(MagiskPlatform::name, (&MagiskPlatform,), x),
        call_ensures(KernelSUPlatform::name, (&KernelSUPlatform,), y),
        call_ensures(APatchPlatform::name, (&APatchPlatform,), z),
    ensures
        a == (CallerIdentity { uid, pid, gid }),
        b == (CallerIdentity { uid, pid, gid }),
        c == (CallerIdentity { uid, pid, gid }),
        x@ == "magisk"@,
        y@ == "kernelsu"@,
        z@ == "apatch"@,
{
}

/// A caller is shown by its user, its process and its group, in that order.
pub proof fn law_callers_are_shown(c: &CallerIdentity, r: String)
    requires
        call_ensures(CallerIdentity::to_text, (c,), r),
    ensures
        r@ == "uid:"@ + numerals::decimal(c.uid as nat) + " pid:"@ + numerals::decimal(c.pid as nat)
            + " gid:"@ + numerals::decimal(c.gid as nat),
{
}

/// Before a look at the device nothing is known to be there.
pub proof fn law_nothing_is_found_without_a_look(r: PlatformCapabilities)
    requires
        call_ensures(PlatformCapabilities::default, (), r),
    ensures
        !r.has_openat2 && !r.has_statx && !r.supports_magisk && !r.supports_kernelsu
            && !r.supports_apatch && !r.selinux_enforcing,
{
}

} // verus!
