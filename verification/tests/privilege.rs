//! The ways in which the daemon may have come by its privileges.
use cache_cleaner_daemon::platform::privilege::{
    APatchPlatform, KernelSUPlatform, MagiskPlatform, PlatformFacts, PrivilegePlatform,
};
use cache_cleaner_daemon::platform::selinux::SelinuxMode;

fn nothing_there() -> PlatformFacts {
    PlatformFacts {
        magisk_binary: false,
        magisk_dir: false,
        kernelsu_dir: false,
        apatch_dir: false,
        selinux: SelinuxMode::Unknown,
    }
}

#[test]
fn magisk_identify() {
    let p = MagiskPlatform;
    let id = p.identify_caller(0, 123, 0);
    assert_eq!(id.uid, 0);
    assert_eq!(p.name(), "magisk");
    assert_eq!(id.to_text(), "uid:0 pid:123 gid:0");
}

#[test]
fn all_platforms_discover() {
    let facts = nothing_there();
    for name in ["magisk", "kernelsu", "apatch"] {
        let caps = match name {
            "magisk" => MagiskPlatform.discover_capabilities(&facts),
            "kernelsu" => KernelSUPlatform.discover_capabilities(&facts),
            _ => APatchPlatform.discover_capabilities(&facts),
        };
        assert!(caps.detected_at.as_secs() > 0);
    }
}

#[test]
fn platforms_report_themselves() {
    let facts = PlatformFacts {
        magisk_binary: false,
        magisk_dir: true,
        kernelsu_dir: true,
        apatch_dir: true,
        selinux: SelinuxMode::Enforcing,
    };
    let magisk = MagiskPlatform.discover_capabilities(&facts);
    assert!(magisk.supports_magisk && !magisk.supports_kernelsu && !magisk.supports_apatch);
    assert!(magisk.selinux_enforcing && magisk.has_openat2 && !magisk.has_statx);
    let kernelsu = KernelSUPlatform.discover_capabilities(&facts);
    assert!(kernelsu.supports_kernelsu && !kernelsu.supports_magisk);
    assert!(!kernelsu.selinux_enforcing);
    let apatch = APatchPlatform.discover_capabilities(&facts);
    assert!(apatch.supports_apatch && !apatch.supports_kernelsu);
    assert!(MagiskPlatform.is_available(&facts));
    assert!(!MagiskPlatform.is_available(&nothing_there()));
    assert_eq!(KernelSUPlatform.name(), "kernelsu");
    assert_eq!(APatchPlatform.name(), "apatch");
}
