//! What the command line tells of the daemon, the device and the rules.
use vstd::prelude::*;

use crate::cli::clean;
use crate::cli::clean::{Line, LineModel};
use crate::config::DaemonConfig;
use crate::domain::types::ByteCount;
use crate::engine::rules;
use crate::engine::rules::{Decision, Excuse, JunkCategory, SkipReason, Verdict};
use crate::hardware::uevent::{ChargerState, ScreenState};
use crate::numerals;
use crate::platform::android_prop::AndroidSystemInfo;
use crate::platform::encryption::EncryptionState;
use crate::platform::selinux::SelinuxMode;
use crate::text;

verus! {

/// A line across the page.
pub const RULE: &'static str = "==================================================";

/// A thinner line across the page.
pub const THIN_RULE: &'static str = "--------------------------------------------------";

/// The name of a category.
pub open spec fn category_name(category: JunkCategory) -> Seq<char> {
    match category {
        JunkCategory::AppCache => "AppCache"@,
        JunkCategory::WebViewCache => "WebViewCache"@,
        JunkCategory::ImageCache => "ImageCache"@,
        JunkCategory::Thumbnail => "Thumbnail"@,
        JunkCategory::CodeCache => "CodeCache"@,
        JunkCategory::OemLog => "OemLog"@,
        JunkCategory::CrashDump => "CrashDump"@,
        JunkCategory::TempApk => "TempApk"@,
    }
}

fn category_text(category: JunkCategory) -> (r: &'static str)
    ensures
        r@ == category_name(category),
{
    match category {
        JunkCategory::AppCache => "AppCache",
        JunkCategory::WebViewCache => "WebViewCache",
        JunkCategory::ImageCache => "ImageCache",
        JunkCategory::Thumbnail => "Thumbnail",
        JunkCategory::CodeCache => "CodeCache",
        JunkCategory::OemLog => "OemLog",
        JunkCategory::CrashDump => "CrashDump",
        JunkCategory::TempApk => "TempApk",
    }
}

/// What is known of the item at a path.
#[derive(Debug, Clone, Copy, PartialEq, Eq, Structural)]
pub struct PathFacts {
    pub exists: bool,
    /// What the system says of the item itself, where it says anything.
    pub item: Option<ItemFacts>,
}

/// What the system says of an item.
#[derive(Debug, Clone, Copy, PartialEq, Eq, Structural)]
pub struct ItemFacts {
    pub dev: u64,
    pub ino: u64,
    pub uid: u32,
    pub gid: u32,
    pub is_symlink: bool,
    pub size: u64,
}

/// The lines on an item.
pub open spec fn item_lines(item: Option<ItemFacts>) -> Seq<Seq<char>> {
    match item {
        Some(i) => seq![
            "  Device / Inode: "@ + (numerals::decimal(i.dev as nat) + " / "@ + numerals::decimal(
                i.ino as nat,
            )),
            "  UID / GID     : "@ + (numerals::decimal(i.uid as nat) + " / "@ + numerals::decimal(
                i.gid as nat,
            )),
            "  Is Symlink    : "@ + text::bool_shown(i.is_symlink),
            "  File Size     : "@ + ByteCount(i.size).human(),
        ],
        None => Seq::empty(),
    }
}

/// Why a path is left alone.
pub open spec fn excuse_text(excuse: Excuse) -> Seq<char> {
    match excuse {
        Excuse::ProtectedDirectory(dir) => "Matched protected directory component: '"@ + dir + "'"@,
        Excuse::WhitelistedPackage(pkg) => "Matched whitelisted package: '"@ + pkg + "'"@,
        Excuse::CodeCacheProtected => "JIT / ART bytecode is protected by default"@,
        Excuse::DisabledByConfig(opt) => "Cleaning category is disabled by config: '"@ + opt
            + "'"@,
        Excuse::NotRecognizedAsJunk => "Path does not match any recognized junk patterns"@,
    }
}

/// The lines on a verdict.
pub open spec fn verdict_lines(verdict: Verdict, min_file_age_hours: u32) -> Seq<Seq<char>> {
    match verdict {
        Verdict::Delete(category, reason) => seq![
            "  Action        : DELETE (Eligible for cleanup)"@,
            "  Category      : "@ + category_name(category),
            "  Rule Reason   : "@ + reason,
            "  Min File Age  : "@ + (numerals::decimal(min_file_age_hours as nat) + " hours"@),
        ],
        Verdict::Skip(excuse) => seq![
            "  Action        : SKIP (Protected / Ignored)"@,
            "  Skip Reason   : "@ + excuse_text(excuse),
        ],
    }
}

/// The lines that explain what the rules say of a path.
pub open spec fn explanation(
    path: Seq<char>,
    facts: PathFacts,
    verdict: Verdict,
    min_file_age_hours: u32,
) -> Seq<Seq<char>> {
    seq![
        RULE@,
        "              PATH DECISION AUDIT                 "@,
        RULE@,
        "  Target Path   : "@ + path,
        "  Exists on Disk: "@ + text::bool_shown(facts.exists),
    ] + item_lines(facts.item) + seq![THIN_RULE@] + verdict_lines(verdict, min_file_age_hours)
        + seq![RULE@]
}

fn quoted(lead: &str, what: &str) -> (r: String)
    ensures
        r@ == lead@ + what@ + "'"@,
{
    let mut r = lead.to_owned();
    r.append(what);
    r.append("'");
    r
}

fn excuse_line(reason: &SkipReason) -> (r: String)
    ensures
        r@ == excuse_text(reason@),
{
    match reason {
        SkipReason::ProtectedDirectory(dir) => quoted(
            "Matched protected directory component: '",
            dir.as_str(),
        ),
        SkipReason::WhitelistedPackage(pkg) => quoted(
            "Matched whitelisted package: '",
            pkg.as_str(),
        ),
        SkipReason::CodeCacheProtected => "JIT / ART bytecode is protected by default".to_owned(),
        SkipReason::DisabledByConfig(opt) => quoted(
            "Cleaning category is disabled by config: '",
            opt,
        ),
        SkipReason::NotRecognizedAsJunk =>
            "Path does not match any recognized junk patterns".to_owned(),
    }
}

fn pair_text(a: u64, between: &str, b: u64) -> (r: String)
    ensures
        r@ == numerals::decimal(a as nat) + between@ + numerals::decimal(b as nat),
{
    let mut r = numerals::decimal_text(a);
    r.append(between);
    r.append(numerals::decimal_text(b).as_str());
    r
}

fn push_item(lines: &mut Vec<String>, item: &Option<ItemFacts>)
    ensures
        text::texts(final(lines)@) == text::texts(old(lines)@) + item_lines(*item),
{
    let ghost before = text::texts(lines@);
    match item {
        Some(i) => {
            text::push_line(lines, "  Device / Inode: ", pair_text(i.dev, " / ", i.ino).as_str());
            text::push_line(
                lines,
                "  UID / GID     : ",
                pair_text(i.uid as u64, " / ", i.gid as u64).as_str(),
            );
            text::push_line(lines, "  Is Symlink    : ", text::bool_text(i.is_symlink));
            text::push_line(
                lines,
                "  File Size     : ",
                ByteCount(i.size).format_human().as_str(),
            );
        },
        None => {},
    }
    assert(text::texts(lines@) =~= before + item_lines(*item));
}

fn push_verdict(lines: &mut Vec<String>, decision: &Decision, min_file_age_hours: u32)
    ensures
        text::texts(final(lines)@) == text::texts(old(lines)@) + verdict_lines(
            decision@,
            min_file_age_hours,
        ),
{
    let ghost before = text::texts(lines@);
    match decision {
        Decision::Delete { category, reason } => {
            text::push_text(lines, "  Action        : DELETE (Eligible for cleanup)");
            text::push_line(lines, "  Category      : ", category_text(*category));
            text::push_line(lines, "  Rule Reason   : ", reason);
            let mut age = numerals::decimal_text(min_file_age_hours as u64);
            age.append(" hours");
            text::push_line(lines, "  Min File Age  : ", age.as_str());
        },
        Decision::Skip { reason } => {
            text::push_text(lines, "  Action        : SKIP (Protected / Ignored)");
            text::push_line(lines, "  Skip Reason   : ", excuse_line(reason).as_str());
        },
    }
    assert(text::texts(lines@) =~= before + verdict_lines(decision@, min_file_age_hours));
}

/// What the rules of a configuration say of a path.
pub open spec fn verdict_under(config: DaemonConfig, path: Seq<char>, is_file: bool) -> Verdict {
    rules::verdict(
        config.cleaning,
        config.safety.mode,
        text::texts(config.safety.protected_directory_names@),
        text::texts(config.safety.whitelist_packages@),
        path,
        is_file,
    )
}

/// The lines that explain what the rules of a configuration say of a path. `is_file`
/// says whether a regular file stands there.
pub fn explain_path(
    config: &DaemonConfig,
    path: &str,
    is_file: bool,
    facts: &PathFacts,
) -> (r: Vec<String>)
    ensures
        text::texts(r@) == explanation(
            path@,
            *facts,
            verdict_under(*config, path@, is_file),
            config.cleaning.min_file_age_hours,
        ),
{
    let decision = rules::evaluate(&config.cleaning, &config.safety, path, is_file);
    let mut lines: Vec<String> = Vec::new();
    text::push_text(&mut lines, RULE);
    text::push_text(&mut lines, "              PATH DECISION AUDIT                 ");
    text::push_text(&mut lines, RULE);
    text::push_line(&mut lines, "  Target Path   : ", path);
    text::push_line(&mut lines, "  Exists on Disk: ", text::bool_text(facts.exists));
    let ghost head = seq![
        RULE@,
        "              PATH DECISION AUDIT                 "@,
        RULE@,
        "  Target Path   : "@ + path@,
        "  Exists on Disk: "@ + text::bool_shown(facts.exists),
    ];
    assert(text::texts(lines@) =~= head);
    push_item(&mut lines, &facts.item);
    text::push_text(&mut lines, THIN_RULE);
    assert(text::texts(lines@) =~= head + item_lines(facts.item) + seq![THIN_RULE@]);
    push_verdict(&mut lines, &decision, config.cleaning.min_file_age_hours);
    text::push_text(&mut lines, RULE);
    assert(text::texts(lines@) =~= explanation(
        path@,
        *facts,
        decision@,
        config.cleaning.min_file_age_hours,
    ));
    lines
}

/// The name of a mode of SELinux.
pub open spec fn selinux_name(mode: SelinuxMode) -> Seq<char> {
    match mode {
        SelinuxMode::Enforcing => "Enforcing"@,
        SelinuxMode::Permissive => "Permissive"@,
        SelinuxMode::Disabled => "Disabled"@,
        SelinuxMode::Unknown => "Unknown"@,
    }
}

fn selinux_text(mode: SelinuxMode) -> (r: &'static str)
    ensures
        r@ == selinux_name(mode),
{
    match mode {
        SelinuxMode::Enforcing => "Enforcing",
        SelinuxMode::Permissive => "Permissive",
        SelinuxMode::Disabled => "Disabled",
        SelinuxMode::Unknown => "Unknown",
    }
}

/// The name of a state of encryption.
pub open spec fn encryption_name(state: EncryptionState) -> Seq<char> {
    match state {
        EncryptionState::Unencrypted => "Unencrypted"@,
        EncryptionState::DeviceEncryptedOnly => "DeviceEncryptedOnly"@,
        EncryptionState::FullyUnlocked => "FullyUnlocked"@,
        EncryptionState::Unknown => "Unknown"@,
    }
}

fn encryption_text(state: EncryptionState) -> (r: &'static str)
    ensures
        r@ == encryption_name(state),
{
    match state {
        EncryptionState::Unencrypted => "Unencrypted",
        EncryptionState::DeviceEncryptedOnly => "DeviceEncryptedOnly",
        EncryptionState::FullyUnlocked => "FullyUnlocked",
        EncryptionState::Unknown => "Unknown",
    }
}

/// The name of a state of the charger.
pub open spec fn charger_name(state: ChargerState) -> Seq<char> {
    match state {
        ChargerState::Charging => "Charging"@,
        ChargerState::Discharging => "Discharging"@,
        ChargerState::Full => "Full"@,
        ChargerState::Unknown => "Unknown"@,
    }
}

fn charger_text(state: ChargerState) -> (r: &'static str)
    ensures
        r@ == charger_name(state),
{
    match state {
        ChargerState::Charging => "Charging",
        ChargerState::Discharging => "Discharging",
        ChargerState::Full => "Full",
        ChargerState::Unknown => "Unknown",
    }
}

/// The name of a state of the screen.
pub open spec fn screen_name(state: ScreenState) -> Seq<char> {
    match state {
        ScreenState::On => "On"@,
        ScreenState::Off => "Off"@,
        ScreenState::Unknown => "Unknown"@,
    }
}

fn screen_text(state: ScreenState) -> (r: &'static str)
    ensures
        r@ == screen_name(state),
{
    match state {
        ScreenState::On => "On",
        ScreenState::Off => "Off",
        ScreenState::Unknown => "Unknown",
    }
}

/// A user and the state of their storage.
#[derive(Debug, Clone)]
pub struct UserLine {
    pub user_id: u32,
    pub state: EncryptionState,
    pub ce_path: String,
}

/// What is told of the hardware. Temperatures come as they are shown.
#[derive(Debug, Clone)]
pub struct HardwareInfo {
    pub soc_temp: String,
    pub battery_temp: String,
    pub charger: ChargerState,
    pub screen: ScreenState,
    pub f2fs_available: bool,
}

/// The lines on the system.
pub open spec fn system_lines(sys: AndroidSystemInfo, selinux: SelinuxMode) -> Seq<Seq<char>> {
    seq![
        RULE@,
        "            ANDROID PLATFORM DIAGNOSTICS          "@,
        RULE@,
        "  API Level     : "@ + (numerals::decimal(sys.api_level as nat) + " (Android "@
            + sys.release_version@ + ")"@),
        "  Manufacturer  : "@ + sys.manufacturer@,
        "  Brand / Model : "@ + (sys.brand@ + " / "@ + sys.model@),
        "  Encrypted     : "@ + text::bool_shown(sys.is_encrypted),
        "  SELinux Mode  : "@ + selinux_name(selinux),
    ]
}

/// The line on a user.
pub open spec fn user_line(user: UserLine) -> Seq<char> {
    "  - User ID: "@ + (numerals::decimal(user.user_id as nat) + " | State: "@ + encryption_name(
        user.state,
    ) + " | Path: "@ + user.ce_path@)
}

/// The lines on the hardware.
pub open spec fn hardware_lines(hardware: HardwareInfo) -> Seq<Seq<char>> {
    seq![
        ""@,
        "[+] Hardware Diagnostics:"@,
        "  - SoC Temp     : "@ + hardware.soc_temp@,
        "  - Battery Temp : "@ + hardware.battery_temp@,
        "  - Charger State: "@ + charger_name(hardware.charger),
        "  - Screen State : "@ + screen_name(hardware.screen),
        "  - F2FS GC Avail: "@ + text::bool_shown(hardware.f2fs_available),
    ]
}

/// What is told of control groups.
#[derive(Debug, Clone)]
pub struct CgroupInfo {
    pub detected_version: String,
    pub supports_memory_reclaim: bool,
    pub controllers_available: Vec<String>,
    pub current_process_cgroups: Vec<String>,
}

/// What is told of the freezer of applications.
#[derive(Debug, Clone)]
pub struct FreezerInfo {
    pub is_cached_apps_freezer_enabled: bool,
    pub freezer_cgroup_version: String,
    pub total_frozen_uids_count: usize,
}

/// The share of time in which some or all tasks stalled lately, in percent as it is
/// shown.
#[derive(Debug, Clone)]
pub struct Pressure {
    pub some: String,
    pub full: Option<String>,
}

/// What is told of pressure.
#[derive(Debug, Clone)]
pub struct PsiInfo {
    pub is_supported: bool,
    pub current_level: String,
    pub memory: Option<Pressure>,
    pub io: Option<Pressure>,
}

/// What is told of the kernel.
#[derive(Debug, Clone)]
pub struct KernelInfo {
    pub cgroup: CgroupInfo,
    pub freezer: FreezerInfo,
    pub psi: PsiInfo,
}

/// The lines on control groups. Controllers and the own group have a line where they
/// are known.
pub open spec fn cgroup_lines(info: CgroupInfo) -> Seq<Seq<char>> {
    seq![
        ""@,
        "[+] Cgroups & Kernel Resource Isolation:"@,
        "  - Hierarchy    : "@ + info.detected_version@,
        "  - Mem Reclaim  : "@ + if info.supports_memory_reclaim {
            "Supported (Cgroup v2)"@
        } else {
            "Not Available / v1"@
        },
    ] + if info.controllers_available@.len() > 0 {
        seq![
            "  - Controllers  : "@ + text::joined_by(
                text::texts(info.controllers_available@),
                ", "@,
            ),
        ]
    } else {
        Seq::empty()
    } + if info.current_process_cgroups@.len() > 0 {
        seq!["  - Current Group: "@ + info.current_process_cgroups@[0]@]
    } else {
        Seq::empty()
    }
}

/// The lines on the freezer.
pub open spec fn freezer_lines(info: FreezerInfo) -> Seq<Seq<char>> {
    seq![
        ""@,
        "[+] Android App Freezer (Cgroup Freezer):"@,
        "  - App Freezer  : "@ + if info.is_cached_apps_freezer_enabled {
            "Enabled (Active)"@
        } else {
            "Disabled / Inactive"@
        },
        "  - Hierarchy    : "@ + info.freezer_cgroup_version@,
        "  - Frozen UIDs  : "@ + (numerals::decimal(info.total_frozen_uids_count as nat)
            + " processes currently frozen in RAM"@),
    ]
}

/// The text on a pressure.
pub open spec fn pressure_text(pressure: Pressure) -> Seq<char> {
    "some avg10="@ + pressure.some@ + "%, full avg10="@ + match pressure.full {
        Some(full) => full@ + "%"@,
        None => "N/A"@,
    }
}

/// The line on a pressure, where it is known.
pub open spec fn pressure_line(label: Seq<char>, pressure: Option<Pressure>) -> Seq<Seq<char>> {
    match pressure {
        Some(p) => seq![label + pressure_text(p)],
        None => Seq::empty(),
    }
}

/// The lines on pressure.
pub open spec fn psi_lines(info: PsiInfo) -> Seq<Seq<char>> {
    seq![
        ""@,
        "[+] Kernel Pressure Stall Information (PSI):"@,
        "  - PSI Supported: "@ + if info.is_supported {
            "Yes (/proc/pressure active)"@
        } else {
            "No / Kernel PSI disabled"@
        },
        "  - Pressure Lvl : "@ + info.current_level@,
    ] + pressure_line("  - Mem Pressure : "@, info.memory) + pressure_line(
        "  - I/O Pressure : "@,
        info.io,
    )
}

/// The lines on the system, its users, the hardware and the kernel.
pub open spec fn platform_lines(
    sys: AndroidSystemInfo,
    selinux: SelinuxMode,
    users: Seq<UserLine>,
    hardware: HardwareInfo,
    kernel: KernelInfo,
) -> Seq<Seq<char>> {
    system_lines(sys, selinux) + seq![""@, "[+] Discovered Android User Profiles:"@]
        + users.map_values(|u: UserLine| user_line(u)) + hardware_lines(hardware) + cgroup_lines(
        kernel.cgroup,
    ) + freezer_lines(kernel.freezer) + psi_lines(kernel.psi) + seq![RULE@]
}

fn push_cgroup(lines: &mut Vec<String>, info: &CgroupInfo)
    ensures
        text::texts(final(lines)@) == text::texts(old(lines)@) + cgroup_lines(*info),
{
    let ghost before = text::texts(lines@);
    text::push_text(lines, "");
    text::push_text(lines, "[+] Cgroups & Kernel Resource Isolation:");
    text::push_line(lines, "  - Hierarchy    : ", info.detected_version.as_str());
    let reclaim = if info.supports_memory_reclaim {
        "Supported (Cgroup v2)"
    } else {
        "Not Available / v1"
    };
    text::push_line(lines, "  - Mem Reclaim  : ", reclaim);
    if !info.controllers_available.is_empty() {
        let controllers = text::join_texts(&info.controllers_available, ", ");
        text::push_line(lines, "  - Controllers  : ", controllers.as_str());
    }
    if !info.current_process_cgroups.is_empty() {
        text::push_line(
            lines,
            "  - Current Group: ",
            info.current_process_cgroups[0].as_str(),
        );
    }
    assert(text::texts(lines@) =~= before + cgroup_lines(*info));
}

fn push_freezer(lines: &mut Vec<String>, info: &FreezerInfo)
    ensures
        text::texts(final(lines)@) == text::texts(old(lines)@) + freezer_lines(*info),
{
    let ghost before = text::texts(lines@);
    text::push_text(lines, "");
    text::push_text(lines, "[+] Android App Freezer (Cgroup Freezer):");
    let state = if info.is_cached_apps_freezer_enabled {
        "Enabled (Active)"
    } else {
        "Disabled / Inactive"
    };
    text::push_line(lines, "  - App Freezer  : ", state);
    text::push_line(lines, "  - Hierarchy    : ", info.freezer_cgroup_version.as_str());
    let mut frozen = numerals::decimal_text(info.total_frozen_uids_count as u64);
    frozen.append(" processes currently frozen in RAM");
    text::push_line(lines, "  - Frozen UIDs  : ", frozen.as_str());
    assert(text::texts(lines@) =~= before + freezer_lines(*info));
}

fn push_pressure(lines: &mut Vec<String>, label: &str, pressure: &Option<Pressure>)
    ensures
        text::texts(final(lines)@) == text::texts(old(lines)@) + pressure_line(label@, *pressure),
{
    let ghost before = text::texts(lines@);
    match pressure {
        Some(p) => {
            let mut shown = "some avg10=".to_owned();
            shown.append(p.some.as_str());
            shown.append("%, full avg10=");
            match &p.full {
                Some(full) => {
                    shown.append(full.as_str());
                    shown.append("%");
                },
                None => {
                    shown.append("N/A");
                },
            }
            assert(shown@ =~= pressure_text(*p));
            text::push_line(lines, label, shown.as_str());
        },
        None => {},
    }
    assert(text::texts(lines@) =~= before + pressure_line(label@, *pressure));
}

fn push_psi(lines: &mut Vec<String>, info: &PsiInfo)
    ensures
        text::texts(final(lines)@) == text::texts(old(lines)@) + psi_lines(*info),
{
    let ghost before = text::texts(lines@);
    text::push_text(lines, "");
    text::push_text(lines, "[+] Kernel Pressure Stall Information (PSI):");
    let supported = if info.is_supported {
        "Yes (/proc/pressure active)"
    } else {
        "No / Kernel PSI disabled"
    };
    text::push_line(lines, "  - PSI Supported: ", supported);
    text::push_line(lines, "  - Pressure Lvl : ", info.current_level.as_str());
    push_pressure(lines, "  - Mem Pressure : ", &info.memory);
    push_pressure(lines, "  - I/O Pressure : ", &info.io);
    assert(text::texts(lines@) =~= before + psi_lines(*info));
}

fn push_system(lines: &mut Vec<String>, sys: &AndroidSystemInfo, selinux: SelinuxMode)
    ensures
        text::texts(final(lines)@) == text::texts(old(lines)@) + system_lines(*sys, selinux),
{
    let ghost before = text::texts(lines@);
    text::push_text(lines, RULE);
    text::push_text(lines, "            ANDROID PLATFORM DIAGNOSTICS          ");
    text::push_text(lines, RULE);
    let mut level = numerals::decimal_text(sys.api_level as u64);
    level.append(" (Android ");
    level.append(sys.release_version.as_str());
    level.append(")");
    text::push_line(lines, "  API Level     : ", level.as_str());
    text::push_line(lines, "  Manufacturer  : ", sys.manufacturer.as_str());
    let mut brand = sys.brand.clone();
    brand.append(" / ");
    brand.append(sys.model.as_str());
    text::push_line(lines, "  Brand / Model : ", brand.as_str());
    text::push_line(lines, "  Encrypted     : ", text::bool_text(sys.is_encrypted));
    text::push_line(lines, "  SELinux Mode  : ", selinux_text(selinux));
    assert(text::texts(lines@) =~= before + system_lines(*sys, selinux));
}

fn push_hardware(lines: &mut Vec<String>, hardware: &HardwareInfo)
    ensures
        text::texts(final(lines)@) == text::texts(old(lines)@) + hardware_lines(*hardware),
{
    let ghost before = text::texts(lines@);
    text::push_text(lines, "");
    text::push_text(lines, "[+] Hardware Diagnostics:");
    text::push_line(lines, "  - SoC Temp     : ", hardware.soc_temp.as_str());
    text::push_line(lines, "  - Battery Temp : ", hardware.battery_temp.as_str());
    text::push_line(lines, "  - Charger State: ", charger_text(hardware.charger));
    text::push_line(lines, "  - Screen State : ", screen_text(hardware.screen));
    text::push_line(lines, "  - F2FS GC Avail: ", text::bool_text(hardware.f2fs_available));
    assert(text::texts(lines@) =~= before + hardware_lines(*hardware));
}

/// The lines on the system, its users, the hardware and the kernel.
pub fn show_platform_info(
    sys: &AndroidSystemInfo,
    selinux: SelinuxMode,
    users: &Vec<UserLine>,
    hardware: &HardwareInfo,
    kernel: &KernelInfo,
) -> (r: Vec<String>)
    ensures
        text::texts(r@) == platform_lines(*sys, selinux, users@, *hardware, *kernel),
{
    let mut lines: Vec<String> = Vec::new();
    assert(text::texts(lines@) =~= Seq::empty());
    push_system(&mut lines, sys, selinux);
    text::push_text(&mut lines, "");
    text::push_text(&mut lines, "[+] Discovered Android User Profiles:");
    let ghost head = system_lines(*sys, selinux) + seq![
        ""@,
        "[+] Discovered Android User Profiles:"@,
    ];
    assert(text::texts(lines@) =~= head);
    let ghost wanted = users@.map_values(|u: UserLine| user_line(u));
    assert(head + wanted.take(0) =~= head);
    let mut i: usize = 0;
    while i < users.len()
        invariant
            i <= users.len(),
            wanted == users@.map_values(|u: UserLine| user_line(u)),
            text::texts(lines@) == head + wanted.take(i as int),
        decreases users.len() - i,
    {
        let user = &users[i];
        let mut tail = numerals::decimal_text(user.user_id as u64);
        tail.append(" | State: ");
        tail.append(encryption_text(user.state));
        tail.append(" | Path: ");
        tail.append(user.ce_path.as_str());
        text::push_line(&mut lines, "  - User ID: ", tail.as_str());
        i = i + 1;
        assert(text::texts(lines@) =~= head + wanted.take(i as int));
    }
    assert(wanted.take(i as int) =~= wanted);
    push_hardware(&mut lines, hardware);
    push_cgroup(&mut lines, &kernel.cgroup);
    push_freezer(&mut lines, &kernel.freezer);
    push_psi(&mut lines, &kernel.psi);
    text::push_text(&mut lines, RULE);
    assert(text::texts(lines@) =~= platform_lines(*sys, selinux, users@, *hardware, *kernel));
    lines
}

/// What a process uses.
#[derive(Debug, Clone)]
pub struct UsageInfo {
    /// The share of the processor in percent, as it is shown.
    pub cpu_usage: String,
    pub pss_bytes: u64,
    pub rss_bytes: u64,
    pub vm_size_bytes: u64,
}

/// What a daemon tells of itself.
#[derive(Debug, Clone)]
pub struct StatusInfo {
    pub state: String,
    pub uptime_secs: u64,
    pub usage: UsageInfo,
    pub total_freed_bytes: u64,
    pub last_freed_bytes: u64,
    pub is_charging: bool,
    pub screen_state: String,
    /// As it is shown, with its unit.
    pub soc_temp: String,
    /// As it is shown, with its unit.
    pub battery_temp: String,
}

/// How the daemon answered the question how it is.
#[derive(Debug, Clone)]
pub enum StatusReply {
    Status(StatusInfo),
    Refused(String),
    /// It did not answer. `usage` is told where its process is known.
    Unreachable { error: String, usage: UsageInfo },
    /// An answer to another question.
    Other,
}

/// The lines above what is told of the daemon.
pub open spec fn daemon_header() -> Seq<Seq<char>> {
    seq![RULE@, "          ANDROID CACHE CLEANER DAEMON            "@, RULE@]
}

/// The lines on what a process uses.
pub open spec fn usage_lines(usage: UsageInfo) -> Seq<Seq<char>> {
    seq![
        "  CPU Usage     : "@ + (usage.cpu_usage@ + "%"@),
        "  RAM (PSS)     : "@ + ByteCount(usage.pss_bytes).human(),
        "  RAM (RSS)     : "@ + ByteCount(usage.rss_bytes).human(),
        "  RAM (Total/VM): "@ + ByteCount(usage.vm_size_bytes).human(),
    ]
}

/// The process number of the daemon, where it is known.
pub open spec fn pid_shown(pid: Option<u32>) -> Seq<char> {
    match pid {
        Some(p) => numerals::decimal(p as nat),
        None => "N/A"@,
    }
}

/// The lines on a daemon that answers.
pub open spec fn status_lines(pid: Option<u32>, s: StatusInfo) -> Seq<Seq<char>> {
    daemon_header() + seq![
        "  PID           : "@ + pid_shown(pid),
        "  State         : "@ + s.state@,
        "  Uptime        : "@ + (numerals::decimal(s.uptime_secs as nat) + " seconds"@),
    ] + usage_lines(s.usage) + seq![
        "  Total Freed   : "@ + ByteCount(s.total_freed_bytes).human(),
        "  Last Freed    : "@ + ByteCount(s.last_freed_bytes).human(),
        "  Charging      : "@ + text::bool_shown(s.is_charging),
        "  Screen State  : "@ + s.screen_state@,
        "  SoC Temp      : "@ + s.soc_temp@,
        "  Battery Temp  : "@ + s.battery_temp@,
        RULE@,
    ]
}

/// The lines on a daemon that does not answer.
pub open spec fn unreachable_lines(
    pid: Option<u32>,
    error: Seq<char>,
    usage: UsageInfo,
) -> Seq<Seq<char>> {
    match pid {
        Some(p) => daemon_header() + seq![
            "  PID           : "@ + numerals::decimal(p as nat),
            "  State         : "@ + ("Active (IPC unreachable: "@ + error + ")"@),
        ] + usage_lines(usage) + seq![RULE@],
        None => seq![
            "[!] Daemon is currently OFFLINE."@,
            "    Run `cleaner start` to start the daemon in the background."@,
        ],
    }
}

/// What the user is told of the daemon.
pub open spec fn status_answer(pid: Option<u32>, reply: StatusReply) -> Seq<LineModel> {
    match reply {
        StatusReply::Status(s) => clean::all_out(status_lines(pid, s)),
        StatusReply::Refused(e) => seq![clean::err("Daemon returned error: "@ + e@)],
        StatusReply::Unreachable { error, usage } => clean::all_out(
            unreachable_lines(pid, error@, usage),
        ),
        StatusReply::Other => Seq::empty(),
    }
}

/// The lines on what the daemon has done.
pub open spec fn stats_lines(s: StatusInfo) -> Seq<Seq<char>> {
    seq![
        "Daemon Lifetime Stats:"@,
        "  Uptime        : "@ + (numerals::decimal(s.uptime_secs as nat) + " seconds"@),
    ] + usage_lines(s.usage) + seq!["  Total Freed   : "@ + ByteCount(s.total_freed_bytes).human()]
}

/// What the user is told of what the daemon has done.
pub open spec fn stats_answer(reply: StatusReply) -> Seq<LineModel> {
    match reply {
        StatusReply::Status(s) => clean::all_out(stats_lines(s)),
        StatusReply::Unreachable { error, usage } => seq![
            clean::err("Failed to retrieve stats: "@ + error@),
        ],
        _ => Seq::empty(),
    }
}

fn push_header(lines: &mut Vec<String>)
    ensures
        text::texts(final(lines)@) == text::texts(old(lines)@) + daemon_header(),
{
    let ghost before = text::texts(lines@);
    text::push_text(lines, RULE);
    text::push_text(lines, "          ANDROID CACHE CLEANER DAEMON            ");
    text::push_text(lines, RULE);
    assert(text::texts(lines@) =~= before + daemon_header());
}

fn push_bytes(lines: &mut Vec<String>, head: &str, bytes: u64)
    ensures
        text::texts(final(lines)@) == text::texts(old(lines)@).push(
            head@ + ByteCount(bytes).human(),
        ),
{
    text::push_line(lines, head, ByteCount(bytes).format_human().as_str());
}

fn push_usage(lines: &mut Vec<String>, usage: &UsageInfo)
    ensures
        text::texts(final(lines)@) == text::texts(old(lines)@) + usage_lines(*usage),
{
    let ghost before = text::texts(lines@);
    let mut cpu = usage.cpu_usage.as_str().to_owned();
    cpu.append("%");
    text::push_line(lines, "  CPU Usage     : ", cpu.as_str());
    push_bytes(lines, "  RAM (PSS)     : ", usage.pss_bytes);
    push_bytes(lines, "  RAM (RSS)     : ", usage.rss_bytes);
    push_bytes(lines, "  RAM (Total/VM): ", usage.vm_size_bytes);
    assert(text::texts(lines@) =~= before + usage_lines(*usage));
}

fn push_uptime(lines: &mut Vec<String>, secs: u64)
    ensures
        text::texts(final(lines)@) == text::texts(old(lines)@).push(
            "  Uptime        : "@ + (numerals::decimal(secs as nat) + " seconds"@),
        ),
{
    push_number(lines, "  Uptime        : ", secs, " seconds");
}

fn pid_text(pid: Option<u32>) -> (r: String)
    ensures
        r@ == pid_shown(pid),
{
    match pid {
        Some(p) => numerals::decimal_text(p as u64),
        None => "N/A".to_owned(),
    }
}

fn status_texts(pid: Option<u32>, s: &StatusInfo) -> (r: Vec<String>)
    ensures
        text::texts(r@) == status_lines(pid, *s),
{
    let mut lines: Vec<String> = Vec::new();
    assert(text::texts(lines@) =~= Seq::empty());
    push_header(&mut lines);
    text::push_line(&mut lines, "  PID           : ", pid_text(pid).as_str());
    text::push_line(&mut lines, "  State         : ", s.state.as_str());
    push_uptime(&mut lines, s.uptime_secs);
    push_usage(&mut lines, &s.usage);
    push_bytes(&mut lines, "  Total Freed   : ", s.total_freed_bytes);
    push_bytes(&mut lines, "  Last Freed    : ", s.last_freed_bytes);
    text::push_line(&mut lines, "  Charging      : ", text::bool_text(s.is_charging));
    text::push_line(&mut lines, "  Screen State  : ", s.screen_state.as_str());
    text::push_line(&mut lines, "  SoC Temp      : ", s.soc_temp.as_str());
    text::push_line(&mut lines, "  Battery Temp  : ", s.battery_temp.as_str());
    text::push_text(&mut lines, RULE);
    assert(text::texts(lines@) =~= status_lines(pid, *s));
    lines
}

fn unreachable_texts(pid: Option<u32>, error: &str, usage: &UsageInfo) -> (r: Vec<String>)
    ensures
        text::texts(r@) == unreachable_lines(pid, error@, *usage),
{
    let mut lines: Vec<String> = Vec::new();
    assert(text::texts(lines@) =~= Seq::empty());
    match pid {
        Some(p) => {
            push_header(&mut lines);
            text::push_line(
                &mut lines,
                "  PID           : ",
                numerals::decimal_text(p as u64).as_str(),
            );
            let mut state = "Active (IPC unreachable: ".to_owned();
            state.append(error);
            state.append(")");
            text::push_line(&mut lines, "  State         : ", state.as_str());
            push_usage(&mut lines, usage);
            text::push_text(&mut lines, RULE);
        },
        None => {
            text::push_text(&mut lines, "[!] Daemon is currently OFFLINE.");
            text::push_text(
                &mut lines,
                "    Run `cleaner start` to start the daemon in the background.",
            );
        },
    }
    assert(text::texts(lines@) =~= unreachable_lines(pid, error@, *usage));
    lines
}

fn error_line(lead: &str, error: &str) -> (r: Vec<Line>)
    ensures
        clean::line_models(r@) == seq![clean::err(lead@ + error@)],
{
    let mut text = lead.to_owned();
    text.append(error);
    let ghost shown = text@;
    let mut lines: Vec<Line> = Vec::new();
    lines.push(Line { to_stderr: true, text });
    assert(clean::line_models(lines@) =~= seq![clean::err(shown)]);
    lines
}

fn no_lines() -> (r: Vec<Line>)
    ensures
        clean::line_models(r@) == Seq::<LineModel>::empty(),
{
    let lines: Vec<Line> = Vec::new();
    assert(clean::line_models(lines@) =~= Seq::<LineModel>::empty());
    lines
}

/// What the user is told of the daemon, whose process may be known.
pub fn show_status(pid: Option<u32>, reply: &StatusReply) -> (r: Vec<Line>)
    ensures
        clean::line_models(r@) == status_answer(pid, *reply),
{
    match reply {
        StatusReply::Status(s) => clean::out_lines(status_texts(pid, s)),
        StatusReply::Refused(e) => error_line("Daemon returned error: ", e.as_str()),
        StatusReply::Unreachable { error, usage } => clean::out_lines(
            unreachable_texts(pid, error.as_str(), usage),
        ),
        StatusReply::Other => no_lines(),
    }
}

/// What the user is told of what the daemon has done.
pub fn show_stats(reply: &StatusReply) -> (r: Vec<Line>)
    ensures
        clean::line_models(r@) == stats_answer(*reply),
{
    match reply {
        StatusReply::Status(s) => {
            let mut lines: Vec<String> = Vec::new();
            assert(text::texts(lines@) =~= Seq::empty());
            text::push_text(&mut lines, "Daemon Lifetime Stats:");
            push_uptime(&mut lines, s.uptime_secs);
            push_usage(&mut lines, &s.usage);
            push_bytes(&mut lines, "  Total Freed   : ", s.total_freed_bytes);
            assert(text::texts(lines@) =~= stats_lines(*s));
            clean::out_lines(lines)
        },
        StatusReply::Unreachable { error, .. } => {
            error_line("Failed to retrieve stats: ", error.as_str())
        },
        StatusReply::Refused(_) => no_lines(),
        StatusReply::Other => no_lines(),
    }
}

/// What is said once the default configuration was written to a path, or was not.
pub fn init_config(output: &str, outcome: Result<(), &str>) -> (r: Line)
    ensures
        r@ == match outcome {
            Ok(_) => clean::out("[+] Generated default configuration at: "@ + output@),
            Err(e) => clean::err("Failed to write configuration: "@ + e@),
        },
{
    match outcome {
        Ok(_) => {
            let mut text = "[+] Generated default configuration at: ".to_owned();
            text.append(output);
            Line { to_stderr: false, text }
        },
        Err(e) => {
            let mut text = "Failed to write configuration: ".to_owned();
            text.append(e);
            Line { to_stderr: true, text }
        },
    }
}

/// What the daemon thinks of how idle the device is. The texts are as they are shown.
#[derive(Debug, Clone)]
pub struct IdleInfo {
    pub state: String,
    pub score: u8,
    pub thermal_state: String,
    pub standard_maintenance: String,
    pub heavy_maintenance: String,
    pub rate_limit_ops_per_sec: String,
    pub secs_until_next_transition: Option<u64>,
    pub positives: Vec<String>,
    pub blockers: Vec<String>,
}

/// How the daemon answered the question how idle the device is.
#[derive(Debug, Clone)]
pub enum IdleReply {
    Idle(IdleInfo),
    Refused(String),
    Unreachable(String),
    /// An answer to another question.
    Other,
}

/// A list of reasons, each after a mark.
pub open spec fn marked_lines(mark: Seq<char>, reasons: Seq<Seq<char>>) -> Seq<Seq<char>> {
    reasons.map_values(|reason: Seq<char>| mark + reason)
}

/// The lines on what speaks for and against work.
pub open spec fn factor_lines(
    positives: Seq<Seq<char>>,
    blockers: Seq<Seq<char>>,
) -> Seq<Seq<char>> {
    seq!["--------------------------------------------------"@, "  Positive Factors:"@]
        + marked_lines("    \u{2022} "@, positives) + if blockers.len() > 0 {
        seq!["  Active Blockers:"@] + marked_lines("    \u{2717} "@, blockers)
    } else {
        Seq::empty()
    }
}

/// The lines on how idle the device is, with the reasons where they are asked for.
pub open spec fn idle_lines(idle: IdleInfo, explain: bool) -> Seq<Seq<char>> {
    seq![
        RULE@,
        "            ADAPTIVE IDLE ASSESSMENT              "@,
        RULE@,
        "  Idle State    : "@ + idle.state@,
        "  Idle Score    : "@ + (numerals::decimal(idle.score as nat) + " / 100"@),
        "  Thermal State : "@ + idle.thermal_state@,
        "  Standard Clean: "@ + idle.standard_maintenance@,
        "  Heavy Clean   : "@ + idle.heavy_maintenance@,
        "  Work Rate     : "@ + (idle.rate_limit_ops_per_sec@ + " ops/sec"@),
    ] + match idle.secs_until_next_transition {
        Some(secs) => seq!["  Next Transition: in "@ + (numerals::decimal(secs as nat) + "s"@)],
        None => Seq::empty(),
    } + if explain {
        factor_lines(text::texts(idle.positives@), text::texts(idle.blockers@))
    } else {
        Seq::empty()
    } + seq![RULE@]
}

/// What the user is told of how idle the device is.
pub open spec fn idle_answer(reply: IdleReply, explain: bool) -> Seq<LineModel> {
    match reply {
        IdleReply::Idle(idle) => clean::all_out(idle_lines(idle, explain)),
        IdleReply::Refused(e) => seq![clean::err("Daemon returned error: "@ + e@)],
        IdleReply::Unreachable(e) => seq![
            clean::err("Daemon is unreachable via IPC ("@ + (e@ + ")"@)),
        ],
        IdleReply::Other => Seq::empty(),
    }
}

fn push_number(lines: &mut Vec<String>, head: &str, n: u64, tail: &str)
    ensures
        text::texts(final(lines)@) == text::texts(old(lines)@).push(
            head@ + (numerals::decimal(n as nat) + tail@),
        ),
{
    let mut number = numerals::decimal_text(n);
    number.append(tail);
    text::push_line(lines, head, number.as_str());
}

fn push_marked(lines: &mut Vec<String>, mark: &str, reasons: &Vec<String>)
    ensures
        text::texts(final(lines)@) == text::texts(old(lines)@) + marked_lines(
            mark@,
            text::texts(reasons@),
        ),
{
    let ghost before = text::texts(lines@);
    let ghost all = marked_lines(mark@, text::texts(reasons@));
    let mut i: usize = 0;
    assert(before =~= before + all.take(0));
    while i < reasons.len()
        invariant
            i <= reasons@.len(),
            all == marked_lines(mark@, text::texts(reasons@)),
            all.len() == reasons@.len(),
            text::texts(lines@) == before + all.take(i as int),
        decreases reasons@.len() - i,
    {
        text::push_line(lines, mark, reasons[i].as_str());
        assert(all[i as int] == mark@ + reasons@[i as int]@);
        i += 1;
        assert(text::texts(lines@) =~= before + all.take(i as int));
    }
    assert(all.take(i as int) =~= all);
}

fn push_factors(lines: &mut Vec<String>, positives: &Vec<String>, blockers: &Vec<String>)
    ensures
        text::texts(final(lines)@) == text::texts(old(lines)@) + factor_lines(
            text::texts(positives@),
            text::texts(blockers@),
        ),
{
    let ghost before = text::texts(lines@);
    assert(text::texts(blockers@).len() == blockers@.len());
    text::push_text(lines, "--------------------------------------------------");
    text::push_text(lines, "  Positive Factors:");
    push_marked(lines, "    \u{2022} ", positives);
    if !blockers.is_empty() {
        text::push_text(lines, "  Active Blockers:");
        push_marked(lines, "    \u{2717} ", blockers);
    }
    assert(text::texts(lines@) =~= before + factor_lines(
        text::texts(positives@),
        text::texts(blockers@),
    ));
}

fn idle_texts(idle: &IdleInfo, explain: bool) -> (r: Vec<String>)
    ensures
        text::texts(r@) == idle_lines(*idle, explain),
{
    let mut lines: Vec<String> = Vec::new();
    assert(text::texts(lines@) =~= Seq::empty());
    text::push_text(&mut lines, RULE);
    text::push_text(&mut lines, "            ADAPTIVE IDLE ASSESSMENT              ");
    text::push_text(&mut lines, RULE);
    text::push_line(&mut lines, "  Idle State    : ", idle.state.as_str());
    push_number(&mut lines, "  Idle Score    : ", idle.score as u64, " / 100");
    text::push_line(&mut lines, "  Thermal State : ", idle.thermal_state.as_str());
    text::push_line(&mut lines, "  Standard Clean: ", idle.standard_maintenance.as_str());
    text::push_line(&mut lines, "  Heavy Clean   : ", idle.heavy_maintenance.as_str());
    let mut rate = idle.rate_limit_ops_per_sec.as_str().to_owned();
    rate.append(" ops/sec");
    text::push_line(&mut lines, "  Work Rate     : ", rate.as_str());
    match idle.secs_until_next_transition {
        Some(secs) => {
            push_number(&mut lines, "  Next Transition: in ", secs, "s");
        },
        None => {},
    }
    if explain {
        push_factors(&mut lines, &idle.positives, &idle.blockers);
    }
    text::push_text(&mut lines, RULE);
    assert(text::texts(lines@) =~= idle_lines(*idle, explain));
    lines
}

/// What the user is told of how idle the device is, with the reasons where they are
/// asked for.
pub fn show_idle_assessment(reply: &IdleReply, explain: bool) -> (r: Vec<Line>)
    ensures
        clean::line_models(r@) == idle_answer(*reply, explain),
{
    match reply {
        IdleReply::Idle(idle) => clean::out_lines(idle_texts(idle, explain)),
        IdleReply::Refused(e) => error_line("Daemon returned error: ", e.as_str()),
        IdleReply::Unreachable(e) => {
            let mut error = e.as_str().to_owned();
            error.append(")");
            error_line("Daemon is unreachable via IPC (", error.as_str())
        },
        IdleReply::Other => no_lines(),
    }
}

/// The explanation names the path, what stands there, and what the rules decide on it:
/// the category and the reason of what may go, or why it stays.
pub proof fn law_explanation_tells_what_the_rules_decide(
    config: &DaemonConfig,
    path: &str,
    is_file: bool,
    facts: &PathFacts,
    r: Vec<String>,
    decision: Decision,
)
    requires
        call_ensures(explain_path, (config, path, is_file, facts), r),
        call_ensures(
            rules::evaluate,
            (&config.cleaning, &config.safety, path, is_file),
            decision,
        ),
    ensures
        ({
            let n = r@.len() as int;
            &&& n >= 9
            &&& r@[3]@ == "  Target Path   : "@ + path@
            &&& r@[4]@ == "  Exists on Disk: "@ + text::bool_shown(facts.exists)
            &&& facts.item matches Some(i) ==> {
                &&& r@[5]@ == "  Device / Inode: "@ + (numerals::decimal(i.dev as nat) + " / "@
                    + numerals::decimal(i.ino as nat))
                &&& r@[6]@ == "  UID / GID     : "@ + (numerals::decimal(i.uid as nat) + " / "@
                    + numerals::decimal(i.gid as nat))
                &&& r@[7]@ == "  Is Symlink    : "@ + text::bool_shown(i.is_symlink)
                &&& r@[8]@ == "  File Size     : "@ + ByteCount(i.size).human()
            }
            &&& decision matches Decision::Delete { category, reason } ==> {
                &&& r@[n - 5]@ == "  Action        : DELETE (Eligible for cleanup)"@
                &&& r@[n - 4]@ == "  Category      : "@ + match category {
                    JunkCategory::AppCache => "AppCache"@,
                    JunkCategory::WebViewCache => "WebViewCache"@,
                    JunkCategory::ImageCache => "ImageCache"@,
                    JunkCategory::Thumbnail => "Thumbnail"@,
                    JunkCategory::CodeCache => "CodeCache"@,
                    JunkCategory::OemLog => "OemLog"@,
                    JunkCategory::CrashDump => "CrashDump"@,
                    JunkCategory::TempApk => "TempApk"@,
                }
                &&& r@[n - 3]@ == "  Rule Reason   : "@ + reason@
                &&& r@[n - 2]@ == "  Min File Age  : "@ + (numerals::decimal(
                    config.cleaning.min_file_age_hours as nat,
                ) + " hours"@)
            }
            &&& decision matches Decision::Skip { reason } ==> {
                &&& r@[n - 3]@ == "  Action        : SKIP (Protected / Ignored)"@
                &&& reason matches SkipReason::ProtectedDirectory(d) ==> r@[n - 2]@
                    == "  Skip Reason   : "@ + ("Matched protected directory component: '"@ + d@
                    + "'"@)
                &&& reason matches SkipReason::WhitelistedPackage(p) ==> r@[n - 2]@
                    == "  Skip Reason   : "@ + ("Matched whitelisted package: '"@ + p@ + "'"@)
                &&& reason is CodeCacheProtected ==> r@[n - 2]@ == "  Skip Reason   : "@
                    + "JIT / ART bytecode is protected by default"@
                &&& reason matches SkipReason::DisabledByConfig(o) ==> r@[n - 2]@
                    == "  Skip Reason   : "@ + ("Cleaning category is disabled by config: '"@ + o@
                    + "'"@)
                &&& reason is NotRecognizedAsJunk ==> r@[n - 2]@ == "  Skip Reason   : "@
                    + "Path does not match any recognized junk patterns"@
            }
        }),
{
    let lines = text::texts(r@);
    assert(lines.len() == r@.len());
    assert forall|i: int| 0 <= i < r@.len() implies (#[trigger] r@[i])@ == lines[i] by {}
}

/// What is told of the platform: the system, then every user with the state of their
/// storage, in their order, then the hardware.
pub proof fn law_platform_is_told_part_by_part(
    sys: &AndroidSystemInfo,
    selinux: SelinuxMode,
    users: &Vec<UserLine>,
    hardware: &HardwareInfo,
    kernel: &KernelInfo,
    r: Vec<String>,
    i: int,
)
    requires
        call_ensures(show_platform_info, (sys, selinux, users, hardware, kernel), r),
    ensures
        ({
            let n = users@.len() as int;
            &&& r@.len() >= 10 + n + 7
            &&& r@[3]@ == "  API Level     : "@ + (numerals::decimal(sys.api_level as nat)
                + " (Android "@ + sys.release_version@ + ")"@)
            &&& r@[4]@ == "  Manufacturer  : "@ + sys.manufacturer@
            &&& r@[5]@ == "  Brand / Model : "@ + (sys.brand@ + " / "@ + sys.model@)
            &&& r@[6]@ == "  Encrypted     : "@ + text::bool_shown(sys.is_encrypted)
            &&& r@[7]@ == "  SELinux Mode  : "@ + match selinux {
                SelinuxMode::Enforcing => "Enforcing"@,
                SelinuxMode::Permissive => "Permissive"@,
                SelinuxMode::Disabled => "Disabled"@,
                SelinuxMode::Unknown => "Unknown"@,
            }
            &&& 0 <= i < n ==> r@[10 + i]@ == "  - User ID: "@ + (numerals::decimal(
                users@[i].user_id as nat,
            ) + " | State: "@ + match users@[i].state {
                EncryptionState::Unencrypted => "Unencrypted"@,
                EncryptionState::DeviceEncryptedOnly => "DeviceEncryptedOnly"@,
                EncryptionState::FullyUnlocked => "FullyUnlocked"@,
                EncryptionState::Unknown => "Unknown"@,
            } + " | Path: "@ + users@[i].ce_path@)
            &&& r@[12 + n]@ == "  - SoC Temp     : "@ + hardware.soc_temp@
            &&& r@[13 + n]@ == "  - Battery Temp : "@ + hardware.battery_temp@
            &&& r@[14 + n]@ == "  - Charger State: "@ + match hardware.charger {
                ChargerState::Charging => "Charging"@,
                ChargerState::Discharging => "Discharging"@,
                ChargerState::Full => "Full"@,
                ChargerState::Unknown => "Unknown"@,
            }
            &&& r@[15 + n]@ == "  - Screen State : "@ + match hardware.screen {
                ScreenState::On => "On"@,
                ScreenState::Off => "Off"@,
                ScreenState::Unknown => "Unknown"@,
            }
            &&& r@[16 + n]@ == "  - F2FS GC Avail: "@ + text::bool_shown(hardware.f2fs_available)
        }),
{
    let lines = text::texts(r@);
    assert(lines.len() == r@.len());
    assert forall|k: int| 0 <= k < r@.len() implies (#[trigger] r@[k])@ == lines[k] by {}
    let shown = users@.map_values(|u: UserLine| user_line(u));
    assert(shown.len() == users@.len());
    if 0 <= i < users@.len() {
        assert(lines[10 + i] == shown[i]);
        assert(shown[i] == user_line(users@[i]));
    }
}

/// What is told of the kernel behind it: control groups, the freezer and pressure, of
/// which what is not known is left out.
pub proof fn law_kernel_is_told_behind(
    sys: &AndroidSystemInfo,
    selinux: SelinuxMode,
    users: &Vec<UserLine>,
    hardware: &HardwareInfo,
    kernel: &KernelInfo,
    r: Vec<String>,
)
    requires
        call_ensures(show_platform_info, (sys, selinux, users, hardware, kernel), r),
    ensures
        ({
            let one = |b: bool|
                if b {
                    1int
                } else {
                    0int
                };
            let g = kernel.cgroup;
            let c = 17 + users@.len() as int;
            let own = c + 4 + one(g.controllers_available@.len() > 0);
            let f = own + one(g.current_process_cgroups@.len() > 0);
            let p = f + 5;
            let io = p + 4 + one(kernel.psi.memory is Some);
            let end = io + one(kernel.psi.io is Some);
            &&& r@.len() == end + 1
            &&& r@[c + 2]@ == "  - Hierarchy    : "@ + g.detected_version@
            &&& r@[c + 3]@ == "  - Mem Reclaim  : "@ + if g.supports_memory_reclaim {
                "Supported (Cgroup v2)"@
            } else {
                "Not Available / v1"@
            }
            &&& g.controllers_available@.len() > 0 ==> r@[c + 4]@ == "  - Controllers  : "@
                + text::joined_by(text::texts(g.controllers_available@), ", "@)
            &&& g.current_process_cgroups@.len() > 0 ==> r@[own]@ == "  - Current Group: "@
                + g.current_process_cgroups@[0]@
            &&& r@[f + 2]@ == "  - App Freezer  : "@
                + if kernel.freezer.is_cached_apps_freezer_enabled {
                "Enabled (Active)"@
            } else {
                "Disabled / Inactive"@
            }
            &&& r@[f + 3]@ == "  - Hierarchy    : "@ + kernel.freezer.freezer_cgroup_version@
            &&& r@[f + 4]@ == "  - Frozen UIDs  : "@ + (numerals::decimal(
                kernel.freezer.total_frozen_uids_count as nat,
            ) + " processes currently frozen in RAM"@)
            &&& r@[p + 2]@ == "  - PSI Supported: "@ + if kernel.psi.is_supported {
                "Yes (/proc/pressure active)"@
            } else {
                "No / Kernel PSI disabled"@
            }
            &&& r@[p + 3]@ == "  - Pressure Lvl : "@ + kernel.psi.current_level@
            &&& kernel.psi.memory matches Some(m) ==> r@[p + 4]@ == "  - Mem Pressure : "@ + (
            "some avg10="@ + m.some@ + "%, full avg10="@ + match m.full {
                Some(full) => full@ + "%"@,
                None => "N/A"@,
            })
            &&& kernel.psi.io matches Some(m) ==> r@[io]@ == "  - I/O Pressure : "@ + (
            "some avg10="@ + m.some@ + "%, full avg10="@ + match m.full {
                Some(full) => full@ + "%"@,
                None => "N/A"@,
            })
        }),
{
    let lines = text::texts(r@);
    assert(lines.len() == r@.len());
    assert forall|k: int| 0 <= k < r@.len() implies (#[trigger] r@[k])@ == lines[k] by {}
    let shown = users@.map_values(|u: UserLine| user_line(u));
    assert(shown.len() == users@.len());
}

proof fn lemma_told(lines: Seq<Line>, texts: Seq<Seq<char>>, i: int)
    requires
        clean::line_models(lines) == clean::all_out(texts),
    ensures
        lines.len() == texts.len(),
        0 <= i < lines.len() ==> lines[i].text@ == texts[i] && !lines[i].to_stderr,
{
    assert(clean::line_models(lines).len() == lines.len());
    assert(clean::all_out(texts).len() == texts.len());
    if 0 <= i < lines.len() {
        assert(clean::line_models(lines)[i] == lines[i]@);
        assert(clean::all_out(texts)[i] == clean::out(texts[i]));
    }
}

/// A daemon that answers is told of line by line: its process, its state, what it uses,
/// what it freed, and how the device is.
pub proof fn law_status_tells_what_the_daemon_said(
    pid: Option<u32>,
    s: StatusInfo,
    r: Vec<Line>,
    i: int,
)
    requires
        call_ensures(show_status, (pid, &StatusReply::Status(s)), r),
    ensures
        r@.len() == 17,
        0 <= i < 17 ==> !r@[i].to_stderr,
        r@[3].text@ == "  PID           : "@ + match pid {
            Some(p) => numerals::decimal(p as nat),
            None => "N/A"@,
        },
        r@[4].text@ == "  State         : "@ + s.state@,
        r@[5].text@ == "  Uptime        : "@ + (numerals::decimal(s.uptime_secs as nat)
            + " seconds"@),
        r@[6].text@ == "  CPU Usage     : "@ + (s.usage.cpu_usage@ + "%"@),
        r@[7].text@ == "  RAM (PSS)     : "@ + ByteCount(s.usage.pss_bytes).human(),
        r@[8].text@ == "  RAM (RSS)     : "@ + ByteCount(s.usage.rss_bytes).human(),
        r@[9].text@ == "  RAM (Total/VM): "@ + ByteCount(s.usage.vm_size_bytes).human(),
        r@[10].text@ == "  Total Freed   : "@ + ByteCount(s.total_freed_bytes).human(),
        r@[11].text@ == "  Last Freed    : "@ + ByteCount(s.last_freed_bytes).human(),
        r@[12].text@ == "  Charging      : "@ + text::bool_shown(s.is_charging),
        r@[13].text@ == "  Screen State  : "@ + s.screen_state@,
        r@[14].text@ == "  SoC Temp      : "@ + s.soc_temp@,
        r@[15].text@ == "  Battery Temp  : "@ + s.battery_temp@,
{
    let texts = status_lines(pid, s);
    lemma_told(r@, texts, i);
    assert forall|k: int| 0 <= k < r@.len() implies (#[trigger] r@[k]).text@ == texts[k] by {
        lemma_told(r@, texts, k);
    }
}

/// A daemon that does not answer is told of as running where its process is known, with
/// the error, and as offline otherwise; a refusal is an error.
pub proof fn law_status_without_answer_is_told(pid: Option<u32>, reply: &StatusReply, r: Vec<Line>)
    requires
        call_ensures(show_status, (pid, reply), r),
    ensures
        *reply is Other ==> r@.len() == 0,
        *reply matches StatusReply::Refused(e) ==> r@.len() == 1 && r@[0].to_stderr && r@[0].text@
            == "Daemon returned error: "@ + e@,
        *reply matches StatusReply::Unreachable { error, usage } ==> {
            &&& pid matches Some(p) ==> {
                &&& r@.len() == 10
                &&& r@[3].text@ == "  PID           : "@ + numerals::decimal(p as nat)
                &&& r@[4].text@ == "  State         : "@ + ("Active (IPC unreachable: "@ + error@
                    + ")"@)
                &&& r@[5].text@ == "  CPU Usage     : "@ + (usage.cpu_usage@ + "%"@)
                &&& r@[6].text@ == "  RAM (PSS)     : "@ + ByteCount(usage.pss_bytes).human()
                &&& r@[7].text@ == "  RAM (RSS)     : "@ + ByteCount(usage.rss_bytes).human()
                &&& r@[8].text@ == "  RAM (Total/VM): "@ + ByteCount(usage.vm_size_bytes).human()
            }
            &&& pid is None ==> r@.len() == 2 && r@[0].text@ == "[!] Daemon is currently OFFLINE."@
        },
{
    assert(clean::line_models(r@).len() == r@.len());
    match *reply {
        StatusReply::Unreachable { error, usage } => {
            let texts = unreachable_lines(pid, error@, usage);
            lemma_told(r@, texts, 0);
            assert forall|k: int| 0 <= k < r@.len() implies (#[trigger] r@[k]).text@ == texts[k] by {
                lemma_told(r@, texts, k);
            }
        },
        StatusReply::Refused(e) => {
            assert(clean::line_models(r@)[0] == r@[0]@);
        },
        _ => {},
    }
}

/// What the daemon has done is told where it answers, and an error where it cannot be
/// reached.
pub proof fn law_stats_tell_what_was_done(reply: &StatusReply, r: Vec<Line>)
    requires
        call_ensures(show_stats, (reply,), r),
    ensures
        *reply is Other || *reply is Refused ==> r@.len() == 0,
        *reply matches StatusReply::Unreachable { error, .. } ==> r@.len() == 1 && r@[0].to_stderr
            && r@[0].text@ == "Failed to retrieve stats: "@ + error@,
        *reply matches StatusReply::Status(s) ==> {
            &&& r@.len() == 7
            &&& r@[0].text@ == "Daemon Lifetime Stats:"@
            &&& r@[1].text@ == "  Uptime        : "@ + (numerals::decimal(s.uptime_secs as nat)
                + " seconds"@)
            &&& r@[2].text@ == "  CPU Usage     : "@ + (s.usage.cpu_usage@ + "%"@)
            &&& r@[3].text@ == "  RAM (PSS)     : "@ + ByteCount(s.usage.pss_bytes).human()
            &&& r@[4].text@ == "  RAM (RSS)     : "@ + ByteCount(s.usage.rss_bytes).human()
            &&& r@[5].text@ == "  RAM (Total/VM): "@ + ByteCount(s.usage.vm_size_bytes).human()
            &&& r@[6].text@ == "  Total Freed   : "@ + ByteCount(s.total_freed_bytes).human()
        },
{
    assert(clean::line_models(r@).len() == r@.len());
    match *reply {
        StatusReply::Status(s) => {
            let texts = stats_lines(s);
            lemma_told(r@, texts, 0);
            assert forall|k: int| 0 <= k < r@.len() implies (#[trigger] r@[k]).text@ == texts[k] by {
                lemma_told(r@, texts, k);
            }
        },
        StatusReply::Unreachable { error, usage } => {
            assert(clean::line_models(r@)[0] == r@[0]@);
        },
        _ => {},
    }
}

/// A configuration that was written is told of by its path, and one that was not by the
/// error.
pub proof fn law_written_config_is_told(output: &str, outcome: Result<(), &str>, r: Line)
    requires
        call_ensures(init_config, (output, outcome), r),
    ensures
        r.to_stderr <==> outcome is Err,
        outcome is Ok ==> r.text@ == "[+] Generated default configuration at: "@ + output@,
        outcome matches Err(e) ==> r.text@ == "Failed to write configuration: "@ + e@,
{
}

/// How idle the device is, is told line by line; the reasons follow only where they are
/// asked for, those in favour first.
pub proof fn law_idleness_is_told(idle: IdleInfo, explain: bool, r: Vec<Line>, i: int)
    requires
        call_ensures(show_idle_assessment, (&IdleReply::Idle(idle), explain), r),
    ensures
        ({
            let next = if idle.secs_until_next_transition is Some {
                1int
            } else {
                0int
            };
            let p = idle.positives@.len() as int;
            let b = idle.blockers@.len() as int;
            &&& r@.len() == 10 + next + if explain {
                2 + p + if b > 0 {
                    1 + b
                } else {
                    0
                }
            } else {
                0
            }
            &&& r@[3].text@ == "  Idle State    : "@ + idle.state@
            &&& r@[4].text@ == "  Idle Score    : "@ + (numerals::decimal(idle.score as nat)
                + " / 100"@)
            &&& r@[5].text@ == "  Thermal State : "@ + idle.thermal_state@
            &&& r@[6].text@ == "  Standard Clean: "@ + idle.standard_maintenance@
            &&& r@[7].text@ == "  Heavy Clean   : "@ + idle.heavy_maintenance@
            &&& r@[8].text@ == "  Work Rate     : "@ + (idle.rate_limit_ops_per_sec@
                + " ops/sec"@)
            &&& idle.secs_until_next_transition matches Some(secs) ==> r@[9].text@
                == "  Next Transition: in "@ + (numerals::decimal(secs as nat) + "s"@)
            &&& explain && 0 <= i < p ==> r@[11 + next + i].text@ == "    \u{2022} "@
                + idle.positives@[i]@
            &&& explain && 0 <= i < b ==> r@[12 + next + p + i].text@ == "    \u{2717} "@
                + idle.blockers@[i]@
        }),
{
    let texts = idle_lines(idle, explain);
    lemma_told(r@, texts, 0);
    assert forall|k: int| 0 <= k < r@.len() implies (#[trigger] r@[k]).text@ == texts[k] by {
        lemma_told(r@, texts, k);
    }
    let next = if idle.secs_until_next_transition is Some {
        1int
    } else {
        0int
    };
    let positives = marked_lines("    \u{2022} "@, text::texts(idle.positives@));
    let blockers = marked_lines("    \u{2717} "@, text::texts(idle.blockers@));
    assert(positives.len() == idle.positives@.len());
    assert(blockers.len() == idle.blockers@.len());
    assert(text::texts(idle.blockers@).len() == idle.blockers@.len());
    if explain && 0 <= i < positives.len() {
        assert(texts[11 + next + i] == positives[i]);
        assert(positives[i] == "    \u{2022} "@ + idle.positives@[i]@);
    }
    if explain && 0 <= i < blockers.len() {
        assert(texts[12 + next + positives.len() + i] == blockers[i]);
        assert(blockers[i] == "    \u{2717} "@ + idle.blockers@[i]@);
    }
}

/// A daemon that does not tell how idle the device is leaves an error, or nothing.
pub proof fn law_idleness_without_answer_is_told(reply: &IdleReply, explain: bool, r: Vec<Line>)
    requires
        call_ensures(show_idle_assessment, (reply, explain), r),
    ensures
        *reply is Other ==> r@.len() == 0,
        *reply matches IdleReply::Refused(e) ==> r@.len() == 1 && r@[0].to_stderr && r@[0].text@
            == "Daemon returned error: "@ + e@,
        *reply matches IdleReply::Unreachable(e) ==> r@.len() == 1 && r@[0].to_stderr && r@[0].text@
            == "Daemon is unreachable via IPC ("@ + (e@ + ")"@),
{
    assert(clean::line_models(r@).len() == r@.len());
    if r@.len() > 0 {
        assert(clean::line_models(r@)[0] == r@[0]@);
    }
}

} // verus!
