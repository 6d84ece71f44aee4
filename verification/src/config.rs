//! The daemon's configuration: defaults and validation.
use vstd::prelude::*;

use crate::error::CleanerError;
use crate::text;

verus! {

/// A temperature in degrees Celsius, held as the bit pattern of an IEEE 754
/// single precision number.
#[derive(Debug, Clone, Copy, PartialEq, Eq, Structural)]
pub struct Celsius {
    pub bits: u32,
}

/// The bit pattern of 20 degrees.
pub const TWENTY_DEGREES: u32 = 0x41a0_0000;

/// The bit pattern of 39.5 degrees.
pub const THIRTY_NINE_AND_A_HALF_DEGREES: u32 = 0x421e_0000;

/// The bit pattern of 42 degrees.
pub const FORTY_TWO_DEGREES: u32 = 0x4228_0000;

/// The bit pattern of 44 degrees.
pub const FORTY_FOUR_DEGREES: u32 = 0x4230_0000;

/// The bit pattern of 45 degrees.
pub const FORTY_FIVE_DEGREES: u32 = 0x4234_0000;

/// The bit pattern of 65 degrees.
pub const SIXTY_FIVE_DEGREES: u32 = 0x4282_0000;

/// The bit pattern of 90 degrees.
pub const NINETY_DEGREES: u32 = 0x42b4_0000;

/// The bit pattern of 95 degrees.
pub const NINETY_FIVE_DEGREES: u32 = 0x42be_0000;

impl Celsius {
    /// The bit pattern without its sign.
    pub open spec fn magnitude(self) -> int {
        if self.bits >= 0x8000_0000 {
            self.bits - 0x8000_0000
        } else {
            self.bits as int
        }
    }

    /// The bit pattern is no number.
    pub open spec fn is_nan(self) -> bool {
        self.magnitude() > 0x7f80_0000
    }

    /// An integer that grows with the temperature: the magnitude, negative where
    /// the sign is set.
    pub open spec fn rank(self) -> int {
        if self.bits >= 0x8000_0000 {
            -self.magnitude()
        } else {
            self.magnitude()
        }
    }

    /// This temperature is lower than `other`; no number is lower than nothing.
    pub open spec fn is_below(self, other: Celsius) -> bool {
        !self.is_nan() && !other.is_nan() && self.rank() < other.rank()
    }

    /// Not lower than `low` and not higher than `high`, and a number.
    pub open spec fn is_within(self, low: u32, high: u32) -> bool {
        !self.is_nan() && !self.is_below(Celsius { bits: low }) && !(Celsius {
            bits: high,
        }).is_below(self)
    }

    fn magnitude_of(self) -> (r: i64)
        ensures
            r == self.magnitude(),
    {
        if self.bits >= 0x8000_0000 {
            (self.bits - 0x8000_0000) as i64
        } else {
            self.bits as i64
        }
    }

    fn rank_of(self) -> (r: i64)
        ensures
            r == self.rank(),
    {
        if self.bits >= 0x8000_0000 {
            -self.magnitude_of()
        } else {
            self.magnitude_of()
        }
    }

    /// `true` where this temperature is lower than `other`.
    pub fn below(self, other: Celsius) -> (r: bool)
        ensures
            r == self.is_below(other),
    {
        self.magnitude_of() <= 0x7f80_0000 && other.magnitude_of() <= 0x7f80_0000 && self.rank_of()
            < other.rank_of()
    }

    /// `true` where this temperature is a number from `low` up to `high`.
    pub fn within(self, low: u32, high: u32) -> (r: bool)
        ensures
            r == self.is_within(low, high),
    {
        self.magnitude_of() <= 0x7f80_0000 && !self.below(Celsius { bits: low }) && !(Celsius {
            bits: high,
        }).below(self)
    }
}

/// Home of the daemon.
pub const BASE_DIR: &'static str = "/data/adb/cleaner";

/// The daemon's program file.
pub const BIN_PATH: &'static str = "/data/adb/cleaner/bin/cleaner";

/// Files of the running daemon.
pub const RUN_DIR: &'static str = "/data/adb/cleaner/run";

/// The configuration file.
pub const CONFIG_PATH: &'static str = "/data/adb/cleaner/config.toml";

/// The daemon's socket.
pub const SOCKET_PATH: &'static str = "/data/adb/cleaner/run/daemon";

/// The daemon's log.
pub const LOG_PATH: &'static str = "/data/adb/cleaner/run/cleaner.log";

/// The file that holds the daemon's process number.
pub const PID_PATH: &'static str = "/data/adb/cleaner/run/cleaner.pid";

/// The file that the running daemon locks.
pub const LOCK_PATH: &'static str = "/data/adb/cleaner/run/cleaner_daemon.lock";

/// Which kinds of junk are cleaned.
#[derive(Debug, Clone, PartialEq, Eq, Structural)]
pub struct CleaningRulesConfig {
    pub clean_app_cache: bool,
    pub clean_webview_cache: bool,
    pub clean_image_caches: bool,
    pub clean_thumbnails: bool,
    pub clean_code_cache: bool,
    pub clean_oem_logs: bool,
    pub clean_crash_dumps: bool,
    pub keep_recent_crash_files: usize,
    pub clean_temp_apks: bool,
    pub min_file_age_hours: u32,
}

/// Memory and storage maintenance.
#[derive(Debug, Clone)]
pub struct OptimizationConfig {
    pub zram_compaction: bool,
    pub compact_memory: bool,
    pub cgroup_memory_reclaim: bool,
    pub cgroup_reclaim_amount_mb: u64,
    pub freezer_aware_cleaning: bool,
    pub psi_adaptive_monitoring: bool,
    pub psi_moderate_stall_ms: u32,
    pub psi_critical_stall_ms: u32,
    pub psi_cooldown_secs: u64,
    pub f2fs_gc_urgent: bool,
    pub fstrim_partitions: bool,
    pub trim_mount_points: Vec<String>,
}

/// How far cleaning may go.
#[derive(Debug, Clone, Copy, PartialEq, Eq, Structural)]
pub enum SafetyMode {
    /// Application caches only, and nothing younger than a day.
    Safe,
    /// Web view and image caches and thumbnails too.
    Balanced,
    /// Vendor logs, crash dumps and temporary packages too.
    Aggressive,
}

/// What is never cleaned.
#[derive(Debug, Clone)]
pub struct SafetyConfig {
    pub mode: SafetyMode,
    pub whitelist_packages: Vec<String>,
    pub protected_directory_names: Vec<String>,
}

/// A limit on a temperature, together with the way it is written.
#[derive(Debug, Clone)]
pub struct TempLimit {
    pub degrees: Celsius,
    pub shown: String,
}

/// The whole configuration of the daemon.
#[derive(Debug, Clone)]
pub struct DaemonConfig {
    pub maintenance_interval_secs: u64,
    pub socket_path: String,
    pub abstract_socket_name: String,
    pub require_screen_off: bool,
    pub require_charging_for_deep_clean: bool,
    pub min_screen_off_secs: u64,
    pub max_soc_temp_c: TempLimit,
    pub max_battery_temp_c: TempLimit,
    pub cleaning: CleaningRulesConfig,
    pub optimization: OptimizationConfig,
    pub safety: SafetyConfig,
}

impl TempLimit {
    /// A copy of this limit.
    pub fn copy(&self) -> (r: Self)
        ensures
            r == *self,
    {
        TempLimit { degrees: self.degrees, shown: self.shown.clone() }
    }
}

/// The mount points trimmed by default.
pub open spec fn default_trim_mounts() -> Seq<Seq<char>> {
    seq!["/data"@, "/cache"@, "/metadata"@]
}

/// The packages that are never cleaned by default.
pub open spec fn default_whitelist() -> Seq<Seq<char>> {
    seq![
        "com.android.systemui"@,
        "com.android.settings"@,
        "com.android.providers.settings"@,
        "com.android.providers.media"@,
        "com.google.android.gms"@,
        "com.google.android.googlequicksearchbox"@,
    ]
}

/// The directory names that are never cleaned by default.
pub open spec fn default_protected_names() -> Seq<Seq<char>> {
    seq![
        ".nomedia"@,
        "shared_prefs"@,
        "databases"@,
        "lib"@,
        "files"@,
        "keystore"@,
        "fpdata"@,
    ]
}

impl CleaningRulesConfig {
    /// The rules used where nothing is configured.
    pub open spec fn defaults() -> CleaningRulesConfig {
        CleaningRulesConfig {
            clean_app_cache: true,
            clean_webview_cache: true,
            clean_image_caches: true,
            clean_thumbnails: false,
            clean_code_cache: false,
            clean_oem_logs: false,
            clean_crash_dumps: false,
            keep_recent_crash_files: 3,
            clean_temp_apks: false,
            min_file_age_hours: 24,
        }
    }
}

impl Default for CleaningRulesConfig {
    fn default() -> (r: Self)
        ensures
            r == CleaningRulesConfig::defaults(),
    {
        CleaningRulesConfig {
            clean_app_cache: true,
            clean_webview_cache: true,
            clean_image_caches: true,
            clean_thumbnails: false,
            clean_code_cache: false,
            clean_oem_logs: false,
            clean_crash_dumps: false,
            keep_recent_crash_files: 3,
            clean_temp_apks: false,
            min_file_age_hours: 24,
        }
    }
}

impl OptimizationConfig {
    /// The settings used where nothing is configured.
    pub open spec fn is_default(self) -> bool {
        &&& !self.zram_compaction
        &&& !self.compact_memory
        &&& !self.cgroup_memory_reclaim
        &&& self.cgroup_reclaim_amount_mb == 128
        &&& self.freezer_aware_cleaning
        &&& self.psi_adaptive_monitoring
        &&& self.psi_moderate_stall_ms == 150
        &&& self.psi_critical_stall_ms == 250
        &&& self.psi_cooldown_secs == 45
        &&& self.f2fs_gc_urgent
        &&& !self.fstrim_partitions
        &&& text::texts(self.trim_mount_points@) == default_trim_mounts()
    }
}

impl Default for OptimizationConfig {
    fn default() -> (r: Self)
        ensures
            r.is_default(),
    {
        let r = OptimizationConfig {
            zram_compaction: false,
            compact_memory: false,
            cgroup_memory_reclaim: false,
            cgroup_reclaim_amount_mb: 128,
            freezer_aware_cleaning: true,
            psi_adaptive_monitoring: true,
            psi_moderate_stall_ms: 150,
            psi_critical_stall_ms: 250,
            psi_cooldown_secs: 45,
            f2fs_gc_urgent: true,
            fstrim_partitions: false,
            trim_mount_points: text::strings(&["/data", "/cache", "/metadata"]),
        };
        assert(text::texts(r.trim_mount_points@) =~= default_trim_mounts());
        r
    }
}

impl SafetyConfig {
    /// The settings used where nothing is configured.
    pub open spec fn is_default(self) -> bool {
        &&& self.mode == SafetyMode::Safe
        &&& text::texts(self.whitelist_packages@) == default_whitelist()
        &&& text::texts(self.protected_directory_names@) == default_protected_names()
    }
}

impl Default for SafetyConfig {
    fn default() -> (r: Self)
        ensures
            r.is_default(),
    {
        let r = SafetyConfig {
            mode: SafetyMode::Safe,
            whitelist_packages: text::strings(
                &[
                    "com.android.systemui",
                    "com.android.settings",
                    "com.android.providers.settings",
                    "com.android.providers.media",
                    "com.google.android.gms",
                    "com.google.android.googlequicksearchbox",
                ],
            ),
            protected_directory_names: text::strings(
                &[
                    ".nomedia",
                    "shared_prefs",
                    "databases",
                    "lib",
                    "files",
                    "keystore",
                    "fpdata",
                ],
            ),
        };
        assert(text::texts(r.whitelist_packages@) =~= default_whitelist());
        assert(text::texts(r.protected_directory_names@) =~= default_protected_names());
        r
    }
}

impl DaemonConfig {
    /// The configuration used where nothing is configured.
    pub open spec fn is_default(self) -> bool {
        &&& self.maintenance_interval_secs == 21_600
        &&& self.socket_path@ == SOCKET_PATH@
        &&& self.abstract_socket_name@ == "cleaner_daemon"@
        &&& self.require_screen_off
        &&& self.require_charging_for_deep_clean
        &&& self.min_screen_off_secs == 180
        &&& self.max_soc_temp_c.degrees.bits == FORTY_FOUR_DEGREES
        &&& self.max_soc_temp_c.shown@ == "44"@
        &&& self.max_battery_temp_c.degrees.bits == THIRTY_NINE_AND_A_HALF_DEGREES
        &&& self.max_battery_temp_c.shown@ == "39.5"@
        &&& self.cleaning == CleaningRulesConfig::defaults()
        &&& self.optimization.is_default()
        &&& self.safety.is_default()
    }

    /// What is wrong with the configuration, the first thing found; nothing
    /// where it is valid. A limit that is no number is let pass.
    pub open spec fn complaint(self) -> Option<Seq<char>> {
        if self.maintenance_interval_secs < 30 {
            Some("maintenance_interval_secs must be at least 30 seconds"@)
        } else if self.max_soc_temp_c.degrees.is_below(Celsius { bits: TWENTY_DEGREES }) || (Celsius {
            bits: NINETY_FIVE_DEGREES,
        }).is_below(self.max_soc_temp_c.degrees) {
            Some("max_soc_temp_c must be between 20.0\u{b0}C and 95.0\u{b0}C"@)
        } else if self.max_battery_temp_c.degrees.is_below(Celsius { bits: TWENTY_DEGREES }) || (Celsius {
            bits: SIXTY_FIVE_DEGREES,
        }).is_below(self.max_battery_temp_c.degrees) {
            Some("max_battery_temp_c must be between 20.0\u{b0}C and 65.0\u{b0}C"@)
        } else if self.safety.protected_directory_names@.len() == 0 {
            Some("safety.protected_directory_names cannot be empty"@)
        } else {
            None
        }
    }

    /// Checks the values against their safe bounds.
    pub fn validate(&self) -> (r: Result<(), CleanerError>)
        ensures
            r is Ok <==> self.complaint() is None,
            r matches Err(e) ==> (e matches CleanerError::Config(m) && self.complaint() == Some(
                m@,
            )),
    {
        if self.maintenance_interval_secs < 30 {
            return Err(
                CleanerError::Config(
                    "maintenance_interval_secs must be at least 30 seconds".to_owned(),
                ),
            );
        }
        if self.max_soc_temp_c.degrees.below(Celsius { bits: TWENTY_DEGREES }) || (Celsius {
            bits: NINETY_FIVE_DEGREES,
        }).below(self.max_soc_temp_c.degrees) {
            return Err(
                CleanerError::Config(
                    "max_soc_temp_c must be between 20.0\u{b0}C and 95.0\u{b0}C".to_owned(),
                ),
            );
        }
        if self.max_battery_temp_c.degrees.below(Celsius { bits: TWENTY_DEGREES }) || (Celsius {
            bits: SIXTY_FIVE_DEGREES,
        }).below(self.max_battery_temp_c.degrees) {
            return Err(
                CleanerError::Config(
                    "max_battery_temp_c must be between 20.0\u{b0}C and 65.0\u{b0}C".to_owned(),
                ),
            );
        }
        if self.safety.protected_directory_names.is_empty() {
            return Err(
                CleanerError::Config("safety.protected_directory_names cannot be empty".to_owned()),
            );
        }
        Ok(())
    }
}

impl Default for DaemonConfig {
    fn default() -> (r: Self)
        ensures
            r.is_default(),
    {
        DaemonConfig {
            maintenance_interval_secs: 21_600,
            socket_path: SOCKET_PATH.to_owned(),
            abstract_socket_name: "cleaner_daemon".to_owned(),
            require_screen_off: true,
            require_charging_for_deep_clean: true,
            min_screen_off_secs: 180,
            max_soc_temp_c: TempLimit {
                degrees: Celsius { bits: FORTY_FOUR_DEGREES },
                shown: "44".to_owned(),
            },
            max_battery_temp_c: TempLimit {
                degrees: Celsius { bits: THIRTY_NINE_AND_A_HALF_DEGREES },
                shown: "39.5".to_owned(),
            },
            cleaning: CleaningRulesConfig::default(),
            optimization: OptimizationConfig::default(),
            safety: SafetyConfig::default(),
        }
    }
}

/// The default configuration passes its own validation.
pub proof fn law_default_config_is_valid(config: DaemonConfig)
    requires
        config.is_default(),
    ensures
        config.complaint() is None,
{
    assert(text::texts(config.safety.protected_directory_names@).len() == 7);
}

/// The files that may hold the configuration, in the order in which they are tried:
/// the one named by the user, the usual one, and one in the current directory.
pub fn config_candidates(named: Option<&str>) -> (r: Vec<String>)
    ensures
        text::texts(r@) == match named {
            Some(path) => seq![path@, CONFIG_PATH@, "config.toml"@],
            None => seq![CONFIG_PATH@, "config.toml"@],
        },
{
    let mut r: Vec<String> = Vec::new();
    match named {
        Some(path) => {
            r.push(path.to_owned());
        },
        None => {},
    }
    r.push(CONFIG_PATH.to_owned());
    r.push("config.toml".to_owned());
    proof {
        match named {
            Some(path) => {
                assert(text::texts(r@) =~= seq![path@, CONFIG_PATH@, "config.toml"@]);
            },
            None => {
                assert(text::texts(r@) =~= seq![CONFIG_PATH@, "config.toml"@]);
            },
        }
    }
    r
}

/// The temperature lies below a limit above zero: it is smaller, or negative.
pub open spec fn is_colder(t: Celsius, limit: u32) -> bool {
    t.bits < limit || 0x8000_0000 <= t.bits <= 0xff80_0000
}

/// The temperature lies above a limit above zero, and is a number.
pub open spec fn is_warmer(t: Celsius, limit: u32) -> bool {
    limit < t.bits <= 0x7f80_0000
}

proof fn lemma_limits(t: Celsius, limit: u32)
    requires
        0 < limit <= 0x7f80_0000,
    ensures
        t.is_below(Celsius { bits: limit }) <==> is_colder(t, limit),
        (Celsius { bits: limit }).is_below(t) <==> is_warmer(t, limit),
{
}

/// Temperatures are ordered as numbers are: those without a sign by their bit pattern,
/// those with one the other way round, and these below those; both zeros are one number,
/// and what is no number stands in no order.
pub proof fn law_temperatures_are_ordered(a: Celsius, b: Celsius, r: bool)
    requires
        call_ensures(Celsius::below, (a, b), r),
    ensures
        a.bits <= 0x7f80_0000 && b.bits <= 0x7f80_0000 ==> (r <==> a.bits < b.bits),
        0x8000_0000 <= a.bits <= 0xff80_0000 && 0x8000_0000 <= b.bits <= 0xff80_0000 ==> (r
            <==> a.bits > b.bits),
        0x8000_0000 <= a.bits <= 0xff80_0000 && b.bits <= 0x7f80_0000 ==> (r <==> a.bits
            > 0x8000_0000 || b.bits > 0),
        a.bits <= 0x7f80_0000 && 0x8000_0000 <= b.bits ==> !r,
        0x7f80_0000 < a.bits < 0x8000_0000 || a.bits > 0xff80_0000 ==> !r,
        0x7f80_0000 < b.bits < 0x8000_0000 || b.bits > 0xff80_0000 ==> !r,
{
}

/// Of two numbers one is lower unless they are the same, and lower than lower is lower.
pub proof fn law_order_of_temperatures_is_strict(
    a: Celsius,
    b: Celsius,
    c: Celsius,
    ab: bool,
    ba: bool,
    bc: bool,
    ac: bool,
)
    requires
        call_ensures(Celsius::below, (a, b), ab),
        call_ensures(Celsius::below, (b, a), ba),
        call_ensures(Celsius::below, (b, c), bc),
        call_ensures(Celsius::below, (a, c), ac),
    ensures
        !(ab && ba),
        ab && bc ==> ac,
        0 < a.bits <= 0x7f80_0000 && 0 < b.bits <= 0x7f80_0000 && a != b ==> ab || ba,
{
}

/// A temperature is within two limits above zero where its bit pattern is.
pub proof fn law_temperatures_lie_within(t: Celsius, low: u32, high: u32, r: bool)
    requires
        call_ensures(Celsius::within, (t, low, high), r),
        0 < low <= high <= 0x7f80_0000,
    ensures
        r <==> low <= t.bits <= high,
{
    lemma_limits(t, low);
    lemma_limits(t, high);
}

/// A configuration is accepted exactly where it is maintained every thirty seconds or
/// less often, the limits lie from twenty degrees to ninety-five and to sixty-five, and
/// some directory is protected. Otherwise the first of these that fails is named.
pub proof fn law_valid_configs_are_accepted(config: &DaemonConfig, r: Result<(), CleanerError>)
    requires
        call_ensures(DaemonConfig::validate, (config,), r),
    ensures
        ({
            let soc = config.max_soc_temp_c.degrees;
            let battery = config.max_battery_temp_c.degrees;
            let rushed = config.maintenance_interval_secs < 30;
            let soc_off = is_colder(soc, 0x41a0_0000) || is_warmer(soc, 0x42be_0000);
            let battery_off = is_colder(battery, 0x41a0_0000) || is_warmer(battery, 0x4282_0000);
            let bare = config.safety.protected_directory_names@.len() == 0;
            let told = |m: Seq<char>|
                r matches Err(e) && (e matches CleanerError::Config(s) && s@ == m);
            &&& r is Ok <==> !rushed && !soc_off && !battery_off && !bare
            &&& rushed ==> told("maintenance_interval_secs must be at least 30 seconds"@)
            &&& !rushed && soc_off ==> told(
                "max_soc_temp_c must be between 20.0\u{b0}C and 95.0\u{b0}C"@,
            )
            &&& !rushed && !soc_off && battery_off ==> told(
                "max_battery_temp_c must be between 20.0\u{b0}C and 65.0\u{b0}C"@,
            )
            &&& !rushed && !soc_off && !battery_off && bare ==> told(
                "safety.protected_directory_names cannot be empty"@,
            )
        }),
{
    lemma_limits(config.max_soc_temp_c.degrees, 0x41a0_0000);
    lemma_limits(config.max_soc_temp_c.degrees, 0x42be_0000);
    lemma_limits(config.max_battery_temp_c.degrees, 0x41a0_0000);
    lemma_limits(config.max_battery_temp_c.degrees, 0x4282_0000);
}

/// What is configured where nothing is configured: every six hours, only with the screen
/// off for three minutes and on the charger, below 44 and 39.5 degrees, with caches older
/// than a day alone, and with the usual packages and directories left in peace.
pub proof fn law_defaults_are_careful(
    r: DaemonConfig,
    cleaning: CleaningRulesConfig,
    optimization: OptimizationConfig,
    safety: SafetyConfig,
)
    requires
        call_ensures(DaemonConfig::default, (), r),
        call_ensures(CleaningRulesConfig::default, (), cleaning),
        call_ensures(OptimizationConfig::default, (), optimization),
        call_ensures(SafetyConfig::default, (), safety),
    ensures
        r.maintenance_interval_secs == 6 * 60 * 60,
        r.min_screen_off_secs == 3 * 60,
        r.require_screen_off && r.require_charging_for_deep_clean,
        r.max_soc_temp_c.degrees.bits == 0x4230_0000,
        r.max_battery_temp_c.degrees.bits == 0x421e_0000,
        r.socket_path@ == "/data/adb/cleaner/run/daemon"@,
        r.cleaning == cleaning,
        cleaning.clean_app_cache && cleaning.clean_webview_cache && cleaning.clean_image_caches,
        !cleaning.clean_thumbnails && !cleaning.clean_code_cache && !cleaning.clean_oem_logs
            && !cleaning.clean_crash_dumps && !cleaning.clean_temp_apks,
        cleaning.keep_recent_crash_files == 3 && cleaning.min_file_age_hours == 24,
        !optimization.zram_compaction && !optimization.compact_memory
            && !optimization.cgroup_memory_reclaim && !optimization.fstrim_partitions,
        optimization.freezer_aware_cleaning && optimization.psi_adaptive_monitoring
            && optimization.f2fs_gc_urgent,
        optimization.cgroup_reclaim_amount_mb == 128 && optimization.psi_moderate_stall_ms == 150
            && optimization.psi_critical_stall_ms == 250 && optimization.psi_cooldown_secs == 45,
        optimization.trim_mount_points@.len() == 3,
        optimization.trim_mount_points@[0]@ == "/data"@,
        safety.mode == SafetyMode::Safe && r.safety.mode == SafetyMode::Safe,
        safety.whitelist_packages@.len() == 6,
        safety.whitelist_packages@[0]@ == "com.android.systemui"@,
        safety.protected_directory_names@.len() == 7,
        safety.protected_directory_names@[2]@ == "databases"@,
{
    assert(text::texts(optimization.trim_mount_points@).len() == 3);
    assert(text::texts(optimization.trim_mount_points@)[0] == "/data"@);
    assert(text::texts(safety.whitelist_packages@).len() == 6);
    assert(text::texts(safety.whitelist_packages@)[0] == "com.android.systemui"@);
    assert(text::texts(safety.protected_directory_names@).len() == 7);
    assert(text::texts(safety.protected_directory_names@)[2] == "databases"@);
}

/// The file that the user names is tried first, and the usual ones after it, in the same
/// order as without it.
pub proof fn law_named_file_comes_first(path: &str, with: Vec<String>, without: Vec<String>)
    requires
        call_ensures(config_candidates, (Some(path),), with),
        call_ensures(config_candidates, (None,), without),
    ensures
        with@.len() == 3,
        with@[0]@ == path@,
        without@.len() == 2,
        with@[1]@ == without@[0]@,
        with@[2]@ == without@[1]@,
        without@[0]@ == "/data/adb/cleaner/config.toml"@,
        without@[1]@ == "config.toml"@,
{
    assert(text::texts(with@).len() == 3);
    assert(text::texts(without@).len() == 2);
    assert(text::texts(with@)[0] == path@);
    assert(text::texts(with@)[1] == text::texts(without@)[0]);
    assert(text::texts(with@)[2] == text::texts(without@)[1]);
    assert(text::texts(without@)[0] == CONFIG_PATH@);
    assert(text::texts(without@)[1] == "config.toml"@);
}

/// Copying a limit keeps its number and its text.
pub proof fn law_copied_limit_is_the_same(limit: &TempLimit, r: TempLimit)
    requires
        call_ensures(TempLimit::copy, (limit,), r),
    ensures
        r.degrees.bits == limit.degrees.bits && r.shown@ == limit.shown@,
{
}

/// What is left in peace and what is trimmed where nothing is configured, one by one.
pub proof fn law_default_lists_name_what_is_spared(
    r: DaemonConfig,
    optimization: OptimizationConfig,
    safety: SafetyConfig,
)
    requires
        call_ensures(DaemonConfig::default, (), r),
        call_ensures(OptimizationConfig::default, (), optimization),
        call_ensures(SafetyConfig::default, (), safety),
    ensures
        ({
            let packages = safety.whitelist_packages@;
            let names = safety.protected_directory_names@;
            let mounts = optimization.trim_mount_points@;
            &&& packages.len() == 6 && names.len() == 7 && mounts.len() == 3
            &&& packages[0]@ == "com.android.systemui"@
            &&& packages[1]@ == "com.android.settings"@
            &&& packages[2]@ == "com.android.providers.settings"@
            &&& packages[3]@ == "com.android.providers.media"@
            &&& packages[4]@ == "com.google.android.gms"@
            &&& packages[5]@ == "com.google.android.googlequicksearchbox"@
            &&& names[0]@ == ".nomedia"@ && names[1]@ == "shared_prefs"@ && names[2]@
                == "databases"@ && names[3]@ == "lib"@ && names[4]@ == "files"@ && names[5]@
                == "keystore"@ && names[6]@ == "fpdata"@
            &&& mounts[0]@ == "/data"@ && mounts[1]@ == "/cache"@ && mounts[2]@ == "/metadata"@
            &&& text::texts(r.safety.whitelist_packages@) == text::texts(packages)
            &&& text::texts(r.safety.protected_directory_names@) == text::texts(names)
            &&& text::texts(r.optimization.trim_mount_points@) == text::texts(mounts)
        }),
        r.abstract_socket_name@ == "cleaner_daemon"@,
        r.max_soc_temp_c.shown@ == "44"@,
        r.max_battery_temp_c.shown@ == "39.5"@,
{
    let packages = safety.whitelist_packages@;
    let names = safety.protected_directory_names@;
    let mounts = optimization.trim_mount_points@;
    assert(text::texts(packages).len() == packages.len());
    assert(text::texts(names).len() == names.len());
    assert(text::texts(mounts).len() == mounts.len());
    assert forall|i: int| 0 <= i < packages.len() implies (#[trigger] packages[i])@
        == default_whitelist()[i] by {
        assert(text::texts(packages)[i] == packages[i]@);
    }
    assert forall|i: int| 0 <= i < names.len() implies (#[trigger] names[i])@
        == default_protected_names()[i] by {
        assert(text::texts(names)[i] == names[i]@);
    }
    assert forall|i: int| 0 <= i < mounts.len() implies (#[trigger] mounts[i])@
        == default_trim_mounts()[i] by {
        assert(text::texts(mounts)[i] == mounts[i]@);
    }
}

} // verus!
