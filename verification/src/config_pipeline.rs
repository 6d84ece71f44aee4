//! The way of a configuration from untrusted input to the values in force.
use vstd::prelude::*;

use crate::config::{
    Celsius, TempLimit, FORTY_FIVE_DEGREES, FORTY_TWO_DEGREES, NINETY_DEGREES, SIXTY_FIVE_DEGREES,
    TWENTY_DEGREES,
};
use crate::domain::types::{ByteCount, ConfigGeneration};
use crate::error::CleanerError;
use crate::paths;
use crate::sorting;
use crate::text;

verus! {

/// The paths that are protected whatever is configured.
pub open spec fn platform_paths() -> Seq<Seq<char>> {
    seq![
        "/system"@,
        "/vendor"@,
        "/product"@,
        "/system_ext"@,
        "/apex"@,
        "/data/system"@,
        "/data/misc"@,
        "/data/bootchart"@,
        "/metadata"@,
        "/boot"@,
        "/etc"@,
    ]
}

/// The paths that are protected whatever is configured.
pub fn platform_protected_paths() -> (r: [&'static str; 11])
    ensures
        text::literals(r@) == platform_paths(),
{
    let r = [
        "/system",
        "/vendor",
        "/product",
        "/system_ext",
        "/apex",
        "/data/system",
        "/data/misc",
        "/data/bootchart",
        "/metadata",
        "/boot",
        "/etc",
    ];
    assert(text::literals(r@) =~= platform_paths());
    r
}

/// A configuration as it was read: anything may be missing.
#[derive(Debug, Clone)]
pub struct RawConfig {
    pub maintenance_interval_secs: Option<u64>,
    pub min_screen_off_secs: Option<u64>,
    pub max_soc_temp_c: Option<TempLimit>,
    pub max_battery_temp_c: Option<TempLimit>,
    pub min_app_cache_age_days: Option<u64>,
    pub min_file_age_hours: Option<u64>,
    pub app_cache_threshold_mb: Option<u64>,
    pub dry_run: Option<bool>,
    pub clean_app_cache: Option<bool>,
    pub clean_code_cache: Option<bool>,
    pub clean_tombstones: Option<bool>,
    pub clean_oem_logs: Option<bool>,
    pub clean_temp_apks: Option<bool>,
    pub whitelist_packages: Option<Vec<String>>,
    pub protected_paths: Option<Vec<String>>,
    pub fstrim_interval_hours: Option<u64>,
    pub vacuum_db_interval_hours: Option<u64>,
}

impl RawConfig {
    /// The raw configuration used where there is none.
    pub open spec fn is_default(self) -> bool {
        &&& self.maintenance_interval_secs == Some(3600u64)
        &&& self.min_screen_off_secs == Some(180u64)
        &&& self.max_soc_temp_c is Some
        &&& self.max_soc_temp_c->0.degrees.bits == FORTY_FIVE_DEGREES
        &&& self.max_soc_temp_c->0.shown@ == "45"@
        &&& self.max_battery_temp_c is Some
        &&& self.max_battery_temp_c->0.degrees.bits == FORTY_TWO_DEGREES
        &&& self.max_battery_temp_c->0.shown@ == "42"@
        &&& self.min_app_cache_age_days == Some(3u64)
        &&& self.min_file_age_hours is None
        &&& self.app_cache_threshold_mb == Some(50u64)
        &&& self.dry_run == Some(false)
        &&& self.clean_app_cache == Some(true)
        &&& self.clean_code_cache == Some(false)
        &&& self.clean_tombstones == Some(false)
        &&& self.clean_oem_logs == Some(false)
        &&& self.clean_temp_apks == Some(false)
        &&& self.whitelist_packages is Some
        &&& text::texts(self.whitelist_packages->0@) == seq![
            "com.android.vending"@,
            "com.google.android.gms"@,
        ]
        &&& self.protected_paths is Some
        &&& text::texts(self.protected_paths->0@) == seq![
            "/system"@,
            "/vendor"@,
            "/apex"@,
            "/data/data/com.android.providers.telephony"@,
        ]
        &&& self.fstrim_interval_hours == Some(24u64)
        &&& self.vacuum_db_interval_hours == Some(72u64)
    }
}

impl Default for RawConfig {
    fn default() -> (r: Self)
        ensures
            r.is_default(),
    {
        let packages = text::strings(&["com.android.vending", "com.google.android.gms"]);
        let protected = text::strings(
            &["/system", "/vendor", "/apex", "/data/data/com.android.providers.telephony"],
        );
        proof {
            assert(text::texts(packages@) =~= seq![
                "com.android.vending"@,
                "com.google.android.gms"@,
            ]);
            assert(text::texts(protected@) =~= seq![
                "/system"@,
                "/vendor"@,
                "/apex"@,
                "/data/data/com.android.providers.telephony"@,
            ]);
        }
        RawConfig {
            maintenance_interval_secs: Some(3600),
            min_screen_off_secs: Some(180),
            max_soc_temp_c: Some(
                TempLimit {
                    degrees: Celsius { bits: FORTY_FIVE_DEGREES },
                    shown: "45".to_owned(),
                },
            ),
            max_battery_temp_c: Some(
                TempLimit {
                    degrees: Celsius { bits: FORTY_TWO_DEGREES },
                    shown: "42".to_owned(),
                },
            ),
            min_app_cache_age_days: Some(3),
            min_file_age_hours: None,
            app_cache_threshold_mb: Some(50),
            dry_run: Some(false),
            clean_app_cache: Some(true),
            clean_code_cache: Some(false),
            clean_tombstones: Some(false),
            clean_oem_logs: Some(false),
            clean_temp_apks: Some(false),
            whitelist_packages: Some(packages),
            protected_paths: Some(protected),
            fstrim_interval_hours: Some(24),
            vacuum_db_interval_hours: Some(72),
        }
    }
}

/// A configuration whose values are all within bounds.
#[derive(Debug, Clone)]
pub struct ValidatedConfig {
    pub maintenance_interval_secs: u64,
    pub min_screen_off_secs: u64,
    pub max_soc_temp_c: Celsius,
    pub max_battery_temp_c: Celsius,
    pub min_app_cache_age_secs: u64,
    pub app_cache_threshold_bytes: ByteCount,
    pub dry_run: bool,
    pub clean_app_cache: bool,
    pub clean_code_cache: bool,
    pub clean_tombstones: bool,
    pub clean_oem_logs: bool,
    pub clean_temp_apks: bool,
    pub whitelist_packages: Vec<String>,
    pub protected_paths: Vec<String>,
    pub fstrim_interval_secs: u64,
    pub vacuum_db_interval_secs: u64,
}

/// The value, or `other` where there is none.
pub open spec fn or_else<T>(value: Option<T>, other: T) -> T {
    match value {
        Some(v) => v,
        None => other,
    }
}

/// The texts, or none where there is no list.
pub open spec fn listed_texts(value: Option<Vec<String>>) -> Seq<Seq<char>> {
    match value {
        Some(v) => text::texts(v@),
        None => Seq::empty(),
    }
}

/// The product, or the largest number of 64 bits where it is larger.
pub open spec fn capped_product(a: u64, b: u64) -> u64 {
    if a * b <= u64::MAX {
        (a * b) as u64
    } else {
        u64::MAX
    }
}

/// The entry is refused as a whitelisted package: too long, blank, or with a zero
/// character, a newline or a slash.
pub open spec fn is_bad_package(t: Seq<char>) -> bool {
    text::byte_len(t) > 255 || t.contains('\0') || t.contains('\n') || t.contains('/')
        || text::trimmed(t).len() == 0
}

/// The entry is refused as a protected path: empty, too long, or with a zero
/// character.
pub open spec fn is_bad_path(t: Seq<char>) -> bool {
    t.len() == 0 || text::byte_len(t) > 4096 || t.contains('\0')
}

/// The first refused package.
pub open spec fn first_bad_package(list: Seq<Seq<char>>) -> Option<Seq<char>>
    decreases list.len(),
{
    if list.len() == 0 {
        None
    } else if is_bad_package(list[0]) {
        Some(list[0])
    } else {
        first_bad_package(list.drop_first())
    }
}

/// The first refused path.
pub open spec fn first_bad_path(list: Seq<Seq<char>>) -> Option<Seq<char>>
    decreases list.len(),
{
    if list.len() == 0 {
        None
    } else if is_bad_path(list[0]) {
        Some(list[0])
    } else {
        first_bad_path(list.drop_first())
    }
}

/// Some path of the list has the components of `p`.
pub open spec fn lists_path(list: Seq<Seq<char>>, p: Seq<char>) -> bool {
    exists|i: int|
        0 <= i < list.len() && paths::components(#[trigger] list[i]) == paths::components(p)
}

/// `list` with every path of `more` that it does not list yet.
pub open spec fn with_paths(list: Seq<Seq<char>>, more: Seq<Seq<char>>) -> Seq<Seq<char>>
    decreases more.len(),
{
    if more.len() == 0 {
        list
    } else {
        let done = with_paths(list, more.drop_last());
        if lists_path(done, more.last()) {
            done
        } else {
            done.push(more.last())
        }
    }
}

/// The limit on a temperature, 45 degrees where there is none.
pub open spec fn limit_or_usual(limit: Option<TempLimit>) -> Celsius {
    match limit {
        Some(t) => t.degrees,
        None => Celsius { bits: FORTY_FIVE_DEGREES },
    }
}

/// The message where the limit `name` is not within `range`.
pub open spec fn out_of_range(name: Seq<char>, limit: TempLimit, range: Seq<char>) -> Seq<char> {
    name + " "@ + limit.shown@ + " out of safe range "@ + range
}

impl RawConfig {
    /// What is wrong with the configuration, the first thing found; nothing where
    /// it is accepted.
    pub open spec fn complaint(self) -> Option<Seq<char>> {
        let soc = limit_or_usual(self.max_soc_temp_c);
        let battery = limit_or_usual(self.max_battery_temp_c);
        let packages = listed_texts(self.whitelist_packages);
        let protected = listed_texts(self.protected_paths);
        if !(60 <= or_else(self.maintenance_interval_secs, 3600) <= 604800) {
            Some("maintenance_interval_secs must be 60..604800"@)
        } else if or_else(self.min_screen_off_secs, 180) > 3600 {
            Some("min_screen_off_secs must be 0..3600"@)
        } else if !soc.is_within(TWENTY_DEGREES, NINETY_DEGREES) {
            Some(out_of_range("max_soc_temp_c"@, self.max_soc_temp_c->0, "[20.0, 90.0]"@))
        } else if !battery.is_within(TWENTY_DEGREES, SIXTY_FIVE_DEGREES) {
            Some(
                out_of_range("max_battery_temp_c"@, self.max_battery_temp_c->0, "[20.0, 65.0]"@),
            )
        } else if packages.len() > 512 {
            Some("whitelist_packages exceeds 512 entries"@)
        } else if first_bad_package(packages) is Some {
            Some("invalid whitelist package '"@ + first_bad_package(packages)->0 + "'"@)
        } else if first_bad_path(protected) is Some {
            Some("invalid protected path '"@ + first_bad_path(protected)->0 + "'"@)
        } else if !(1 <= or_else(self.fstrim_interval_hours, 24) <= 720) {
            Some("fstrim_interval_hours must be 1..720"@)
        } else if !(1 <= or_else(self.vacuum_db_interval_hours, 72) <= 720) {
            Some("vacuum_db_interval_hours must be 1..720"@)
        } else {
            None
        }
    }
}

/// `error` tells of the complaint.
pub open spec fn reports(error: CleanerError, complaint: Seq<char>) -> bool {
    error matches CleanerError::ConfigError(m) && m@ == complaint
}

/// `valid` is what the raw configuration says, with defaults for what is missing:
/// times in seconds, sizes in bytes, the whitelist sorted and without repetition,
/// and the platform's own paths in front of the protected ones.
pub open spec fn is_validated(raw: RawConfig, valid: ValidatedConfig) -> bool {
    &&& valid.maintenance_interval_secs == or_else(raw.maintenance_interval_secs, 3600)
    &&& valid.min_screen_off_secs == or_else(raw.min_screen_off_secs, 180)
    &&& valid.max_soc_temp_c == limit_or_usual(raw.max_soc_temp_c)
    &&& valid.max_battery_temp_c == limit_or_usual(raw.max_battery_temp_c)
    &&& valid.min_app_cache_age_secs == match raw.min_file_age_hours {
        Some(hours) => capped_product(hours, 3600),
        None => capped_product(or_else(raw.min_app_cache_age_days, 3), 86400),
    }
    &&& valid.app_cache_threshold_bytes.0 == capped_product(
        or_else(raw.app_cache_threshold_mb, 50),
        1_048_576,
    )
    &&& valid.dry_run == or_else(raw.dry_run, false)
    &&& valid.clean_app_cache == or_else(raw.clean_app_cache, true)
    &&& valid.clean_code_cache == or_else(raw.clean_code_cache, false)
    &&& valid.clean_tombstones == or_else(raw.clean_tombstones, false)
    &&& valid.clean_oem_logs == or_else(raw.clean_oem_logs, false)
    &&& valid.clean_temp_apks == or_else(raw.clean_temp_apks, false)
    &&& sorting::is_sorted_set(
        listed_texts(raw.whitelist_packages),
        text::texts(valid.whitelist_packages@),
    )
    &&& text::texts(valid.protected_paths@) == with_paths(
        platform_paths(),
        listed_texts(raw.protected_paths),
    )
    &&& valid.fstrim_interval_secs == capped_product(or_else(raw.fstrim_interval_hours, 24), 3600)
    &&& valid.vacuum_db_interval_secs == capped_product(
        or_else(raw.vacuum_db_interval_hours, 72),
        3600,
    )
}

fn multiply_capped(a: u64, b: u64) -> (r: u64)
    ensures
        r == capped_product(a, b),
{
    match a.checked_mul(b) {
        Some(p) => p,
        None => u64::MAX,
    }
}

fn package_is_bad(t: &str) -> (r: bool)
    ensures
        r == is_bad_package(t@),
{
    t.as_bytes().len() > 255 || text::contains_char(t, '\0') || text::contains_char(t, '\n')
        || text::contains_char(t, '/') || text::trim_text(t).is_empty()
}

fn path_is_bad(t: &str) -> (r: bool)
    ensures
        r == is_bad_path(t@),
{
    t.is_empty() || t.as_bytes().len() > 4096 || text::contains_char(t, '\0')
}

fn find_bad_package(list: &Vec<String>) -> (r: Option<usize>)
    ensures
        r is Some <==> first_bad_package(text::texts(list@)) is Some,
        r is Some ==> r->0 < list@.len() && Some(list@[r->0 as int]@) == first_bad_package(
            text::texts(list@),
        ),
{
    let ghost all = text::texts(list@);
    let mut i: usize = 0;
    assert(all.subrange(0, all.len() as int) =~= all);
    while i < list.len()
        invariant
            i <= list.len(),
            all == text::texts(list@),
            first_bad_package(all) == first_bad_package(all.subrange(i as int, all.len() as int)),
        decreases list.len() - i,
    {
        let ghost rest = all.subrange(i as int, all.len() as int);
        assert(rest[0] == list@[i as int]@);
        if package_is_bad(list[i].as_str()) {
            return Some(i);
        }
        assert(rest.drop_first() =~= all.subrange(i + 1, all.len() as int));
        i = i + 1;
    }
    None
}

fn find_bad_path(list: &Vec<String>) -> (r: Option<usize>)
    ensures
        r is Some <==> first_bad_path(text::texts(list@)) is Some,
        r is Some ==> r->0 < list@.len() && Some(list@[r->0 as int]@) == first_bad_path(
            text::texts(list@),
        ),
{
    let ghost all = text::texts(list@);
    let mut i: usize = 0;
    assert(all.subrange(0, all.len() as int) =~= all);
    while i < list.len()
        invariant
            i <= list.len(),
            all == text::texts(list@),
            first_bad_path(all) == first_bad_path(all.subrange(i as int, all.len() as int)),
        decreases list.len() - i,
    {
        let ghost rest = all.subrange(i as int, all.len() as int);
        assert(rest[0] == list@[i as int]@);
        if path_is_bad(list[i].as_str()) {
            return Some(i);
        }
        assert(rest.drop_first() =~= all.subrange(i + 1, all.len() as int));
        i = i + 1;
    }
    None
}

fn path_is_listed(list: &Vec<String>, p: &str) -> (r: bool)
    ensures
        r == lists_path(text::texts(list@), p@),
{
    let mut i: usize = 0;
    while i < list.len()
        invariant
            i <= list.len(),
            forall|j: int|
                0 <= j < i ==> paths::components(#[trigger] text::texts(list@)[j])
                    != paths::components(p@),
        decreases list.len() - i,
    {
        if paths::same_path(list[i].as_str(), p) {
            assert(paths::components(text::texts(list@)[i as int]) == paths::components(p@));
            return true;
        }
        i = i + 1;
    }
    false
}

fn protect_paths(more: &Vec<String>) -> (r: Vec<String>)
    ensures
        text::texts(r@) == with_paths(platform_paths(), text::texts(more@)),
{
    let mut r = text::strings(&platform_protected_paths());
    let ghost all = text::texts(more@);
    let mut i: usize = 0;
    assert(all.subrange(0, 0) =~= Seq::<Seq<char>>::empty());
    while i < more.len()
        invariant
            i <= more.len(),
            all == text::texts(more@),
            text::texts(r@) == with_paths(platform_paths(), all.subrange(0, i as int)),
        decreases more.len() - i,
    {
        proof {
            assert(all.subrange(0, i + 1).drop_last() =~= all.subrange(0, i as int));
            assert(all[i as int] == more@[i as int]@);
        }
        if !path_is_listed(&r, more[i].as_str()) {
            let ghost before = r@;
            r.push(more[i].clone());
            assert(text::texts(r@) =~= text::texts(before).push(more@[i as int]@));
        }
        i = i + 1;
    }
    assert(all.subrange(0, more.len() as int) =~= all);
    r
}

fn quoted(lead: &str, t: &str) -> (r: String)
    ensures
        r@ == lead@ + t@ + "'"@,
{
    let mut r = lead.to_owned();
    r.append(t);
    r.append("'");
    r
}

/// Checks a limit against 20 degrees and the bit pattern `high`.
fn check_limit(limit: &Option<TempLimit>, high: u32, name: &str, range: &str) -> (r: Result<
    Celsius,
    String,
>)
    requires
        (Celsius { bits: FORTY_FIVE_DEGREES }).is_within(TWENTY_DEGREES, high),
    ensures
        r is Ok <==> limit_or_usual(*limit).is_within(TWENTY_DEGREES, high),
        r matches Ok(degrees) ==> degrees == limit_or_usual(*limit),
        r matches Err(m) ==> *limit is Some && m@ == out_of_range(name@, (*limit)->0, range@),
{
    match limit {
        Some(t) => {
            if t.degrees.within(TWENTY_DEGREES, high) {
                return Ok(t.degrees);
            }
            let mut m = name.to_owned();
            m.append(" ");
            m.append(t.shown.as_str());
            m.append(" out of safe range ");
            m.append(range);
            Err(m)
        },
        None => Ok(Celsius { bits: FORTY_FIVE_DEGREES }),
    }
}

impl ValidatedConfig {
    /// Accepts a raw configuration whose values are all within bounds.
    pub fn from_raw(raw: RawConfig) -> (r: Result<Self, CleanerError>)
        ensures
            r is Ok <==> raw.complaint() is None,
            r matches Ok(valid) ==> is_validated(raw, valid),
            r matches Err(e) ==> reports(e, raw.complaint()->0),
    {
        let interval: u64 = raw.maintenance_interval_secs.unwrap_or(3600);
        if interval < 60 || interval > 604800 {
            return Err(
                CleanerError::ConfigError(
                    "maintenance_interval_secs must be 60..604800".to_owned(),
                ),
            );
        }
        let min_screen_off: u64 = raw.min_screen_off_secs.unwrap_or(180);
        if min_screen_off > 3600 {
            return Err(
                CleanerError::ConfigError("min_screen_off_secs must be 0..3600".to_owned()),
            );
        }
        let max_soc = match check_limit(
            &raw.max_soc_temp_c,
            NINETY_DEGREES,
            "max_soc_temp_c",
            "[20.0, 90.0]",
        ) {
            Ok(degrees) => degrees,
            Err(m) => {
                return Err(CleanerError::ConfigError(m));
            },
        };
        let max_battery = match check_limit(
            &raw.max_battery_temp_c,
            SIXTY_FIVE_DEGREES,
            "max_battery_temp_c",
            "[20.0, 65.0]",
        ) {
            Ok(degrees) => degrees,
            Err(m) => {
                return Err(CleanerError::ConfigError(m));
            },
        };
        let min_app_cache_age_secs: u64 = match raw.min_file_age_hours {
            Some(hours) => multiply_capped(hours, 3600),
            None => multiply_capped(raw.min_app_cache_age_days.unwrap_or(3), 86400),
        };
        let threshold: u64 = multiply_capped(raw.app_cache_threshold_mb.unwrap_or(50), 1_048_576);
        let ghost before = raw;
        let packages: Vec<String> = match raw.whitelist_packages {
            Some(v) => v,
            None => Vec::new(),
        };
        assert(text::texts(packages@) =~= listed_texts(before.whitelist_packages));
        if packages.len() > 512 {
            return Err(
                CleanerError::ConfigError("whitelist_packages exceeds 512 entries".to_owned()),
            );
        }
        match find_bad_package(&packages) {
            Some(i) => {
                return Err(
                    CleanerError::ConfigError(
                        quoted("invalid whitelist package '", packages[i].as_str()),
                    ),
                );
            },
            None => {},
        }
        let whitelist = sorting::sort_and_dedup(&packages);
        let user_paths: Vec<String> = match raw.protected_paths {
            Some(v) => v,
            None => Vec::new(),
        };
        assert(text::texts(user_paths@) =~= listed_texts(before.protected_paths));
        match find_bad_path(&user_paths) {
            Some(i) => {
                return Err(
                    CleanerError::ConfigError(
                        quoted("invalid protected path '", user_paths[i].as_str()),
                    ),
                );
            },
            None => {},
        }
        let protected_paths = protect_paths(&user_paths);
        let fstrim_hours: u64 = raw.fstrim_interval_hours.unwrap_or(24);
        if fstrim_hours < 1 || fstrim_hours > 720 {
            return Err(
                CleanerError::ConfigError("fstrim_interval_hours must be 1..720".to_owned()),
            );
        }
        let vacuum_hours: u64 = raw.vacuum_db_interval_hours.unwrap_or(72);
        if vacuum_hours < 1 || vacuum_hours > 720 {
            return Err(
                CleanerError::ConfigError("vacuum_db_interval_hours must be 1..720".to_owned()),
            );
        }
        Ok(
            ValidatedConfig {
                maintenance_interval_secs: interval,
                min_screen_off_secs: min_screen_off,
                max_soc_temp_c: max_soc,
                max_battery_temp_c: max_battery,
                min_app_cache_age_secs,
                app_cache_threshold_bytes: ByteCount(threshold),
                dry_run: raw.dry_run.unwrap_or(false),
                clean_app_cache: raw.clean_app_cache.unwrap_or(true),
                clean_code_cache: raw.clean_code_cache.unwrap_or(false),
                clean_tombstones: raw.clean_tombstones.unwrap_or(false),
                clean_oem_logs: raw.clean_oem_logs.unwrap_or(false),
                clean_temp_apks: raw.clean_temp_apks.unwrap_or(false),
                whitelist_packages: whitelist,
                protected_paths,
                fstrim_interval_secs: multiply_capped(fstrim_hours, 3600),
                vacuum_db_interval_secs: multiply_capped(vacuum_hours, 3600),
            },
        )
    }
}

/// The configuration in force, with its generation.
#[derive(Debug, Clone)]
pub struct EffectiveConfig {
    pub generation: ConfigGeneration,
    pub validated: ValidatedConfig,
}

impl EffectiveConfig {
    pub fn new(generation: ConfigGeneration, validated: ValidatedConfig) -> (r: Self)
        ensures
            r.generation == generation,
            r.validated == validated,
    {
        EffectiveConfig { generation, validated }
    }

    /// The package is on the whitelist, upper and lower case aside.
    pub open spec fn whitelists(self, package: Seq<char>) -> bool {
        exists|i: int|
            0 <= i < self.validated.whitelist_packages@.len() && text::same_but_case(
                (#[trigger] self.validated.whitelist_packages@[i])@,
                package,
            )
    }

    /// The path is a protected one or stands below one.
    pub open spec fn protects(self, path: Seq<char>) -> bool {
        exists|i: int|
            0 <= i < self.validated.protected_paths@.len() && paths::is_under(
                path,
                (#[trigger] self.validated.protected_paths@[i])@,
            )
    }

    pub fn is_package_whitelisted(&self, pkg: &str) -> (r: bool)
        ensures
            r == self.whitelists(pkg@),
    {
        let list = &self.validated.whitelist_packages;
        let mut i: usize = 0;
        while i < list.len()
            invariant
                i <= list.len(),
                *list == self.validated.whitelist_packages,
                forall|j: int|
                    0 <= j < i ==> !text::same_but_case(
                        (#[trigger] self.validated.whitelist_packages@[j])@,
                        pkg@,
                    ),
            decreases list.len() - i,
        {
            if text::same_text_but_case(list[i].as_str(), pkg) {
                assert(text::same_but_case(
                    self.validated.whitelist_packages@[i as int]@,
                    pkg@,
                ));
                return true;
            }
            i = i + 1;
        }
        false
    }

    pub fn is_path_protected(&self, path: &str) -> (r: bool)
        ensures
            r == self.protects(path@),
    {
        let list = &self.validated.protected_paths;
        let mut i: usize = 0;
        while i < list.len()
            invariant
                i <= list.len(),
                *list == self.validated.protected_paths,
                forall|j: int|
                    0 <= j < i ==> !paths::is_under(
                        path@,
                        (#[trigger] self.validated.protected_paths@[j])@,
                    ),
            decreases list.len() - i,
        {
            if paths::path_is_under(path, list[i].as_str()) {
                assert(paths::is_under(path@, self.validated.protected_paths@[i as int]@));
                return true;
            }
            i = i + 1;
        }
        false
    }
}

proof fn lemma_with_paths_keeps(list: Seq<Seq<char>>, more: Seq<Seq<char>>)
    ensures
        list.is_prefix_of(with_paths(list, more)),
    decreases more.len(),
{
    if more.len() > 0 {
        lemma_with_paths_keeps(list, more.drop_last());
        let done = with_paths(list, more.drop_last());
        assert(list =~= done.subrange(0, list.len() as int));
        assert(list =~= with_paths(list, more).subrange(0, list.len() as int));
    } else {
        assert(list =~= list.subrange(0, list.len() as int));
    }
}

/// No configuration takes the platform's own protection away: what stands below
/// one of its paths is protected under every accepted configuration.
pub proof fn law_platform_stays_protected(
    raw: RawConfig,
    config: EffectiveConfig,
    root: Seq<char>,
    path: Seq<char>,
)
    requires
        is_validated(raw, config.validated),
        platform_paths().contains(root),
        paths::is_under(path, root),
    ensures
        config.protects(path),
{
    let more = listed_texts(raw.protected_paths);
    lemma_with_paths_keeps(platform_paths(), more);
    let all = text::texts(config.validated.protected_paths@);
    let i = choose|i: int| 0 <= i < platform_paths().len() && platform_paths()[i] == root;
    assert(platform_paths() =~= all.subrange(0, platform_paths().len() as int));
    assert(all[i] == root);
    assert(config.validated.protected_paths@[i]@ == root);
}

/// Every package that the raw configuration lists is on the whitelist in force.
pub proof fn law_listed_packages_are_whitelisted(
    raw: RawConfig,
    config: EffectiveConfig,
    package: Seq<char>,
)
    requires
        is_validated(raw, config.validated),
        listed_texts(raw.whitelist_packages).contains(package),
    ensures
        config.whitelists(package),
{
    let all = text::texts(config.validated.whitelist_packages@);
    assert(all.contains(package));
    let i = choose|i: int| 0 <= i < all.len() && all[i] == package;
    assert(config.validated.whitelist_packages@[i]@ == package);
}

proof fn lemma_plain_package(t: Seq<char>)
    requires
        0 < t.len() <= 255,
        forall|i: int| 0 <= i < t.len() ==> 'a' <= #[trigger] t[i] <= 'z' || t[i] == '.',
    ensures
        !is_bad_package(t),
{
    assert(vstd::utf8::is_ascii_chars(t));
    vstd::utf8::is_ascii_chars_encode_utf8(t);
    assert(text::trim_front(t) == t);
    assert(text::trim_back(t) == t);
}

proof fn lemma_plain_path(t: Seq<char>)
    requires
        0 < t.len() <= 4096,
        forall|i: int|
            0 <= i < t.len() ==> 'a' <= #[trigger] t[i] <= 'z' || t[i] == '.' || t[i] == '/',
    ensures
        !is_bad_path(t),
{
    assert(vstd::utf8::is_ascii_chars(t));
    vstd::utf8::is_ascii_chars_encode_utf8(t);
}

/// The lists of the default configuration hold nothing that is refused.
pub proof fn lemma_default_lists(packages: Seq<Seq<char>>, protected: Seq<Seq<char>>)
    requires
        packages == seq!["com.android.vending"@, "com.google.android.gms"@],
        protected == seq![
            "/system"@,
            "/vendor"@,
            "/apex"@,
            "/data/data/com.android.providers.telephony"@,
        ],
    ensures
        first_bad_package(packages) is None,
        first_bad_path(protected) is None,
{
    reveal_strlit("com.android.vending");
    reveal_strlit("com.google.android.gms");
    reveal_strlit("/system");
    reveal_strlit("/vendor");
    reveal_strlit("/apex");
    reveal_strlit("/data/data/com.android.providers.telephony");
    lemma_plain_package("com.android.vending"@);
    lemma_plain_package("com.google.android.gms"@);
    lemma_plain_path("/system"@);
    lemma_plain_path("/vendor"@);
    lemma_plain_path("/apex"@);
    lemma_plain_path("/data/data/com.android.providers.telephony"@);
    reveal_with_fuel(first_bad_package, 4);
    reveal_with_fuel(first_bad_path, 6);
    assert(packages.drop_first() =~= seq!["com.google.android.gms"@]);
    assert(packages.drop_first().drop_first() =~= Seq::empty());
    let p1 = protected.drop_first();
    let p2 = p1.drop_first();
    let p3 = p2.drop_first();
    assert(p1[0] == "/vendor"@ && p2[0] == "/apex"@ && p3[0]
        == "/data/data/com.android.providers.telephony"@);
    assert(p3.drop_first() =~= Seq::empty());
}

/// The raw configuration used where there is none is accepted.
pub proof fn law_default_raw_is_accepted(raw: RawConfig)
    requires
        raw.is_default(),
    ensures
        raw.complaint() is None,
{
    lemma_default_lists(
        listed_texts(raw.whitelist_packages),
        listed_texts(raw.protected_paths),
    );
}

/// The package may stand on the whitelist: it has at most 255 bytes, something but space,
/// and no slash, line end or zero character.
pub open spec fn may_be_whitelisted(t: Seq<char>) -> bool {
    &&& vstd::utf8::encode_utf8(t).len() <= 255
    &&& forall|i: int| 0 <= i < t.len() ==> #[trigger] t[i] != '/' && t[i] != '\n' && t[i] != '\0'
    &&& text::trimmed(t).len() > 0
}

/// The path may be protected: it has one byte to 4096, and no zero character.
pub open spec fn may_be_protected(t: Seq<char>) -> bool {
    &&& t.len() > 0
    &&& vstd::utf8::encode_utf8(t).len() <= 4096
    &&& forall|i: int| 0 <= i < t.len() ==> #[trigger] t[i] != '\0'
}

proof fn lemma_refused_package(list: Seq<Seq<char>>)
    ensures
        first_bad_package(list) is None <==> forall|i: int|
            0 <= i < list.len() ==> may_be_whitelisted(#[trigger] list[i]),
        first_bad_package(list) is Some ==> exists|i: int|
            0 <= i < list.len() && Some(#[trigger] list[i]) == first_bad_package(list)
                && !may_be_whitelisted(list[i]) && forall|j: int|
                0 <= j < i ==> may_be_whitelisted(#[trigger] list[j]),
    decreases list.len(),
{
    if list.len() > 0 {
        let t = list[0];
        assert(is_bad_package(t) <==> !may_be_whitelisted(t)) by {
            if t.contains('/') || t.contains('\n') || t.contains('\0') {
                let i = choose|i: int|
                    0 <= i < t.len() && (t[i] == '/' || t[i] == '\n' || t[i] == '\0');
                assert(t[i] == '/' || t[i] == '\n' || t[i] == '\0');
            }
            if !may_be_whitelisted(t) && vstd::utf8::encode_utf8(t).len() <= 255 && text::trimmed(
                t,
            ).len() > 0 {
                let i = choose|i: int|
                    0 <= i < t.len() && !(#[trigger] t[i] != '/' && t[i] != '\n' && t[i] != '\0');
                assert(t.contains(t[i]));
            }
        }
        let rest = list.drop_first();
        lemma_refused_package(rest);
        assert forall|i: int| 0 < i < list.len() implies #[trigger] list[i] == rest[i - 1] by {}
        assert forall|i: int| 0 <= i < rest.len() implies #[trigger] rest[i] == list[i + 1] by {}
        if !is_bad_package(t) && first_bad_package(rest) is Some {
            let i = choose|i: int|
                0 <= i < rest.len() && Some(#[trigger] rest[i]) == first_bad_package(rest)
                    && !may_be_whitelisted(rest[i]) && forall|j: int|
                    0 <= j < i ==> may_be_whitelisted(#[trigger] rest[j]);
            assert(Some(list[i + 1]) == first_bad_package(list));
            assert forall|j: int| 0 <= j < i + 1 implies may_be_whitelisted(#[trigger] list[j]) by {
                if j > 0 {
                    assert(may_be_whitelisted(rest[j - 1]));
                }
            }
        }
        if first_bad_package(list) is None {
            assert forall|i: int| 0 <= i < list.len() implies may_be_whitelisted(
                #[trigger] list[i],
            ) by {
                if i > 0 {
                    assert(may_be_whitelisted(rest[i - 1]));
                }
            }
        }
    }
}

proof fn lemma_refused_path(list: Seq<Seq<char>>)
    ensures
        first_bad_path(list) is None <==> forall|i: int|
            0 <= i < list.len() ==> may_be_protected(#[trigger] list[i]),
        first_bad_path(list) is Some ==> exists|i: int|
            0 <= i < list.len() && Some(#[trigger] list[i]) == first_bad_path(list)
                && !may_be_protected(list[i]) && forall|j: int|
                0 <= j < i ==> may_be_protected(#[trigger] list[j]),
    decreases list.len(),
{
    if list.len() > 0 {
        let t = list[0];
        assert(is_bad_path(t) <==> !may_be_protected(t)) by {
            if !may_be_protected(t) && vstd::utf8::encode_utf8(t).len() <= 4096 && t.len() > 0 {
                let i = choose|i: int| 0 <= i < t.len() && !(#[trigger] t[i] != '\0');
                assert(t.contains(t[i]));
            }
        }
        let rest = list.drop_first();
        lemma_refused_path(rest);
        assert forall|i: int| 0 < i < list.len() implies #[trigger] list[i] == rest[i - 1] by {}
        assert forall|i: int| 0 <= i < rest.len() implies #[trigger] rest[i] == list[i + 1] by {}
        if !is_bad_path(t) && first_bad_path(rest) is Some {
            let i = choose|i: int|
                0 <= i < rest.len() && Some(#[trigger] rest[i]) == first_bad_path(rest)
                    && !may_be_protected(rest[i]) && forall|j: int|
                    0 <= j < i ==> may_be_protected(#[trigger] rest[j]);
            assert(Some(list[i + 1]) == first_bad_path(list));
            assert forall|j: int| 0 <= j < i + 1 implies may_be_protected(#[trigger] list[j]) by {
                if j > 0 {
                    assert(may_be_protected(rest[j - 1]));
                }
            }
        }
        if first_bad_path(list) is None {
            assert forall|i: int| 0 <= i < list.len() implies may_be_protected(
                #[trigger] list[i],
            ) by {
                if i > 0 {
                    assert(may_be_protected(rest[i - 1]));
                }
            }
        }
    }
}

/// A number that is given lies within the bounds.
pub open spec fn lies_between(value: Option<u64>, low: int, high: int) -> bool {
    value is None || low <= value->0 <= high
}

/// A configuration is accepted exactly where every number that it gives lies within its
/// bounds, its whitelist is not too long, and every package and path that it lists may
/// stand there. What it leaves out is no reason to refuse it.
pub proof fn law_configs_within_bounds_are_accepted(
    raw: RawConfig,
    r: Result<ValidatedConfig, CleanerError>,
)
    requires
        call_ensures(ValidatedConfig::from_raw, (raw,), r),
    ensures
        r is Ok <==> {
            &&& lies_between(raw.maintenance_interval_secs, 60, 7int * 24 * 60 * 60)
            &&& lies_between(raw.min_screen_off_secs, 0, 60int * 60)
            &&& raw.max_soc_temp_c is None || 0x41a0_0000 <= raw.max_soc_temp_c->0.degrees.bits
                <= 0x42b4_0000
            &&& raw.max_battery_temp_c is None || 0x41a0_0000
                <= raw.max_battery_temp_c->0.degrees.bits <= 0x4282_0000
            &&& raw.whitelist_packages matches Some(list) ==> list@.len() <= 512 && forall|i: int|
                0 <= i < list@.len() ==> may_be_whitelisted((#[trigger] list@[i])@)
            &&& raw.protected_paths matches Some(list) ==> forall|i: int|
                0 <= i < list@.len() ==> may_be_protected((#[trigger] list@[i])@)
            &&& lies_between(raw.fstrim_interval_hours, 1, 30int * 24)
            &&& lies_between(raw.vacuum_db_interval_hours, 1, 30int * 24)
        },
        r matches Err(e) ==> e is ConfigError,
{
    let packages = listed_texts(raw.whitelist_packages);
    let protected = listed_texts(raw.protected_paths);
    lemma_refused_package(packages);
    lemma_refused_path(protected);
    if raw.whitelist_packages is Some {
        let list = raw.whitelist_packages->0;
        assert(packages.len() == list@.len());
        assert forall|i: int| 0 <= i < list@.len() implies packages[i] == (#[trigger] list@[i])@ by {}
        if forall|i: int| 0 <= i < list@.len() ==> may_be_whitelisted((#[trigger] list@[i])@) {
            assert forall|i: int| 0 <= i < packages.len() implies may_be_whitelisted(
                #[trigger] packages[i],
            ) by {
                assert(may_be_whitelisted(list@[i]@));
            }
        }
        if first_bad_package(packages) is None {
            assert forall|i: int| 0 <= i < list@.len() implies may_be_whitelisted(
                (#[trigger] list@[i])@,
            ) by {
                assert(may_be_whitelisted(packages[i]));
            }
        }
    }
    if raw.protected_paths is Some {
        let list = raw.protected_paths->0;
        assert(protected.len() == list@.len());
        if forall|i: int| 0 <= i < list@.len() ==> may_be_protected((#[trigger] list@[i])@) {
            assert forall|i: int| 0 <= i < protected.len() implies may_be_protected(
                #[trigger] protected[i],
            ) by {
                assert(may_be_protected(list@[i]@));
            }
        }
        if first_bad_path(protected) is None {
            assert forall|i: int| 0 <= i < list@.len() implies may_be_protected(
                (#[trigger] list@[i])@,
            ) by {
                assert(may_be_protected(protected[i]));
            }
        }
    }
}

/// The first thing that is out of bounds is what a refusal tells of.
pub proof fn law_refusal_names_the_first_fault(
    raw: RawConfig,
    r: Result<ValidatedConfig, CleanerError>,
)
    requires
        call_ensures(ValidatedConfig::from_raw, (raw,), r),
    ensures
        ({
            let told = |m: Seq<char>|
                r matches Err(e) && (e matches CleanerError::ConfigError(s) && s@ == m);
            let times = lies_between(raw.maintenance_interval_secs, 60, 604_800);
            let screen = lies_between(raw.min_screen_off_secs, 0, 3600);
            let soc = raw.max_soc_temp_c is None || 0x41a0_0000
                <= raw.max_soc_temp_c->0.degrees.bits <= 0x42b4_0000;
            let battery = raw.max_battery_temp_c is None || 0x41a0_0000
                <= raw.max_battery_temp_c->0.degrees.bits <= 0x4282_0000;
            &&& !times ==> told("maintenance_interval_secs must be 60..604800"@)
            &&& times && !screen ==> told("min_screen_off_secs must be 0..3600"@)
            &&& times && screen && !soc ==> told(
                "max_soc_temp_c"@ + " "@ + raw.max_soc_temp_c->0.shown@ + " out of safe range "@
                    + "[20.0, 90.0]"@,
            )
            &&& times && screen && soc && !battery ==> told(
                "max_battery_temp_c"@ + " "@ + raw.max_battery_temp_c->0.shown@
                    + " out of safe range "@ + "[20.0, 65.0]"@,
            )
            &&& times && screen && soc && battery && raw.whitelist_packages is Some
                && raw.whitelist_packages->0@.len() > 512 ==> told(
                "whitelist_packages exceeds 512 entries"@,
            )
        }),
{
}

/// What an accepted configuration says is what is in force: each number as it is given,
/// hours and days in seconds, megabytes in bytes, as far as they fit, and each switch as
/// it is set.
pub proof fn law_given_values_are_in_force(
    raw: RawConfig,
    r: Result<ValidatedConfig, CleanerError>,
)
    requires
        call_ensures(ValidatedConfig::from_raw, (raw,), r),
        r is Ok,
    ensures
        ({
            let v = r->Ok_0;
            &&& raw.maintenance_interval_secs matches Some(n) ==> v.maintenance_interval_secs == n
            &&& raw.min_screen_off_secs matches Some(n) ==> v.min_screen_off_secs == n
            &&& raw.max_soc_temp_c matches Some(t) ==> v.max_soc_temp_c == t.degrees
            &&& raw.max_battery_temp_c matches Some(t) ==> v.max_battery_temp_c == t.degrees
            &&& raw.min_file_age_hours matches Some(n) ==> v.min_app_cache_age_secs == if n * 3600
                <= u64::MAX {
                n * 3600
            } else {
                u64::MAX as int
            }
            &&& raw.min_file_age_hours is None ==> (raw.min_app_cache_age_days matches Some(n)
                ==> v.min_app_cache_age_secs == if n * 86400 <= u64::MAX {
                n * 86400
            } else {
                u64::MAX as int
            })
            &&& raw.app_cache_threshold_mb matches Some(n) ==> v.app_cache_threshold_bytes.0 == if n
                * 1_048_576 <= u64::MAX {
                n * 1_048_576
            } else {
                u64::MAX as int
            }
            &&& raw.fstrim_interval_hours matches Some(n) ==> v.fstrim_interval_secs == n * 3600
            &&& raw.vacuum_db_interval_hours matches Some(n) ==> v.vacuum_db_interval_secs == n
                * 3600
            &&& raw.dry_run matches Some(b) ==> v.dry_run == b
            &&& raw.clean_app_cache matches Some(b) ==> v.clean_app_cache == b
            &&& raw.clean_code_cache matches Some(b) ==> v.clean_code_cache == b
            &&& raw.clean_tombstones matches Some(b) ==> v.clean_tombstones == b
            &&& raw.clean_oem_logs matches Some(b) ==> v.clean_oem_logs == b
            &&& raw.clean_temp_apks matches Some(b) ==> v.clean_temp_apks == b
        }),
{
}

/// What an accepted configuration leaves out has its usual value, whatever it says
/// otherwise: an hour, three minutes, 45 degrees, three days, fifty megabytes, a day and
/// three days, application caches alone, and no dry run.
pub proof fn law_missing_values_are_the_usual_ones(
    raw: RawConfig,
    r: Result<ValidatedConfig, CleanerError>,
)
    requires
        call_ensures(ValidatedConfig::from_raw, (raw,), r),
        r is Ok,
    ensures
        ({
            let v = r->Ok_0;
            &&& raw.maintenance_interval_secs is None ==> v.maintenance_interval_secs == 60 * 60
            &&& raw.min_screen_off_secs is None ==> v.min_screen_off_secs == 3 * 60
            &&& raw.max_soc_temp_c is None ==> v.max_soc_temp_c.bits == 0x4234_0000
            &&& raw.max_battery_temp_c is None ==> v.max_battery_temp_c.bits == 0x4234_0000
            &&& raw.min_file_age_hours is None && raw.min_app_cache_age_days is None
                ==> v.min_app_cache_age_secs == 3 * 24 * 60 * 60
            &&& raw.app_cache_threshold_mb is None ==> v.app_cache_threshold_bytes.0 == 50 * 1024
                * 1024
            &&& raw.fstrim_interval_hours is None ==> v.fstrim_interval_secs == 24 * 60 * 60
            &&& raw.vacuum_db_interval_hours is None ==> v.vacuum_db_interval_secs == 72 * 60 * 60
            &&& raw.dry_run is None ==> !v.dry_run
            &&& raw.clean_app_cache is None ==> v.clean_app_cache
            &&& raw.clean_code_cache is None ==> !v.clean_code_cache
            &&& raw.clean_tombstones is None ==> !v.clean_tombstones
            &&& raw.clean_oem_logs is None ==> !v.clean_oem_logs
            &&& raw.clean_temp_apks is None ==> !v.clean_temp_apks
        }),
{
}

/// The configuration used where there is none says what one without any value would,
/// but for the limit on the battery and the lists.
pub proof fn law_default_raw_says_the_usual(
    raw: RawConfig,
    r: Result<ValidatedConfig, CleanerError>,
)
    requires
        call_ensures(RawConfig::default, (), raw),
        call_ensures(ValidatedConfig::from_raw, (raw,), r),
    ensures
        r is Ok,
        r->Ok_0.maintenance_interval_secs == 60 * 60,
        r->Ok_0.min_screen_off_secs == 3 * 60,
        r->Ok_0.max_soc_temp_c.bits == 0x4234_0000,
        r->Ok_0.max_battery_temp_c.bits == 0x4228_0000,
        r->Ok_0.min_app_cache_age_secs == 3 * 24 * 60 * 60,
        r->Ok_0.app_cache_threshold_bytes.0 == 50 * 1024 * 1024,
        r->Ok_0.fstrim_interval_secs == 24 * 60 * 60,
        r->Ok_0.vacuum_db_interval_secs == 72 * 60 * 60,
        !r->Ok_0.dry_run && r->Ok_0.clean_app_cache && !r->Ok_0.clean_code_cache
            && !r->Ok_0.clean_tombstones && !r->Ok_0.clean_oem_logs && !r->Ok_0.clean_temp_apks,
{
    law_default_raw_is_accepted(raw);
}

proof fn lemma_with_paths_lists(list: Seq<Seq<char>>, more: Seq<Seq<char>>, k: int)
    requires
        0 <= k < with_paths(list, more).len(),
    ensures
        list.contains(with_paths(list, more)[k]) || more.contains(with_paths(list, more)[k]),
        k >= list.len() ==> forall|j: int|
            0 <= j < k ==> paths::components(#[trigger] with_paths(list, more)[j])
                != paths::components(with_paths(list, more)[k]),
    decreases more.len(),
{
    let all = with_paths(list, more);
    lemma_with_paths_keeps(list, more);
    if more.len() > 0 {
        let front = more.drop_last();
        let done = with_paths(list, front);
        if k < done.len() {
            lemma_with_paths_lists(list, front, k);
            assert(all[k] == done[k]);
            if front.contains(done[k]) {
                let i = choose|i: int| 0 <= i < front.len() && front[i] == done[k];
                assert(more[i] == all[k]);
            }
            if k >= list.len() {
                assert forall|j: int| 0 <= j < k implies paths::components(#[trigger] all[j])
                    != paths::components(all[k]) by {
                    assert(all[j] == done[j]);
                }
            }
        } else {
            assert(all[k] == more.last());
            assert(more[more.len() - 1] == all[k]);
            assert forall|j: int| 0 <= j < k implies paths::components(#[trigger] all[j])
                != paths::components(all[k]) by {
                assert(all[j] == done[j]);
            }
        }
    }
}

proof fn lemma_with_paths_covers(list: Seq<Seq<char>>, more: Seq<Seq<char>>, i: int)
    requires
        0 <= i < more.len(),
    ensures
        lists_path(with_paths(list, more), more[i]),
    decreases more.len(),
{
    let all = with_paths(list, more);
    let done = with_paths(list, more.drop_last());
    if i < more.len() - 1 {
        lemma_with_paths_covers(list, more.drop_last(), i);
        let k = choose|k: int|
            0 <= k < done.len() && paths::components(#[trigger] done[k]) == paths::components(
                more[i],
            );
        assert(all[k] == done[k]);
    } else if !lists_path(done, more.last()) {
        assert(all[all.len() - 1] == more[i]);
    }
}

/// The protected paths are the platform's own, in front, and after them those that the
/// configuration lists and no other. Each of these is there, in some spelling, and none
/// repeats one before it.
pub proof fn law_protected_paths_are_those_listed(
    raw: RawConfig,
    r: Result<ValidatedConfig, CleanerError>,
    platform: [&'static str; 11],
    k: int,
)
    requires
        call_ensures(ValidatedConfig::from_raw, (raw,), r),
        call_ensures(platform_protected_paths, (), platform),
        r is Ok,
    ensures
        ({
            let all = r->Ok_0.protected_paths@;
            &&& all.len() >= 11
            &&& 0 <= k < 11 ==> all[k]@ == platform@[k]@
            &&& 11 <= k < all.len() ==> raw.protected_paths is Some && (exists|i: int|
                0 <= i < raw.protected_paths->0@.len() && (
                #[trigger] raw.protected_paths->0@[i])@ == all[k]@)
            &&& 11 <= k < all.len() ==> forall|j: int|
                0 <= j < k ==> paths::components((#[trigger] all[j])@) != paths::components(
                    all[k]@,
                )
            &&& raw.protected_paths is Some && 0 <= k < raw.protected_paths->0@.len() ==> exists|
                j: int,
            |
                0 <= j < all.len() && paths::components((#[trigger] all[j])@) == paths::components(
                    raw.protected_paths->0@[k]@,
                )
        }),
{
    let all = r->Ok_0.protected_paths@;
    let more = listed_texts(raw.protected_paths);
    let whole = with_paths(platform_paths(), more);
    lemma_with_paths_keeps(platform_paths(), more);
    assert(platform_paths() =~= whole.subrange(0, 11));
    assert(text::texts(all) == whole);
    assert(text::texts(all).len() == all.len());
    if 0 <= k < 11 {
        assert(text::texts(all)[k] == whole.subrange(0, 11)[k]);
        assert(text::literals(platform@)[k] == platform@[k]@);
    }
    if 11 <= k < all.len() {
        lemma_with_paths_lists(platform_paths(), more, k);
        assert(text::texts(all)[k] == all[k]@);
        if platform_paths().contains(whole[k]) {
            let i = choose|i: int| 0 <= i < platform_paths().len() && platform_paths()[i] == whole[k];
            assert(whole[i] == whole.subrange(0, 11)[i]);
            assert(paths::components(whole[i]) != paths::components(whole[k]));
        }
        let i = choose|i: int| 0 <= i < more.len() && more[i] == whole[k];
        assert(raw.protected_paths->0@[i]@ == all[k]@);
        assert forall|j: int| 0 <= j < k implies paths::components((#[trigger] all[j])@)
            != paths::components(all[k]@) by {
            assert(whole[j] == all[j]@);
        }
    }
    if raw.protected_paths is Some && 0 <= k < raw.protected_paths->0@.len() {
        lemma_with_paths_covers(platform_paths(), more, k);
        let j = choose|j: int|
            0 <= j < whole.len() && paths::components(#[trigger] whole[j]) == paths::components(
                more[k],
            );
        assert(whole[j] == all[j]@);
    }
}

/// The whitelist holds each package that is listed, once, and nothing else.
pub proof fn law_whitelist_is_what_is_listed(
    raw: RawConfig,
    r: Result<ValidatedConfig, CleanerError>,
    package: Seq<char>,
    a: int,
    b: int,
)
    requires
        call_ensures(ValidatedConfig::from_raw, (raw,), r),
        r is Ok,
    ensures
        ({
            let list = r->Ok_0.whitelist_packages@;
            &&& (exists|i: int| 0 <= i < list.len() && (#[trigger] list[i])@ == package)
                <==> raw.whitelist_packages is Some && (exists|i: int|
                0 <= i < raw.whitelist_packages->0@.len() && (
                #[trigger] raw.whitelist_packages->0@[i])@ == package)
            &&& 0 <= a < b < list.len() ==> list[a]@ != list[b]@
        }),
{
    let list = r->Ok_0.whitelist_packages@;
    let from = listed_texts(raw.whitelist_packages);
    let out = text::texts(list);
    assert(from.contains(package) <==> out.contains(package));
    if exists|i: int| 0 <= i < list.len() && (#[trigger] list[i])@ == package {
        let i = choose|i: int| 0 <= i < list.len() && (#[trigger] list[i])@ == package;
        assert(out[i] == package);
        let k = choose|k: int| 0 <= k < from.len() && from[k] == package;
        assert(raw.whitelist_packages->0@[k]@ == package);
    }
    if raw.whitelist_packages is Some && (exists|i: int|
        0 <= i < raw.whitelist_packages->0@.len() && (#[trigger] raw.whitelist_packages->0@[i])@
            == package) {
        let i = choose|i: int|
            0 <= i < raw.whitelist_packages->0@.len() && (
            #[trigger] raw.whitelist_packages->0@[i])@ == package;
        assert(from[i] == package);
        let k = choose|k: int| 0 <= k < out.len() && out[k] == package;
        assert(list[k]@ == package);
    }
    if 0 <= a < b < list.len() {
        assert(text::text_before(out[a], out[b]));
        text::lemma_text_before_total(out[a], out[b]);
    }
}

/// A package is whitelisted where the accepted configuration lists it, upper and lower
/// case aside, and nowhere else.
pub proof fn law_packages_are_whitelisted_where_listed(
    raw: RawConfig,
    r: Result<ValidatedConfig, CleanerError>,
    generation: ConfigGeneration,
    config: EffectiveConfig,
    package: &str,
    listed: bool,
)
    requires
        call_ensures(ValidatedConfig::from_raw, (raw,), r),
        r is Ok,
        call_ensures(EffectiveConfig::new, (generation, r->Ok_0), config),
        call_ensures(EffectiveConfig::is_package_whitelisted, (&config, package), listed),
    ensures
        config.generation == generation,
        listed <==> raw.whitelist_packages is Some && (exists|i: int|
            0 <= i < raw.whitelist_packages->0@.len() && text::same_but_case(
                (#[trigger] raw.whitelist_packages->0@[i])@,
                package@,
            )),
{
    let list = r->Ok_0.whitelist_packages@;
    if listed {
        let i = choose|i: int|
            0 <= i < list.len() && text::same_but_case((#[trigger] list[i])@, package@);
        law_whitelist_is_what_is_listed(raw, r, list[i]@, 0, 0);
        let k = choose|k: int|
            0 <= k < raw.whitelist_packages->0@.len() && (
            #[trigger] raw.whitelist_packages->0@[k])@ == list[i]@;
        assert(text::same_but_case(raw.whitelist_packages->0@[k]@, package@));
    }
    if raw.whitelist_packages is Some && (exists|i: int|
        0 <= i < raw.whitelist_packages->0@.len() && text::same_but_case(
            (#[trigger] raw.whitelist_packages->0@[i])@,
            package@,
        )) {
        let i = choose|i: int|
            0 <= i < raw.whitelist_packages->0@.len() && text::same_but_case(
                (#[trigger] raw.whitelist_packages->0@[i])@,
                package@,
            );
        law_whitelist_is_what_is_listed(raw, r, raw.whitelist_packages->0@[i]@, 0, 0);
        let k = choose|k: int|
            0 <= k < list.len() && (#[trigger] list[k])@ == raw.whitelist_packages->0@[i]@;
        assert(text::same_but_case(list[k]@, package@));
    }
}

/// A path is protected where its components begin with those of a protected one, and
/// nowhere else.
pub proof fn law_paths_below_protected_ones_are_protected(
    config: &EffectiveConfig,
    path: &str,
    r: bool,
)
    requires
        call_ensures(EffectiveConfig::is_path_protected, (config, path), r),
    ensures
        r <==> exists|i: int|
            0 <= i < config.validated.protected_paths@.len() && paths::is_under(
                path@,
                (#[trigger] config.validated.protected_paths@[i])@,
            ),
        forall|i: int|
            0 <= i < config.validated.protected_paths@.len() && paths::components(path@)
                == paths::components((#[trigger] config.validated.protected_paths@[i])@)
                && paths::is_absolute(path@) == paths::is_absolute(
                config.validated.protected_paths@[i]@,
            ) ==> r,
{
    assert forall|i: int|
        0 <= i < config.validated.protected_paths@.len() && paths::components(path@)
            == paths::components((#[trigger] config.validated.protected_paths@[i])@)
            && paths::is_absolute(path@) == paths::is_absolute(
            config.validated.protected_paths@[i]@,
        ) implies r by {
        assert(paths::is_under(path@, config.validated.protected_paths@[i]@));
    }
}

/// The lists of the configuration used where there is none.
pub proof fn law_default_raw_names_what_is_spared(raw: RawConfig)
    requires
        call_ensures(RawConfig::default, (), raw),
    ensures
        raw.whitelist_packages is Some && raw.whitelist_packages->0@.len() == 2,
        raw.whitelist_packages->0@[0]@ == "com.android.vending"@,
        raw.whitelist_packages->0@[1]@ == "com.google.android.gms"@,
        raw.protected_paths is Some && raw.protected_paths->0@.len() == 4,
        raw.protected_paths->0@[0]@ == "/system"@,
        raw.protected_paths->0@[1]@ == "/vendor"@,
        raw.protected_paths->0@[2]@ == "/apex"@,
        raw.protected_paths->0@[3]@ == "/data/data/com.android.providers.telephony"@,
        raw.max_soc_temp_c is Some && raw.max_soc_temp_c->0.shown@ == "45"@,
        raw.max_battery_temp_c is Some && raw.max_battery_temp_c->0.shown@ == "42"@,
        raw.min_file_age_hours is None,
{
    let packages = text::texts(raw.whitelist_packages->0@);
    let protected = text::texts(raw.protected_paths->0@);
    assert(packages.len() == 2 && protected.len() == 4);
    assert(packages[0] == "com.android.vending"@ && packages[1] == "com.google.android.gms"@);
    assert(protected[0] == "/system"@ && protected[1] == "/vendor"@ && protected[2] == "/apex"@
        && protected[3] == "/data/data/com.android.providers.telephony"@);
}

/// A package or a path that may not stand in its list is named, the first of them.
pub proof fn law_refusal_names_the_first_entry(
    raw: RawConfig,
    r: Result<ValidatedConfig, CleanerError>,
)
    requires
        call_ensures(ValidatedConfig::from_raw, (raw,), r),
        lies_between(raw.maintenance_interval_secs, 60, 604_800),
        lies_between(raw.min_screen_off_secs, 0, 3600),
        raw.max_soc_temp_c is None,
        raw.max_battery_temp_c is None,
    ensures
        raw.whitelist_packages matches Some(list) ==> forall|i: int|
            #![trigger list@[i]]
            0 <= i < list@.len() <= 512 && !may_be_whitelisted(list@[i]@) && (forall|j: int|
                0 <= j < i ==> may_be_whitelisted((#[trigger] list@[j])@)) ==> (r matches Err(e) && (
            e matches CleanerError::ConfigError(m) && m@ == "invalid whitelist package '"@
                + list@[i]@ + "'"@)),
        raw.whitelist_packages is None ==> (raw.protected_paths matches Some(list) ==> forall|i: int|

            #![trigger list@[i]]
            0 <= i < list@.len() && !may_be_protected(list@[i]@) && (forall|j: int|
                0 <= j < i ==> may_be_protected((#[trigger] list@[j])@)) ==> (r matches Err(e) && (
            e matches CleanerError::ConfigError(m) && m@ == "invalid protected path '"@
                + list@[i]@ + "'"@))),
        raw.whitelist_packages is None && raw.protected_paths is None ==> {
            &&& !lies_between(raw.fstrim_interval_hours, 1, 720) ==> (r matches Err(e) && (
            e matches CleanerError::ConfigError(m) && m@ == "fstrim_interval_hours must be 1..720"@))
            &&& lies_between(raw.fstrim_interval_hours, 1, 720) && !lies_between(
                raw.vacuum_db_interval_hours,
                1,
                720,
            ) ==> (r matches Err(e) && (e matches CleanerError::ConfigError(m) && m@
                == "vacuum_db_interval_hours must be 1..720"@))
        },
{
    let packages = listed_texts(raw.whitelist_packages);
    let protected = listed_texts(raw.protected_paths);
    lemma_refused_package(packages);
    lemma_refused_path(protected);
    if raw.whitelist_packages is Some {
        let list = raw.whitelist_packages->0;
        assert(packages.len() == list@.len());
        assert forall|i: int|
            #![trigger list@[i]]
            0 <= i < list@.len() <= 512 && !may_be_whitelisted(list@[i]@) && (forall|j: int|
                0 <= j < i ==> may_be_whitelisted((#[trigger] list@[j])@)) implies (
        r matches Err(e) && (e matches CleanerError::ConfigError(m) && m@
            == "invalid whitelist package '"@ + list@[i]@ + "'"@)) by {
            assert(packages[i] == list@[i]@);
            let k = choose|k: int|
                0 <= k < packages.len() && Some(#[trigger] packages[k]) == first_bad_package(
                    packages,
                ) && !may_be_whitelisted(packages[k]) && forall|j: int|
                    0 <= j < k ==> may_be_whitelisted(#[trigger] packages[j]);
            if k < i {
                assert(may_be_whitelisted(list@[k]@));
            }
            assert(k == i);
        }
    }
    if raw.protected_paths is Some {
        let list = raw.protected_paths->0;
        assert(protected.len() == list@.len());
        if raw.whitelist_packages is None {
            assert forall|i: int|
                #![trigger list@[i]]
                0 <= i < list@.len() && !may_be_protected(list@[i]@) && (forall|j: int|
                    0 <= j < i ==> may_be_protected((#[trigger] list@[j])@)) implies (
            r matches Err(e) && (e matches CleanerError::ConfigError(m) && m@
                == "invalid protected path '"@ + list@[i]@ + "'"@)) by {
                assert(protected[i] == list@[i]@);
                let k = choose|k: int|
                    0 <= k < protected.len() && Some(#[trigger] protected[k]) == first_bad_path(
                        protected,
                    ) && !may_be_protected(protected[k]) && forall|j: int|
                        0 <= j < k ==> may_be_protected(#[trigger] protected[j]);
                if k < i {
                    assert(may_be_protected(list@[k]@));
                }
                assert(k == i);
            }
        }
    }
}

} // verus!
