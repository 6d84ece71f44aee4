//! The rules that tell junk from everything else.
use vstd::prelude::*;
use vstd::std_specs::convert::FromSpecImpl;

use crate::config::{CleaningRulesConfig, SafetyConfig, SafetyMode};
use crate::paths;
use crate::text;

verus! {

/// A kind of junk.
#[derive(Debug, Clone, Copy, PartialEq, Eq, Structural)]
pub enum JunkCategory {
    AppCache,
    WebViewCache,
    ImageCache,
    Thumbnail,
    CodeCache,
    OemLog,
    CrashDump,
    TempApk,
}

/// Why a path stays.
#[derive(Debug, Clone, PartialEq, Eq)]
pub enum SkipReason {
    ProtectedDirectory(String),
    WhitelistedPackage(String),
    CodeCacheProtected,
    DisabledByConfig(&'static str),
    NotRecognizedAsJunk,
}

/// What is decided on a path.
#[derive(Debug, Clone, PartialEq, Eq)]
pub enum Decision {
    Delete { category: JunkCategory, reason: &'static str },
    Skip { reason: SkipReason },
}

/// Why a path stays, in terms of characters.
pub enum Excuse {
    ProtectedDirectory(Seq<char>),
    WhitelistedPackage(Seq<char>),
    CodeCacheProtected,
    DisabledByConfig(Seq<char>),
    NotRecognizedAsJunk,
}

/// What is decided on a path, in terms of characters.
pub enum Verdict {
    Delete(JunkCategory, Seq<char>),
    Skip(Excuse),
}

impl View for SkipReason {
    type V = Excuse;

    open spec fn view(&self) -> Excuse {
        match self {
            SkipReason::ProtectedDirectory(name) => Excuse::ProtectedDirectory(name@),
            SkipReason::WhitelistedPackage(name) => Excuse::WhitelistedPackage(name@),
            SkipReason::CodeCacheProtected => Excuse::CodeCacheProtected,
            SkipReason::DisabledByConfig(setting) => Excuse::DisabledByConfig(setting@),
            SkipReason::NotRecognizedAsJunk => Excuse::NotRecognizedAsJunk,
        }
    }
}

impl View for Decision {
    type V = Verdict;

    open spec fn view(&self) -> Verdict {
        match self {
            Decision::Delete { category, reason } => Verdict::Delete(*category, reason@),
            Decision::Skip { reason } => Verdict::Skip(reason@),
        }
    }
}

impl Decision {
    pub fn is_delete(&self) -> (r: bool)
        ensures
            r == (self is Delete),
    {
        matches!(self, Decision::Delete { .. })
    }

    pub fn category(&self) -> (r: Option<JunkCategory>)
        ensures
            r == match self@ {
                Verdict::Delete(category, _) => Some(category),
                Verdict::Skip(_) => None,
            },
    {
        match self {
            Decision::Delete { category, .. } => Some(*category),
            _ => None,
        }
    }
}

/// A kind of junk, or none.
#[derive(Debug, Clone, Copy, PartialEq, Eq, Structural)]
pub enum JunkType {
    AppCache,
    WebViewCache,
    ImageCache,
    Thumbnail,
    CodeCache,
    OemLog,
    CrashDump,
    TempApk,
    Ignored,
}

impl JunkType {
    /// The junk of a decision: its category where it deletes, else none.
    pub open spec fn of(verdict: Verdict) -> JunkType {
        match verdict {
            Verdict::Delete(category, _) => match category {
                JunkCategory::AppCache => JunkType::AppCache,
                JunkCategory::WebViewCache => JunkType::WebViewCache,
                JunkCategory::ImageCache => JunkType::ImageCache,
                JunkCategory::Thumbnail => JunkType::Thumbnail,
                JunkCategory::CodeCache => JunkType::CodeCache,
                JunkCategory::OemLog => JunkType::OemLog,
                JunkCategory::CrashDump => JunkType::CrashDump,
                JunkCategory::TempApk => JunkType::TempApk,
            },
            Verdict::Skip(_) => JunkType::Ignored,
        }
    }
}

impl From<Decision> for JunkType {
    fn from(decision: Decision) -> (r: Self) {
        match decision {
            Decision::Delete { category, .. } => match category {
                JunkCategory::AppCache => JunkType::AppCache,
                JunkCategory::WebViewCache => JunkType::WebViewCache,
                JunkCategory::ImageCache => JunkType::ImageCache,
                JunkCategory::Thumbnail => JunkType::Thumbnail,
                JunkCategory::CodeCache => JunkType::CodeCache,
                JunkCategory::OemLog => JunkType::OemLog,
                JunkCategory::CrashDump => JunkType::CrashDump,
                JunkCategory::TempApk => JunkType::TempApk,
            },
            Decision::Skip { .. } => JunkType::Ignored,
        }
    }
}

impl FromSpecImpl<Decision> for JunkType {
    open spec fn obeys_from_spec() -> bool {
        true
    }

    open spec fn from_spec(decision: Decision) -> JunkType {
        JunkType::of(decision@)
    }
}

/// What may be cleaned of one package.
#[derive(Debug, Clone, PartialEq, Eq)]
pub struct PackagePolicy {
    pub package: String,
    pub allow_cache: bool,
    pub allow_external_cache: bool,
}

/// `c` is one of `a` to `z` or `A` to `Z`.
pub open spec fn is_letter(c: char) -> bool {
    'a' <= c <= 'z' || 'A' <= c <= 'Z'
}

/// `c` may stand in a package name: a letter, a digit or an underscore.
pub open spec fn is_name_char(c: char) -> bool {
    is_letter(c) || '0' <= c <= '9' || c == '_'
}

/// `part` is one part of a package name: at least one character, all allowed.
pub open spec fn is_name_part(part: Seq<char>) -> bool {
    part.len() > 0 && forall|i: int| 0 <= i < part.len() ==> is_name_char(#[trigger] part[i])
}

/// `name` is a package name: two parts or more with dots between them, the first
/// of which begins with a letter.
pub open spec fn is_package_name(name: Seq<char>) -> bool {
    let parts = text::split_on(name, '.');
    &&& parts.len() >= 2
    &&& forall|i: int| 0 <= i < parts.len() ==> is_name_part(#[trigger] parts[i])
    &&& is_letter(parts[0][0])
}

fn char_is_letter(c: char) -> (r: bool)
    ensures
        r == is_letter(c),
{
    let n: u32 = c as u32;
    (0x61 <= n && n <= 0x7a) || (0x41 <= n && n <= 0x5a)
}

fn char_is_name_char(c: char) -> (r: bool)
    ensures
        r == is_name_char(c),
{
    let n: u32 = c as u32;
    char_is_letter(c) || (0x30 <= n && n <= 0x39) || c == '_'
}

fn text_is_name_part(part: &str) -> (r: bool)
    ensures
        r == is_name_part(part@),
{
    let v = text::chars_of(part);
    let mut i: usize = 0;
    while i < v.len()
        invariant
            i <= v.len(),
            v@ == part@,
            forall|j: int| 0 <= j < i ==> is_name_char(#[trigger] part@[j]),
        decreases v.len() - i,
    {
        if !char_is_name_char(v[i]) {
            assert(!is_name_char(part@[i as int]));
            return false;
        }
        i = i + 1;
    }
    v.len() > 0
}

/// Checks the form of a package name: `^[a-zA-Z][a-zA-Z0-9_]*(\.[a-zA-Z0-9_]+)+$`.
pub fn is_valid_package_name(name: &str) -> (r: bool)
    ensures
        r == is_package_name(name@),
{
    let parts = text::split_text(name, '.');
    let ghost whole = text::split_on(name@, '.');
    proof {
        text::lemma_split_on_nonempty(name@, '.');
        assert(whole.len() == parts.len());
    }
    let mut i: usize = 0;
    while i < parts.len()
        invariant
            i <= parts.len(),
            whole == text::split_on(name@, '.'),
            whole == text::texts(parts@),
            forall|j: int| 0 <= j < i ==> is_name_part(#[trigger] whole[j]),
        decreases parts.len() - i,
    {
        assert(whole[i as int] == parts@[i as int]@);
        if !text_is_name_part(parts[i].as_str()) {
            assert(!is_name_part(whole[i as int]));
            return false;
        }
        i = i + 1;
    }
    assert(whole[0] == parts@[0]@);
    assert(is_name_part(whole[0]));
    char_is_letter(parts[0].as_str().get_char(0)) && parts.len() >= 2
}

/// The partitions that are never touched.
pub open spec fn system_roots() -> Seq<Seq<char>> {
    seq![
        "/system"@,
        "/vendor"@,
        "/apex"@,
        "/product"@,
        "/system_ext"@,
        "/etc"@,
        "/proc"@,
        "/sys"@,
        "/dev"@,
    ]
}

/// Where vendors keep their logs.
pub open spec fn oem_log_roots() -> Seq<Seq<char>> {
    seq![
        "/data/miui"@,
        "/data/mqsas"@,
        "/data/system/theme_magic"@,
        "/data/log"@,
        "/data/sec_log"@,
        "/data/slog"@,
        "/data/oppo/log"@,
        "/data/oplus/log"@,
        "/data/vendor/oppo/log"@,
        "/data/vivo-apps/cache"@,
        "/data/vendor/mtklog"@,
        "/data/vendor/qcom"@,
        "/data/vendor/ramdump"@,
        "/data/vendor/connsys"@,
        "/data/log/hilog"@,
    ]
}

/// Where crash dumps are kept.
pub open spec fn crash_dump_roots() -> Seq<Seq<char>> {
    seq!["/data/tombstones"@, "/data/anr"@, "/data/system/dropbox"@]
}

/// Where packages wait to be installed.
pub open spec fn staged_apk_roots() -> Seq<Seq<char>> {
    seq!["/data/app-staging"@, "/data/system/package_cache"@]
}

/// The path is one of `roots` or stands below one.
pub open spec fn is_under_one_of(path: Seq<char>, roots: Seq<Seq<char>>) -> bool {
    exists|i: int| 0 <= i < roots.len() && paths::is_under(path, #[trigger] roots[i])
}

/// The path has one of `names` among its components.
pub open spec fn has_component_of(path: Seq<char>, names: Seq<Seq<char>>) -> bool {
    text::contains_one_of(paths::components(path), names)
}

/// The first of `names` that is a component of the path.
pub open spec fn first_protected(path: Seq<char>, names: Seq<Seq<char>>) -> Option<Seq<char>>
    decreases names.len(),
{
    if names.len() == 0 {
        None
    } else if paths::components(path).contains(names[0]) {
        Some(names[0])
    } else {
        first_protected(path, names.drop_first())
    }
}

/// The component `part` belongs to `package`: it is the package, or it begins with
/// the package and a dot.
pub open spec fn belongs_to(part: Seq<char>, package: Seq<char>) -> bool {
    part == package || text::has_prefix(part, package.push('.'))
}

/// Some component of the path belongs to `package`.
pub open spec fn touches_package(path: Seq<char>, package: Seq<char>) -> bool {
    exists|i: int|
        0 <= i < paths::components(path).len() && belongs_to(
            #[trigger] paths::components(path)[i],
            package,
        )
}

/// The first of `packages` that the path touches.
pub open spec fn first_whitelisted(path: Seq<char>, packages: Seq<Seq<char>>) -> Option<Seq<char>>
    decreases packages.len(),
{
    if packages.len() == 0 {
        None
    } else if touches_package(path, packages[0]) {
        Some(packages[0])
    } else {
        first_whitelisted(path, packages.drop_first())
    }
}

/// Compiled code or its profile.
pub open spec fn is_code_cache(path: Seq<char>) -> bool {
    has_component_of(path, seq!["code_cache"@, "oat"@, "dalvik-cache"@]) || text::ends_with_one_of(
        path,
        seq![".prof"@, ".cur.prof"@, ".profm"@, ".art"@, ".odex"@, ".vdex"@],
    )
}

/// The cache of a web view.
pub open spec fn is_webview_cache(path: Seq<char>) -> bool {
    text::has_part_of(
        path,
        seq![
            "app_webview/Default/Cache"@,
            "app_webview/Default/Code Cache"@,
            "app_webview/Default/GPUCache"@,
            "app_webview/Default/Service Worker/CacheStorage"@,
            "app_webview/Default/Service Worker/ScriptCache"@,
            "org.chromium.android_webview"@,
            "app_textures"@,
            "splash_cache"@,
        ],
    )
}

/// The cache of an image or network library.
pub open spec fn is_image_cache(path: Seq<char>) -> bool {
    has_component_of(
        path,
        seq![
            "image_cache"@,
            "fresco_cache"@,
            "glide_cache"@,
            "coil_cache"@,
            "http-engine-cache"@,
            "picasso-cache"@,
            "volley"@,
            "disk_cache"@,
            "network_cache"@,
        ],
    )
}

/// An application's cache folder.
pub open spec fn is_app_cache(path: Seq<char>) -> bool {
    has_component_of(path, seq!["cache"@, "app_cache"@])
}

/// A thumbnail folder.
pub open spec fn is_thumbnail(path: Seq<char>) -> bool {
    has_component_of(
        path,
        seq![
            ".thumbnails"@,
            ".thumb"@,
            ".thumbcache"@,
            ".video_thumbnails"@,
            ".albumthumbs"@,
            "micro_thumbnail"@,
        ],
    )
}

/// The path looks like a log.
pub open spec fn looks_like_log(path: Seq<char>) -> bool {
    text::ends_with_one_of(path, seq![".log"@, ".txt"@, ".old"@, ".trace"@, ".dump"@, ".gz"@])
        || text::has_part_of(
        path,
        seq!["/log/"@, "/logs/"@, "/mobilelog/"@, "/netlog/"@, "/connsyslog/"@],
    )
}

/// The path looks like what an installation leaves behind.
pub open spec fn looks_like_staged_apk(path: Seq<char>) -> bool {
    text::ends_with_one_of(path, seq![".apk"@, ".dex"@, ".tmp"@, ".apk.tmp"@])
}

/// The path looks like a package or its parts.
pub open spec fn looks_like_temp_apk(path: Seq<char>) -> bool {
    text::ends_with_one_of(path, seq![".apk"@, ".tmp"@, ".apks"@, ".xapk"@, ".dex"@])
}

/// Deletes where the setting is on.
pub open spec fn if_enabled(
    on: bool,
    category: JunkCategory,
    reason: Seq<char>,
    setting: Seq<char>,
) -> Verdict {
    if on {
        Verdict::Delete(category, reason)
    } else {
        Verdict::Skip(Excuse::DisabledByConfig(setting))
    }
}

/// The verdict on a path that no earlier rule has decided: crash dumps, staged
/// packages and the shell's temporary directory, all in aggressive mode only.
pub open spec fn late_verdict(
    rules: CleaningRulesConfig,
    mode: SafetyMode,
    path: Seq<char>,
    is_file: bool,
) -> Verdict {
    let aggressive = mode == SafetyMode::Aggressive;
    if is_under_one_of(path, crash_dump_roots()) {
        if !aggressive {
            Verdict::Skip(Excuse::DisabledByConfig("crash_dumps_require_aggressive_mode"@))
        } else {
            if_enabled(
                rules.clean_crash_dumps,
                JunkCategory::CrashDump,
                "System crash dump or ANR trace"@,
                "clean_crash_dumps"@,
            )
        }
    } else if is_under_one_of(path, staged_apk_roots()) {
        if !aggressive {
            Verdict::Skip(Excuse::DisabledByConfig("temp_apks_require_aggressive_mode"@))
        } else if rules.clean_temp_apks && is_file && !looks_like_staged_apk(path) {
            Verdict::Skip(Excuse::NotRecognizedAsJunk)
        } else {
            if_enabled(
                rules.clean_temp_apks,
                JunkCategory::TempApk,
                "Temporary APK installation session artifact"@,
                "clean_temp_apks"@,
            )
        }
    } else if paths::is_under(path, "/data/local/tmp"@) {
        if !aggressive {
            Verdict::Skip(Excuse::DisabledByConfig("temp_apks_require_aggressive_mode"@))
        } else if !looks_like_temp_apk(path) {
            Verdict::Skip(Excuse::NotRecognizedAsJunk)
        } else {
            if_enabled(
                rules.clean_temp_apks,
                JunkCategory::TempApk,
                "Temporary APK or DEX artifact in /data/local/tmp"@,
                "clean_temp_apks"@,
            )
        }
    } else {
        Verdict::Skip(Excuse::NotRecognizedAsJunk)
    }
}

/// The verdict on a path: that of the first rule that applies. `is_file` says
/// whether a regular file stands there.
pub open spec fn verdict(
    rules: CleaningRulesConfig,
    mode: SafetyMode,
    protected: Seq<Seq<char>>,
    whitelist: Seq<Seq<char>>,
    path: Seq<char>,
    is_file: bool,
) -> Verdict {
    if is_under_one_of(path, system_roots()) {
        Verdict::Skip(Excuse::ProtectedDirectory("system_immutable_partition"@))
    } else if first_protected(path, protected) is Some {
        Verdict::Skip(Excuse::ProtectedDirectory(first_protected(path, protected)->0))
    } else if first_whitelisted(path, whitelist) is Some {
        Verdict::Skip(Excuse::WhitelistedPackage(first_whitelisted(path, whitelist)->0))
    } else if is_code_cache(path) {
        if mode == SafetyMode::Aggressive && rules.clean_code_cache {
            Verdict::Delete(
                JunkCategory::CodeCache,
                "ART/JIT code cache enabled in config under aggressive safety mode"@,
            )
        } else {
            Verdict::Skip(Excuse::CodeCacheProtected)
        }
    } else if is_webview_cache(path) {
        if mode == SafetyMode::Safe {
            Verdict::Skip(Excuse::DisabledByConfig("webview_cache_disabled_in_safe_mode"@))
        } else {
            if_enabled(
                rules.clean_webview_cache,
                JunkCategory::WebViewCache,
                "WebView/Chromium cache artifact"@,
                "clean_webview_cache"@,
            )
        }
    } else if is_image_cache(path) {
        if mode == SafetyMode::Safe {
            Verdict::Skip(Excuse::DisabledByConfig("image_caches_disabled_in_safe_mode"@))
        } else {
            if_enabled(
                rules.clean_image_caches,
                JunkCategory::ImageCache,
                "Application image or network cache library folder"@,
                "clean_image_caches"@,
            )
        }
    } else if is_app_cache(path) {
        if_enabled(
            rules.clean_app_cache,
            JunkCategory::AppCache,
            "Standard Android application cache directory"@,
            "clean_app_cache"@,
        )
    } else if is_thumbnail(path) {
        if mode == SafetyMode::Safe {
            Verdict::Skip(Excuse::DisabledByConfig("thumbnails_disabled_in_safe_mode"@))
        } else {
            if_enabled(
                rules.clean_thumbnails,
                JunkCategory::Thumbnail,
                "Media thumbnail cache folder"@,
                "clean_thumbnails"@,
            )
        }
    } else if is_under_one_of(path, oem_log_roots()) && mode != SafetyMode::Aggressive {
        Verdict::Skip(Excuse::DisabledByConfig("oem_logs_require_aggressive_mode"@))
    } else if is_under_one_of(path, oem_log_roots()) && !rules.clean_oem_logs {
        Verdict::Skip(Excuse::DisabledByConfig("clean_oem_logs"@))
    } else if is_under_one_of(path, oem_log_roots()) && (looks_like_log(path) || !is_file) {
        Verdict::Delete(JunkCategory::OemLog, "OEM vendor diagnostic/debug log"@)
    } else {
        late_verdict(rules, mode, path, is_file)
    }
}

fn under_one(path: &str, parts: &Vec<String>, roots: &[&str]) -> (r: bool)
    requires
        text::texts(parts@) == paths::components(path@),
    ensures
        r == is_under_one_of(path@, text::literals(roots@)),
{
    let mut i: usize = 0;
    while i < roots.len()
        invariant
            i <= roots.len(),
            text::texts(parts@) == paths::components(path@),
            forall|j: int|
                0 <= j < i ==> !paths::is_under(path@, #[trigger] text::literals(roots@)[j]),
        decreases roots.len() - i,
    {
        if paths::begins_with_components(parts, &paths::path_components(roots[i])) {
            assert(paths::is_under(path@, text::literals(roots@)[i as int]));
            return true;
        }
        i = i + 1;
    }
    false
}

fn find_protected(path: &str, parts: &Vec<String>, names: &Vec<String>) -> (r: Option<String>)
    requires
        text::texts(parts@) == paths::components(path@),
    ensures
        r is Some <==> first_protected(path@, text::texts(names@)) is Some,
        r is Some ==> Some(r->0@) == first_protected(path@, text::texts(names@)),
{
    let mut i: usize = 0;
    let ghost all = text::texts(names@);
    assert(all.subrange(0, all.len() as int) =~= all);
    while i < names.len()
        invariant
            i <= names.len(),
            all == text::texts(names@),
            text::texts(parts@) == paths::components(path@),
            first_protected(path@, all) == first_protected(
                path@,
                all.subrange(i as int, all.len() as int),
            ),
        decreases names.len() - i,
    {
        let ghost rest = all.subrange(i as int, all.len() as int);
        assert(rest[0] == names@[i as int]@);
        if text::contains_string(parts, names[i].as_str()) {
            return Some(names[i].clone());
        }
        assert(rest.drop_first() =~= all.subrange(i + 1, all.len() as int));
        i = i + 1;
    }
    None
}

fn part_belongs_to(part: &str, package: &str) -> (r: bool)
    ensures
        r == belongs_to(part@, package@),
{
    let mut dotted = package.to_owned();
    dotted.append(".");
    proof {
        reveal_strlit(".");
        assert(dotted@ =~= package@.push('.'));
    }
    text::same_text(part, package) || text::starts_with_text(part, dotted.as_str())
}

fn path_touches(path: &str, parts: &Vec<String>, package: &str) -> (r: bool)
    requires
        text::texts(parts@) == paths::components(path@),
    ensures
        r == touches_package(path@, package@),
{
    let mut i: usize = 0;
    while i < parts.len()
        invariant
            i <= parts.len(),
            text::texts(parts@) == paths::components(path@),
            forall|j: int|
                0 <= j < i ==> !belongs_to(#[trigger] paths::components(path@)[j], package@),
        decreases parts.len() - i,
    {
        assert(paths::components(path@)[i as int] == parts@[i as int]@);
        if part_belongs_to(parts[i].as_str(), package) {
            return true;
        }
        i = i + 1;
    }
    false
}

fn find_whitelisted(path: &str, parts: &Vec<String>, packages: &Vec<String>) -> (r: Option<String>)
    requires
        text::texts(parts@) == paths::components(path@),
    ensures
        r is Some <==> first_whitelisted(path@, text::texts(packages@)) is Some,
        r is Some ==> Some(r->0@) == first_whitelisted(path@, text::texts(packages@)),
{
    let mut i: usize = 0;
    let ghost all = text::texts(packages@);
    assert(all.subrange(0, all.len() as int) =~= all);
    while i < packages.len()
        invariant
            i <= packages.len(),
            all == text::texts(packages@),
            text::texts(parts@) == paths::components(path@),
            first_whitelisted(path@, all) == first_whitelisted(
                path@,
                all.subrange(i as int, all.len() as int),
            ),
        decreases packages.len() - i,
    {
        let ghost rest = all.subrange(i as int, all.len() as int);
        assert(rest[0] == packages@[i as int]@);
        if path_touches(path, parts, packages[i].as_str()) {
            return Some(packages[i].clone());
        }
        assert(rest.drop_first() =~= all.subrange(i + 1, all.len() as int));
        i = i + 1;
    }
    None
}

fn path_is_code_cache(path: &str, parts: &Vec<String>) -> (r: bool)
    requires
        text::texts(parts@) == paths::components(path@),
    ensures
        r == is_code_cache(path@),
{
    let names = ["code_cache", "oat", "dalvik-cache"];
    let endings = [".prof", ".cur.prof", ".profm", ".art", ".odex", ".vdex"];
    proof {
        assert(text::literals(names@) =~= seq!["code_cache"@, "oat"@, "dalvik-cache"@]);
        assert(text::literals(endings@) =~= seq![
            ".prof"@,
            ".cur.prof"@,
            ".profm"@,
            ".art"@,
            ".odex"@,
            ".vdex"@,
        ]);
    }
    text::contains_one(parts, &names) || text::ends_with_one(path, &endings)
}

fn path_is_webview_cache(path: &str) -> (r: bool)
    ensures
        r == is_webview_cache(path@),
{
    let marks = [
        "app_webview/Default/Cache",
        "app_webview/Default/Code Cache",
        "app_webview/Default/GPUCache",
        "app_webview/Default/Service Worker/CacheStorage",
        "app_webview/Default/Service Worker/ScriptCache",
        "org.chromium.android_webview",
        "app_textures",
        "splash_cache",
    ];
    proof {
        assert(text::literals(marks@) =~= seq![
            "app_webview/Default/Cache"@,
            "app_webview/Default/Code Cache"@,
            "app_webview/Default/GPUCache"@,
            "app_webview/Default/Service Worker/CacheStorage"@,
            "app_webview/Default/Service Worker/ScriptCache"@,
            "org.chromium.android_webview"@,
            "app_textures"@,
            "splash_cache"@,
        ]);
    }
    text::contains_part(path, &marks)
}

fn path_is_image_cache(path: &str, parts: &Vec<String>) -> (r: bool)
    requires
        text::texts(parts@) == paths::components(path@),
    ensures
        r == is_image_cache(path@),
{
    let names = [
        "image_cache",
        "fresco_cache",
        "glide_cache",
        "coil_cache",
        "http-engine-cache",
        "picasso-cache",
        "volley",
        "disk_cache",
        "network_cache",
    ];
    proof {
        assert(text::literals(names@) =~= seq![
            "image_cache"@,
            "fresco_cache"@,
            "glide_cache"@,
            "coil_cache"@,
            "http-engine-cache"@,
            "picasso-cache"@,
            "volley"@,
            "disk_cache"@,
            "network_cache"@,
        ]);
    }
    text::contains_one(parts, &names)
}

fn path_is_app_cache(path: &str, parts: &Vec<String>) -> (r: bool)
    requires
        text::texts(parts@) == paths::components(path@),
    ensures
        r == is_app_cache(path@),
{
    let names = ["cache", "app_cache"];
    assert(text::literals(names@) =~= seq!["cache"@, "app_cache"@]);
    text::contains_one(parts, &names)
}

fn path_is_thumbnail(path: &str, parts: &Vec<String>) -> (r: bool)
    requires
        text::texts(parts@) == paths::components(path@),
    ensures
        r == is_thumbnail(path@),
{
    let names = [
        ".thumbnails",
        ".thumb",
        ".thumbcache",
        ".video_thumbnails",
        ".albumthumbs",
        "micro_thumbnail",
    ];
    proof {
        assert(text::literals(names@) =~= seq![
            ".thumbnails"@,
            ".thumb"@,
            ".thumbcache"@,
            ".video_thumbnails"@,
            ".albumthumbs"@,
            "micro_thumbnail"@,
        ]);
    }
    text::contains_one(parts, &names)
}

fn path_looks_like_log(path: &str) -> (r: bool)
    ensures
        r == looks_like_log(path@),
{
    let endings = [".log", ".txt", ".old", ".trace", ".dump", ".gz"];
    let marks = ["/log/", "/logs/", "/mobilelog/", "/netlog/", "/connsyslog/"];
    proof {
        assert(text::literals(endings@) =~= seq![
            ".log"@,
            ".txt"@,
            ".old"@,
            ".trace"@,
            ".dump"@,
            ".gz"@,
        ]);
        assert(text::literals(marks@) =~= seq![
            "/log/"@,
            "/logs/"@,
            "/mobilelog/"@,
            "/netlog/"@,
            "/connsyslog/"@,
        ]);
    }
    text::ends_with_one(path, &endings) || text::contains_part(path, &marks)
}

fn path_looks_like_staged_apk(path: &str) -> (r: bool)
    ensures
        r == looks_like_staged_apk(path@),
{
    let endings = [".apk", ".dex", ".tmp", ".apk.tmp"];
    assert(text::literals(endings@) =~= seq![".apk"@, ".dex"@, ".tmp"@, ".apk.tmp"@]);
    text::ends_with_one(path, &endings)
}

fn path_looks_like_temp_apk(path: &str) -> (r: bool)
    ensures
        r == looks_like_temp_apk(path@),
{
    let endings = [".apk", ".tmp", ".apks", ".xapk", ".dex"];
    assert(text::literals(endings@) =~= seq![".apk"@, ".tmp"@, ".apks"@, ".xapk"@, ".dex"@]);
    text::ends_with_one(path, &endings)
}

fn oem_log_list() -> (r: [&'static str; 15])
    ensures
        text::literals(r@) == oem_log_roots(),
{
    let r = [
        "/data/miui",
        "/data/mqsas",
        "/data/system/theme_magic",
        "/data/log",
        "/data/sec_log",
        "/data/slog",
        "/data/oppo/log",
        "/data/oplus/log",
        "/data/vendor/oppo/log",
        "/data/vivo-apps/cache",
        "/data/vendor/mtklog",
        "/data/vendor/qcom",
        "/data/vendor/ramdump",
        "/data/vendor/connsys",
        "/data/log/hilog",
    ];
    assert(text::literals(r@) =~= oem_log_roots());
    r
}

fn crash_dump_list() -> (r: [&'static str; 3])
    ensures
        text::literals(r@) == crash_dump_roots(),
{
    let r = ["/data/tombstones", "/data/anr", "/data/system/dropbox"];
    assert(text::literals(r@) =~= crash_dump_roots());
    r
}

fn staged_apk_list() -> (r: [&'static str; 2])
    ensures
        text::literals(r@) == staged_apk_roots(),
{
    let r = ["/data/app-staging", "/data/system/package_cache"];
    assert(text::literals(r@) =~= staged_apk_roots());
    r
}

fn system_list() -> (r: [&'static str; 9])
    ensures
        text::literals(r@) == system_roots(),
{
    let r = [
        "/system",
        "/vendor",
        "/apex",
        "/product",
        "/system_ext",
        "/etc",
        "/proc",
        "/sys",
        "/dev",
    ];
    assert(text::literals(r@) =~= system_roots());
    r
}

fn delete_if(
    on: bool,
    category: JunkCategory,
    reason: &'static str,
    setting: &'static str,
) -> (r: Decision)
    ensures
        r@ == if_enabled(on, category, reason@, setting@),
{
    if on {
        Decision::Delete { category, reason }
    } else {
        Decision::Skip { reason: SkipReason::DisabledByConfig(setting) }
    }
}

fn disabled(setting: &'static str) -> (r: Decision)
    ensures
        r@ == Verdict::Skip(Excuse::DisabledByConfig(setting@)),
{
    Decision::Skip { reason: SkipReason::DisabledByConfig(setting) }
}

/// Decides on a path by these rules. `is_file` says whether a regular file stands there.
pub fn evaluate(
    rules: &CleaningRulesConfig,
    safety: &SafetyConfig,
    path: &str,
    is_file: bool,
) -> (r: Decision)
    ensures
        r@ == verdict(
            *rules,
            safety.mode,
            text::texts(safety.protected_directory_names@),
            text::texts(safety.whitelist_packages@),
            path@,
            is_file,
        ),
{
    let parts = paths::path_components(path);
    if under_one(path, &parts, &system_list()) {
        return Decision::Skip {
            reason: SkipReason::ProtectedDirectory("system_immutable_partition".to_owned()),
        };
    }
    match find_protected(path, &parts, &safety.protected_directory_names) {
        Some(name) => {
            return Decision::Skip { reason: SkipReason::ProtectedDirectory(name) };
        },
        None => {},
    }
    match find_whitelisted(path, &parts, &safety.whitelist_packages) {
        Some(name) => {
            return Decision::Skip { reason: SkipReason::WhitelistedPackage(name) };
        },
        None => {},
    }
    if path_is_code_cache(path, &parts) {
        if safety.mode == SafetyMode::Aggressive && rules.clean_code_cache {
            return Decision::Delete {
                category: JunkCategory::CodeCache,
                reason: "ART/JIT code cache enabled in config under aggressive safety mode",
            };
        } else {
            return Decision::Skip { reason: SkipReason::CodeCacheProtected };
        }
    }
    if path_is_webview_cache(path) {
        if safety.mode == SafetyMode::Safe {
            return Decision::Skip {
                reason: SkipReason::DisabledByConfig("webview_cache_disabled_in_safe_mode"),
            };
        }
        return delete_if(
            rules.clean_webview_cache,
            JunkCategory::WebViewCache,
            "WebView/Chromium cache artifact",
            "clean_webview_cache",
        );
    }
    if path_is_image_cache(path, &parts) {
        if safety.mode == SafetyMode::Safe {
            return Decision::Skip {
                reason: SkipReason::DisabledByConfig("image_caches_disabled_in_safe_mode"),
            };
        }
        return delete_if(
            rules.clean_image_caches,
            JunkCategory::ImageCache,
            "Application image or network cache library folder",
            "clean_image_caches",
        );
    }
    if path_is_app_cache(path, &parts) {
        return delete_if(
            rules.clean_app_cache,
            JunkCategory::AppCache,
            "Standard Android application cache directory",
            "clean_app_cache",
        );
    }
    if path_is_thumbnail(path, &parts) {
        if safety.mode == SafetyMode::Safe {
            return disabled("thumbnails_disabled_in_safe_mode");
        }
        return delete_if(
            rules.clean_thumbnails,
            JunkCategory::Thumbnail,
            "Media thumbnail cache folder",
            "clean_thumbnails",
        );
    }
    if under_one(path, &parts, &oem_log_list()) {
        if safety.mode != SafetyMode::Aggressive {
            return disabled("oem_logs_require_aggressive_mode");
        }
        if rules.clean_oem_logs {
            if path_looks_like_log(path) || !is_file {
                return Decision::Delete {
                    category: JunkCategory::OemLog,
                    reason: "OEM vendor diagnostic/debug log",
                };
            }
        } else {
            return disabled("clean_oem_logs");
        }
    }
    evaluate_late(rules, safety.mode, path, &parts, is_file)
}

fn evaluate_late(
    rules: &CleaningRulesConfig,
    mode: SafetyMode,
    path: &str,
    parts: &Vec<String>,
    is_file: bool,
) -> (r: Decision)
    requires
        text::texts(parts@) == paths::components(path@),
    ensures
        r@ == late_verdict(*rules, mode, path@, is_file),
{
    let aggressive = mode == SafetyMode::Aggressive;
    if under_one(path, parts, &crash_dump_list()) {
        if !aggressive {
            return disabled("crash_dumps_require_aggressive_mode");
        }
        return delete_if(
            rules.clean_crash_dumps,
            JunkCategory::CrashDump,
            "System crash dump or ANR trace",
            "clean_crash_dumps",
        );
    }
    if under_one(path, parts, &staged_apk_list()) {
        if !aggressive {
            return disabled("temp_apks_require_aggressive_mode");
        }
        if !rules.clean_temp_apks {
            return disabled("clean_temp_apks");
        }
        if path_looks_like_staged_apk(path) || !is_file {
            return Decision::Delete {
                category: JunkCategory::TempApk,
                reason: "Temporary APK installation session artifact",
            };
        }
    } else if paths::path_is_under(path, "/data/local/tmp") {
        if !aggressive {
            return disabled("temp_apks_require_aggressive_mode");
        }
        if path_looks_like_temp_apk(path) {
            return delete_if(
                rules.clean_temp_apks,
                JunkCategory::TempApk,
                "Temporary APK or DEX artifact in /data/local/tmp",
                "clean_temp_apks",
            );
        }
    }
    Decision::Skip { reason: SkipReason::NotRecognizedAsJunk }
}

/// Applies the rules of one configuration.
pub struct RuleEngine {
    rules: CleaningRulesConfig,
    safety: SafetyConfig,
}

impl RuleEngine {
    /// What this engine cleans.
    pub closed spec fn spec_rules(self) -> CleaningRulesConfig {
        self.rules
    }

    /// What this engine protects.
    pub closed spec fn spec_safety(self) -> SafetyConfig {
        self.safety
    }

    /// The verdict of this engine on a path.
    pub open spec fn verdict_on(self, path: Seq<char>, is_file: bool) -> Verdict {
        verdict(
            self.spec_rules(),
            self.spec_safety().mode,
            text::texts(self.spec_safety().protected_directory_names@),
            text::texts(self.spec_safety().whitelist_packages@),
            path,
            is_file,
        )
    }

    pub fn new(rules: CleaningRulesConfig, safety: SafetyConfig) -> (r: Self)
        ensures
            r.spec_rules() == rules,
            r.spec_safety() == safety,
    {
        RuleEngine { rules, safety }
    }

    pub fn rules(&self) -> (r: &CleaningRulesConfig)
        ensures
            *r == self.spec_rules(),
    {
        &self.rules
    }

    pub fn safety(&self) -> (r: &SafetyConfig)
        ensures
            *r == self.spec_safety(),
    {
        &self.safety
    }

    /// Decides on a path. `is_file` says whether a regular file stands there.
    pub fn evaluate_path(&self, path: &str, is_file: bool) -> (r: Decision)
        ensures
            r@ == self.verdict_on(path@, is_file),
    {
        evaluate(&self.rules, &self.safety, path, is_file)
    }

    /// The kind of junk that stands at a path. `is_file` says whether a regular
    /// file stands there.
    pub fn classify_path(&self, path: &str, is_file: bool) -> (r: JunkType)
        ensures
            r == JunkType::of(self.verdict_on(path@, is_file)),
    {
        JunkType::from(self.evaluate_path(path, is_file))
    }

    /// The system directories to clean.
    pub open spec fn junk_targets(rules: CleaningRulesConfig) -> Seq<Seq<char>> {
        let logs = if rules.clean_oem_logs {
            oem_log_roots()
        } else {
            Seq::empty()
        };
        let dumps = if rules.clean_crash_dumps {
            crash_dump_roots()
        } else {
            Seq::empty()
        };
        let packages = if rules.clean_temp_apks {
            staged_apk_roots().push("/data/local/tmp"@)
        } else {
            Seq::empty()
        };
        logs + dumps + packages
    }

    /// The system directories to clean.
    pub fn get_system_junk_targets(&self) -> (r: Vec<&'static str>)
        ensures
            text::literals(r@) == RuleEngine::junk_targets(self.spec_rules()),
    {
        let mut targets: Vec<&'static str> = Vec::new();
        if self.rules.clean_oem_logs {
            push_all(&mut targets, &oem_log_list());
        }
        if self.rules.clean_crash_dumps {
            push_all(&mut targets, &crash_dump_list());
        }
        if self.rules.clean_temp_apks {
            push_all(&mut targets, &staged_apk_list());
            push_all(&mut targets, &["/data/local/tmp"]);
        }
        assert(text::literals(targets@) =~= RuleEngine::junk_targets(self.spec_rules()));
        targets
    }
}

/// The category of junk that a system directory holds.
pub open spec fn target_category(target: Seq<char>) -> Option<JunkCategory> {
    if oem_log_roots().contains(target) {
        Some(JunkCategory::OemLog)
    } else if crash_dump_roots().contains(target) {
        Some(JunkCategory::CrashDump)
    } else if staged_apk_roots().contains(target) || target == "/data/local/tmp"@ {
        Some(JunkCategory::TempApk)
    } else {
        None
    }
}

fn list_has(list: &[&str], target: &str) -> (r: bool)
    ensures
        r == text::literals(list@).contains(target@),
{
    let mut i: usize = 0;
    while i < list.len()
        invariant
            i <= list.len(),
            forall|k: int| 0 <= k < i ==> text::literals(list@)[k] != target@,
        decreases list.len() - i,
    {
        if text::same_text(list[i], target) {
            assert(text::literals(list@)[i as int] == target@);
            return true;
        }
        i = i + 1;
    }
    false
}

/// The category of junk that a system directory holds, where it is one that may be
/// cleaned.
pub fn category_of_target(target: &str) -> (r: Option<JunkCategory>)
    ensures
        r == target_category(target@),
{
    if list_has(&oem_log_list(), target) {
        Some(JunkCategory::OemLog)
    } else if list_has(&crash_dump_list(), target) {
        Some(JunkCategory::CrashDump)
    } else if list_has(&staged_apk_list(), target) || text::same_text(target, "/data/local/tmp") {
        Some(JunkCategory::TempApk)
    } else {
        None
    }
}

/// Every system directory to clean has a category.
pub proof fn law_targets_have_a_category(rules: CleaningRulesConfig, target: Seq<char>)
    requires
        RuleEngine::junk_targets(rules).contains(target),
    ensures
        target_category(target) is Some,
{
    let all = RuleEngine::junk_targets(rules);
    let i = choose|i: int| 0 <= i < all.len() && all[i] == target;
    let logs = if rules.clean_oem_logs {
        oem_log_roots()
    } else {
        Seq::empty()
    };
    let dumps = if rules.clean_crash_dumps {
        crash_dump_roots()
    } else {
        Seq::empty()
    };
    if i < logs.len() {
        assert(oem_log_roots()[i] == target);
    } else if i < logs.len() + dumps.len() {
        assert(crash_dump_roots()[i - logs.len()] == target);
    } else {
        let packages = staged_apk_roots().push("/data/local/tmp"@);
        let k = i - logs.len() - dumps.len();
        assert(packages[k] == target);
        if k < staged_apk_roots().len() {
            assert(staged_apk_roots()[k] == target);
        }
    }
}

/// The configuration and the mode allow junk of this category to be deleted.
pub open spec fn category_allowed(
    rules: CleaningRulesConfig,
    mode: SafetyMode,
    category: JunkCategory,
) -> bool {
    match category {
        JunkCategory::AppCache => rules.clean_app_cache,
        JunkCategory::WebViewCache => rules.clean_webview_cache && mode != SafetyMode::Safe,
        JunkCategory::ImageCache => rules.clean_image_caches && mode != SafetyMode::Safe,
        JunkCategory::Thumbnail => rules.clean_thumbnails && mode != SafetyMode::Safe,
        JunkCategory::CodeCache => rules.clean_code_cache && mode == SafetyMode::Aggressive,
        JunkCategory::OemLog => rules.clean_oem_logs && mode == SafetyMode::Aggressive,
        JunkCategory::CrashDump => rules.clean_crash_dumps && mode == SafetyMode::Aggressive,
        JunkCategory::TempApk => rules.clean_temp_apks && mode == SafetyMode::Aggressive,
    }
}

/// Nothing below an immutable partition is ever deleted, whatever is configured.
pub proof fn law_system_is_never_deleted(engine: RuleEngine, path: Seq<char>, is_file: bool)
    requires
        is_under_one_of(path, system_roots()),
    ensures
        engine.verdict_on(path, is_file) is Skip,
{
}

/// A path with a protected directory name among its components is never deleted.
pub proof fn law_protected_is_never_deleted(
    engine: RuleEngine,
    name: Seq<char>,
    path: Seq<char>,
    is_file: bool,
)
    requires
        text::texts(engine.spec_safety().protected_directory_names@).contains(name),
        paths::components(path).contains(name),
    ensures
        engine.verdict_on(path, is_file) is Skip,
{
    lemma_protected_found(path, text::texts(engine.spec_safety().protected_directory_names@), name);
}

proof fn lemma_protected_found(path: Seq<char>, names: Seq<Seq<char>>, name: Seq<char>)
    requires
        names.contains(name),
        paths::components(path).contains(name),
    ensures
        first_protected(path, names) is Some,
    decreases names.len(),
{
    if names[0] != name {
        let i = choose|i: int| 0 <= i < names.len() && names[i] == name;
        assert(names.drop_first()[i - 1] == name);
        lemma_protected_found(path, names.drop_first(), name);
    }
}

/// A path that touches a whitelisted package is never deleted.
pub proof fn law_whitelisted_is_never_deleted(
    engine: RuleEngine,
    package: Seq<char>,
    path: Seq<char>,
    is_file: bool,
)
    requires
        text::texts(engine.spec_safety().whitelist_packages@).contains(package),
        touches_package(path, package),
    ensures
        engine.verdict_on(path, is_file) is Skip,
{
    lemma_whitelisted_found(path, text::texts(engine.spec_safety().whitelist_packages@), package);
}

proof fn lemma_whitelisted_found(path: Seq<char>, packages: Seq<Seq<char>>, package: Seq<char>)
    requires
        packages.contains(package),
        touches_package(path, package),
    ensures
        first_whitelisted(path, packages) is Some,
    decreases packages.len(),
{
    if packages[0] != package {
        let i = choose|i: int| 0 <= i < packages.len() && packages[i] == package;
        assert(packages.drop_first()[i - 1] == package);
        lemma_whitelisted_found(path, packages.drop_first(), package);
    }
}

/// Whatever is deleted belongs to a category that the configuration and the mode
/// allow.
pub proof fn law_only_allowed_categories_are_deleted(
    engine: RuleEngine,
    path: Seq<char>,
    is_file: bool,
)
    ensures
        engine.verdict_on(path, is_file) matches Verdict::Delete(category, _) ==> category_allowed(
            engine.spec_rules(),
            engine.spec_safety().mode,
            category,
        ),
{
}

/// In safe mode nothing but application caches is deleted.
pub proof fn law_safe_mode_deletes_app_caches_only(
    engine: RuleEngine,
    path: Seq<char>,
    is_file: bool,
)
    requires
        engine.spec_safety().mode == SafetyMode::Safe,
    ensures
        engine.verdict_on(path, is_file) matches Verdict::Delete(category, _) ==> category
            == JunkCategory::AppCache,
{
}

/// Compiled code stays in every mode but the aggressive one, where it takes a
/// setting of its own to delete it.
pub proof fn law_code_cache_is_protected(engine: RuleEngine, path: Seq<char>, is_file: bool)
    requires
        is_code_cache(path),
        engine.spec_safety().mode != SafetyMode::Aggressive
            || !engine.spec_rules().clean_code_cache,
    ensures
        engine.verdict_on(path, is_file) is Skip,
{
}

fn push_all(list: &mut Vec<&'static str>, more: &[&'static str])
    ensures
        text::literals(final(list)@) == text::literals(old(list)@) + text::literals(more@),
{
    let mut i: usize = 0;
    let ghost before = list@;
    while i < more.len()
        invariant
            i <= more.len(),
            list@ == before + more@.subrange(0, i as int),
        decreases more.len() - i,
    {
        list.push(more[i]);
        i = i + 1;
        assert(list@ =~= before + more@.subrange(0, i as int));
    }
    assert(list@ =~= before + more@);
    assert(text::literals(list@) =~= text::literals(before) + text::literals(more@));
}

/// A component of the path is one of `names`.
pub open spec fn names_one(path: Seq<char>, names: Seq<Seq<char>>) -> bool {
    exists|k: int|
        0 <= k < paths::components(path).len() && names.contains(
            #[trigger] paths::components(path)[k],
        )
}

/// The components of one of `roots` are the first components of the path.
pub open spec fn begins_at_one(path: Seq<char>, roots: Seq<Seq<char>>) -> bool {
    exists|root: Seq<char>| #[trigger]
        roots.contains(root) && paths::components(root).is_prefix_of(paths::components(path))
}

/// What tells the junk of a category: the name of a component, an ending, a part of the
/// path, or the directory that it stands below.
pub open spec fn bears_mark_of(path: Seq<char>, category: JunkCategory) -> bool {
    match category {
        JunkCategory::CodeCache => names_one(
            path,
            seq!["code_cache"@, "oat"@, "dalvik-cache"@],
        ) || text::ends_in_one(path, seq![".prof"@, ".cur.prof"@, ".profm"@, ".art"@, ".odex"@, ".vdex"@]),
        JunkCategory::WebViewCache => text::holds_one(
            path,
            seq![
                "app_webview/Default/Cache"@,
                "app_webview/Default/Code Cache"@,
                "app_webview/Default/GPUCache"@,
                "app_webview/Default/Service Worker/CacheStorage"@,
                "app_webview/Default/Service Worker/ScriptCache"@,
                "org.chromium.android_webview"@,
                "app_textures"@,
                "splash_cache"@,
            ],
        ),
        JunkCategory::ImageCache => names_one(
            path,
            seq![
                "image_cache"@,
                "fresco_cache"@,
                "glide_cache"@,
                "coil_cache"@,
                "http-engine-cache"@,
                "picasso-cache"@,
                "volley"@,
                "disk_cache"@,
                "network_cache"@,
            ],
        ),
        JunkCategory::AppCache => names_one(path, seq!["cache"@, "app_cache"@]),
        JunkCategory::Thumbnail => names_one(
            path,
            seq![
                ".thumbnails"@,
                ".thumb"@,
                ".thumbcache"@,
                ".video_thumbnails"@,
                ".albumthumbs"@,
                "micro_thumbnail"@,
            ],
        ),
        JunkCategory::OemLog => begins_at_one(
            path,
            seq![
                "/data/miui"@,
                "/data/mqsas"@,
                "/data/system/theme_magic"@,
                "/data/log"@,
                "/data/sec_log"@,
                "/data/slog"@,
                "/data/oppo/log"@,
                "/data/oplus/log"@,
                "/data/vendor/oppo/log"@,
                "/data/vivo-apps/cache"@,
                "/data/vendor/mtklog"@,
                "/data/vendor/qcom"@,
                "/data/vendor/ramdump"@,
                "/data/vendor/connsys"@,
                "/data/log/hilog"@,
            ],
        ),
        JunkCategory::CrashDump => begins_at_one(
            path,
            seq!["/data/tombstones"@, "/data/anr"@, "/data/system/dropbox"@],
        ),
        JunkCategory::TempApk => begins_at_one(
            path,
            seq!["/data/app-staging"@, "/data/system/package_cache"@, "/data/local/tmp"@],
        ),
    }
}

/// The path looks like a log by its ending or by a directory that it stands in.
pub open spec fn bears_mark_of_a_log(path: Seq<char>) -> bool {
    text::ends_in_one(path, seq![".log"@, ".txt"@, ".old"@, ".trace"@, ".dump"@, ".gz"@]) || text::holds_one(
        path,
        seq!["/log/"@, "/logs/"@, "/mobilelog/"@, "/netlog/"@, "/connsyslog/"@],
    )
}

/// The path stands on a partition that is never touched.
pub open spec fn stands_on_a_partition(path: Seq<char>) -> bool {
    begins_at_one(
        path,
        seq![
            "/system"@,
            "/vendor"@,
            "/apex"@,
            "/product"@,
            "/system_ext"@,
            "/etc"@,
            "/proc"@,
            "/sys"@,
            "/dev"@,
        ],
    )
}

/// A component of the path is the name of the package, or that name followed by a dot
/// and more.
pub open spec fn leads_to_package(path: Seq<char>, package: Seq<char>) -> bool {
    exists|k: int|
        #![trigger paths::components(path)[k]]
        0 <= k < paths::components(path).len() && (paths::components(path)[k] == package || (
        paths::components(path)[k].len() > package.len() && paths::components(path)[k].take(
            package.len() as int,
        ) == package && paths::components(path)[k][package.len() as int] == '.'))
}

/// Nothing keeps the path: no partition, no protected name, no package.
pub open spec fn stands_free(engine: RuleEngine, path: Seq<char>) -> bool {
    &&& !stands_on_a_partition(path)
    &&& forall|name: Seq<char>|
        text::texts(engine.spec_safety().protected_directory_names@).contains(name)
            ==> !(#[trigger] paths::components(path).contains(name))
    &&& forall|package: Seq<char>|
        text::texts(engine.spec_safety().whitelist_packages@).contains(package)
            ==> !#[trigger] leads_to_package(path, package)
}

proof fn lemma_names_one(path: Seq<char>, names: Seq<Seq<char>>)
    ensures
        names_one(path, names) <==> has_component_of(path, names),
{
    let parts = paths::components(path);
    if names_one(path, names) {
        let k = choose|k: int| 0 <= k < parts.len() && names.contains(#[trigger] parts[k]);
        let i = choose|i: int| 0 <= i < names.len() && names[i] == parts[k];
        assert(parts.contains(names[i]));
    }
    if has_component_of(path, names) {
        let i = choose|i: int| 0 <= i < names.len() && parts.contains(#[trigger] names[i]);
        let k = choose|k: int| 0 <= k < parts.len() && parts[k] == names[i];
        assert(names.contains(parts[k]));
    }
}

proof fn lemma_begins_at_one(path: Seq<char>, roots: Seq<Seq<char>>)
    ensures
        begins_at_one(path, roots) <==> is_under_one_of(path, roots),
{
    if begins_at_one(path, roots) {
        let root = choose|root: Seq<char>| #[trigger]
            roots.contains(root) && paths::components(root).is_prefix_of(paths::components(path));
        let i = choose|i: int| 0 <= i < roots.len() && roots[i] == root;
        assert(paths::is_under(path, roots[i]));
    }
    if is_under_one_of(path, roots) {
        let i = choose|i: int| 0 <= i < roots.len() && paths::is_under(path, #[trigger] roots[i]);
        assert(roots.contains(roots[i]));
    }
}

proof fn lemma_leads_to_package(path: Seq<char>, package: Seq<char>)
    ensures
        leads_to_package(path, package) <==> touches_package(path, package),
{
    let parts = paths::components(path);
    if leads_to_package(path, package) {
        let k = choose|k: int|
            #![trigger parts[k]]
            0 <= k < parts.len() && (parts[k] == package || (parts[k].len() > package.len()
                && parts[k].take(package.len() as int) == package
                && parts[k][package.len() as int] == '.'));
        if parts[k] != package {
            assert(parts[k].subrange(0, package.len() as int + 1) =~= package.push('.')) by {
                assert(parts[k].take(package.len() as int) =~= package);
                assert forall|j: int| 0 <= j < package.len() implies parts[k][j] == package[j] by {
                    assert(parts[k].take(package.len() as int)[j] == package[j]);
                }
            }
        }
        assert(belongs_to(parts[k], package));
    }
    if touches_package(path, package) {
        let k = choose|k: int| 0 <= k < parts.len() && belongs_to(#[trigger] parts[k], package);
        if parts[k] != package {
            let lead = package.push('.');
            assert(parts[k].subrange(0, lead.len() as int) == lead);
            assert(parts[k].take(package.len() as int) =~= package) by {
                assert forall|j: int| 0 <= j < package.len() implies parts[k][j] == package[j] by {
                    assert(parts[k].subrange(0, lead.len() as int)[j] == lead[j]);
                }
            }
            assert(parts[k][package.len() as int] == parts[k].subrange(0, lead.len() as int)[
                package.len() as int
            ]);
        }
    }
}

proof fn lemma_first_protected(path: Seq<char>, names: Seq<Seq<char>>)
    ensures
        first_protected(path, names) is Some <==> exists|name: Seq<char>|
            names.contains(name) && #[trigger] paths::components(path).contains(name),
        first_protected(path, names) matches Some(name) ==> names.contains(name)
            && paths::components(path).contains(name),
    decreases names.len(),
{
    if names.len() > 0 {
        lemma_first_protected(path, names.drop_first());
        assert(names.contains(names[0]));
        assert forall|name: Seq<char>| names.drop_first().contains(name) implies names.contains(
            name,
        ) by {
            let i = choose|i: int|
                0 <= i < names.drop_first().len() && names.drop_first()[i] == name;
            assert(names[i + 1] == name);
        }
        assert forall|name: Seq<char>|
            names.contains(name) && name != names[0] implies names.drop_first().contains(name) by {
            let i = choose|i: int| 0 <= i < names.len() && names[i] == name;
            assert(names.drop_first()[i - 1] == name);
        }
    }
}

proof fn lemma_first_whitelisted(path: Seq<char>, packages: Seq<Seq<char>>)
    ensures
        first_whitelisted(path, packages) is Some <==> exists|package: Seq<char>|
            packages.contains(package) && #[trigger] leads_to_package(path, package),
        first_whitelisted(path, packages) matches Some(package) ==> packages.contains(package)
            && leads_to_package(path, package),
    decreases packages.len(),
{
    if packages.len() > 0 {
        lemma_first_whitelisted(path, packages.drop_first());
        lemma_leads_to_package(path, packages[0]);
        assert(packages.contains(packages[0]));
        assert forall|p: Seq<char>| packages.drop_first().contains(p) implies packages.contains(
            p,
        ) by {
            let i = choose|i: int|
                0 <= i < packages.drop_first().len() && packages.drop_first()[i] == p;
            assert(packages[i + 1] == p);
        }
        assert forall|p: Seq<char>|
            packages.contains(p) && p != packages[0] implies packages.drop_first().contains(p) by {
            let i = choose|i: int| 0 <= i < packages.len() && packages[i] == p;
            assert(packages.drop_first()[i - 1] == p);
        }
    }
}

proof fn lemma_marks(path: Seq<char>)
    ensures
        bears_mark_of(path, JunkCategory::CodeCache) <==> is_code_cache(path),
        bears_mark_of(path, JunkCategory::WebViewCache) <==> is_webview_cache(path),
        bears_mark_of(path, JunkCategory::ImageCache) <==> is_image_cache(path),
        bears_mark_of(path, JunkCategory::AppCache) <==> is_app_cache(path),
        bears_mark_of(path, JunkCategory::Thumbnail) <==> is_thumbnail(path),
        bears_mark_of(path, JunkCategory::OemLog) <==> is_under_one_of(path, oem_log_roots()),
        bears_mark_of(path, JunkCategory::CrashDump) <==> is_under_one_of(path, crash_dump_roots()),
        bears_mark_of(path, JunkCategory::TempApk) <==> is_under_one_of(path, staged_apk_roots())
            || paths::is_under(path, "/data/local/tmp"@),
        bears_mark_of_a_log(path) <==> looks_like_log(path),
        stands_on_a_partition(path) <==> is_under_one_of(path, system_roots()),
{
    lemma_names_one(path, seq!["code_cache"@, "oat"@, "dalvik-cache"@]);
    text::lemma_ends_in_one(
        path,
        seq![".prof"@, ".cur.prof"@, ".profm"@, ".art"@, ".odex"@, ".vdex"@],
    );
    text::lemma_holds_one(
        path,
        seq![
            "app_webview/Default/Cache"@,
            "app_webview/Default/Code Cache"@,
            "app_webview/Default/GPUCache"@,
            "app_webview/Default/Service Worker/CacheStorage"@,
            "app_webview/Default/Service Worker/ScriptCache"@,
            "org.chromium.android_webview"@,
            "app_textures"@,
            "splash_cache"@,
        ],
    );
    lemma_names_one(
        path,
        seq![
            "image_cache"@,
            "fresco_cache"@,
            "glide_cache"@,
            "coil_cache"@,
            "http-engine-cache"@,
            "picasso-cache"@,
            "volley"@,
            "disk_cache"@,
            "network_cache"@,
        ],
    );
    lemma_names_one(path, seq!["cache"@, "app_cache"@]);
    lemma_names_one(
        path,
        seq![
            ".thumbnails"@,
            ".thumb"@,
            ".thumbcache"@,
            ".video_thumbnails"@,
            ".albumthumbs"@,
            "micro_thumbnail"@,
        ],
    );
    lemma_begins_at_one(path, oem_log_roots());
    lemma_begins_at_one(path, crash_dump_roots());
    lemma_begins_at_one(path, system_roots());
    let temporary = seq!["/data/app-staging"@, "/data/system/package_cache"@, "/data/local/tmp"@];
    lemma_begins_at_one(path, temporary);
    if is_under_one_of(path, temporary) {
        let i = choose|i: int|
            0 <= i < temporary.len() && paths::is_under(path, #[trigger] temporary[i]);
        if i < 2 {
            assert(staged_apk_roots()[i] == temporary[i]);
        }
    }
    if is_under_one_of(path, staged_apk_roots()) {
        let i = choose|i: int|
            0 <= i < staged_apk_roots().len() && paths::is_under(
                path,
                #[trigger] staged_apk_roots()[i],
            );
        assert(temporary[i] == staged_apk_roots()[i]);
    }
    if paths::is_under(path, "/data/local/tmp"@) {
        assert(temporary[2] == "/data/local/tmp"@);
    }
    text::lemma_ends_in_one(path, seq![".log"@, ".txt"@, ".old"@, ".trace"@, ".dump"@, ".gz"@]);
    text::lemma_holds_one(
        path,
        seq!["/log/"@, "/logs/"@, "/mobilelog/"@, "/netlog/"@, "/connsyslog/"@],
    );
}

proof fn lemma_free(engine: RuleEngine, path: Seq<char>)
    ensures
        stands_free(engine, path) <==> {
            &&& !is_under_one_of(path, system_roots())
            &&& first_protected(
                path,
                text::texts(engine.spec_safety().protected_directory_names@),
            ) is None
            &&& first_whitelisted(
                path,
                text::texts(engine.spec_safety().whitelist_packages@),
            ) is None
        },
{
    lemma_marks(path);
    lemma_first_protected(path, text::texts(engine.spec_safety().protected_directory_names@));
    lemma_first_whitelisted(path, text::texts(engine.spec_safety().whitelist_packages@));
}

/// Whatever is deleted stands free, bears the mark of the category that it is deleted
/// under, and belongs to a category that the settings and the mode let go. A file of a
/// vendor's logs looks like a log, and a file among packages like a package or a part
/// of one.
pub proof fn law_deleted_paths_bear_their_mark(
    engine: &RuleEngine,
    path: &str,
    is_file: bool,
    category: JunkCategory,
    reason: &'static str,
)
    requires
        call_ensures(
            RuleEngine::evaluate_path,
            (engine, path, is_file),
            (Decision::Delete { category, reason }),
        ),
    ensures
        stands_free(*engine, path@),
        bears_mark_of(path@, category),
        category == JunkCategory::OemLog && is_file ==> bears_mark_of_a_log(path@),
        category == JunkCategory::TempApk && is_file ==> text::ends_in_one(
            path@,
            seq![".apk"@, ".tmp"@, ".apks"@, ".xapk"@, ".dex"@, ".apk.tmp"@],
        ),
        ({
            let rules = engine.spec_rules();
            let mode = engine.spec_safety().mode;
            match category {
                JunkCategory::AppCache => rules.clean_app_cache && reason@
                    == "Standard Android application cache directory"@,
                JunkCategory::WebViewCache => rules.clean_webview_cache && mode != SafetyMode::Safe
                    && reason@ == "WebView/Chromium cache artifact"@,
                JunkCategory::ImageCache => rules.clean_image_caches && mode != SafetyMode::Safe
                    && reason@ == "Application image or network cache library folder"@,
                JunkCategory::Thumbnail => rules.clean_thumbnails && mode != SafetyMode::Safe
                    && reason@ == "Media thumbnail cache folder"@,
                JunkCategory::CodeCache => rules.clean_code_cache && mode == SafetyMode::Aggressive
                    && reason@
                    == "ART/JIT code cache enabled in config under aggressive safety mode"@,
                JunkCategory::OemLog => rules.clean_oem_logs && mode == SafetyMode::Aggressive
                    && reason@ == "OEM vendor diagnostic/debug log"@,
                JunkCategory::CrashDump => rules.clean_crash_dumps && mode == SafetyMode::Aggressive
                    && reason@ == "System crash dump or ANR trace"@,
                JunkCategory::TempApk => rules.clean_temp_apks && mode == SafetyMode::Aggressive,
            }
        }),
{
    lemma_free(*engine, path@);
    lemma_marks(path@);
    let staged = seq![".apk"@, ".dex"@, ".tmp"@, ".apk.tmp"@];
    let temp = seq![".apk"@, ".tmp"@, ".apks"@, ".xapk"@, ".dex"@];
    let all = seq![".apk"@, ".tmp"@, ".apks"@, ".xapk"@, ".dex"@, ".apk.tmp"@];
    text::lemma_ends_in_one(path@, all);
    if text::ends_with_one_of(path@, staged) {
        let i = choose|i: int|
            0 <= i < staged.len() && text::has_suffix(path@, #[trigger] staged[i]);
        assert(all[0] == staged[0] && all[4] == staged[1] && all[1] == staged[2] && all[5]
            == staged[3]);
        assert(i == 0 || i == 1 || i == 2 || i == 3);
    }
    if text::ends_with_one_of(path@, temp) {
        let i = choose|i: int| 0 <= i < temp.len() && text::has_suffix(path@, #[trigger] temp[i]);
        assert(all[i] == temp[i]);
    }
}

/// A path that bears the mark of no category is not recognized as junk, unless something
/// keeps it.
pub proof fn law_unmarked_paths_stay(engine: &RuleEngine, path: &str, is_file: bool, r: Decision)
    requires
        call_ensures(RuleEngine::evaluate_path, (engine, path, is_file), r),
        forall|category: JunkCategory| !#[trigger] bears_mark_of(path@, category),
    ensures
        r is Skip,
        stands_free(*engine, path@) <==> r@ == Verdict::Skip(Excuse::NotRecognizedAsJunk),
{
    lemma_free(*engine, path@);
    lemma_marks(path@);
    assert(!bears_mark_of(path@, JunkCategory::CodeCache));
    assert(!bears_mark_of(path@, JunkCategory::WebViewCache));
    assert(!bears_mark_of(path@, JunkCategory::ImageCache));
    assert(!bears_mark_of(path@, JunkCategory::AppCache));
    assert(!bears_mark_of(path@, JunkCategory::Thumbnail));
    assert(!bears_mark_of(path@, JunkCategory::OemLog));
    assert(!bears_mark_of(path@, JunkCategory::CrashDump));
    assert(!bears_mark_of(path@, JunkCategory::TempApk));
}

/// Of the caches, compiled code comes first, then those of web views, of image
/// libraries and of the application itself, then thumbnails. A path that stands free and
/// bears the mark of one of these, and of none before it, is deleted under that category
/// exactly where its setting is on and the mode reaches it; else the setting or the mode
/// is named.
pub proof fn law_marked_caches_go(engine: &RuleEngine, path: &str, is_file: bool, r: Decision)
    requires
        call_ensures(RuleEngine::evaluate_path, (engine, path, is_file), r),
        stands_free(*engine, path@),
    ensures
        ({
            let rules = engine.spec_rules();
            let mode = engine.spec_safety().mode;
            let code = bears_mark_of(path@, JunkCategory::CodeCache);
            let web = bears_mark_of(path@, JunkCategory::WebViewCache);
            let image = bears_mark_of(path@, JunkCategory::ImageCache);
            let app = bears_mark_of(path@, JunkCategory::AppCache);
            let thumb = bears_mark_of(path@, JunkCategory::Thumbnail);
            &&& code ==> if rules.clean_code_cache && mode == SafetyMode::Aggressive {
                r matches Decision::Delete { category, .. } && category == JunkCategory::CodeCache
            } else {
                r@ == Verdict::Skip(Excuse::CodeCacheProtected)
            }
            &&& web && !code ==> if mode == SafetyMode::Safe {
                r@ == Verdict::Skip(
                    Excuse::DisabledByConfig("webview_cache_disabled_in_safe_mode"@),
                )
            } else if rules.clean_webview_cache {
                r matches Decision::Delete { category, .. } && category
                    == JunkCategory::WebViewCache
            } else {
                r@ == Verdict::Skip(Excuse::DisabledByConfig("clean_webview_cache"@))
            }
            &&& image && !code && !web ==> if mode == SafetyMode::Safe {
                r@ == Verdict::Skip(Excuse::DisabledByConfig("image_caches_disabled_in_safe_mode"@))
            } else if rules.clean_image_caches {
                r matches Decision::Delete { category, .. } && category == JunkCategory::ImageCache
            } else {
                r@ == Verdict::Skip(Excuse::DisabledByConfig("clean_image_caches"@))
            }
            &&& app && !code && !web && !image ==> if rules.clean_app_cache {
                r matches Decision::Delete { category, .. } && category == JunkCategory::AppCache
            } else {
                r@ == Verdict::Skip(Excuse::DisabledByConfig("clean_app_cache"@))
            }
            &&& thumb && !code && !web && !image && !app ==> if mode == SafetyMode::Safe {
                r@ == Verdict::Skip(Excuse::DisabledByConfig("thumbnails_disabled_in_safe_mode"@))
            } else if rules.clean_thumbnails {
                r matches Decision::Delete { category, .. } && category == JunkCategory::Thumbnail
            } else {
                r@ == Verdict::Skip(Excuse::DisabledByConfig("clean_thumbnails"@))
            }
        }),
{
    lemma_free(*engine, path@);
    lemma_marks(path@);
}

/// A path that stands free and bears the mark of no cache: below the directories of
/// vendors' logs and of crash dumps it goes in aggressive mode, where its setting is on.
/// Of logs every directory goes, but of files only what looks like a log.
pub proof fn law_marked_logs_and_dumps_go(
    engine: &RuleEngine,
    path: &str,
    is_file: bool,
    r: Decision,
)
    requires
        call_ensures(RuleEngine::evaluate_path, (engine, path, is_file), r),
        stands_free(*engine, path@),
        !bears_mark_of(path@, JunkCategory::CodeCache),
        !bears_mark_of(path@, JunkCategory::WebViewCache),
        !bears_mark_of(path@, JunkCategory::ImageCache),
        !bears_mark_of(path@, JunkCategory::AppCache),
        !bears_mark_of(path@, JunkCategory::Thumbnail),
    ensures
        ({
            let rules = engine.spec_rules();
            let aggressive = engine.spec_safety().mode == SafetyMode::Aggressive;
            let log = bears_mark_of(path@, JunkCategory::OemLog);
            let dump = bears_mark_of(path@, JunkCategory::CrashDump);
            &&& log && !aggressive ==> r@ == Verdict::Skip(
                Excuse::DisabledByConfig("oem_logs_require_aggressive_mode"@),
            )
            &&& log && aggressive && !rules.clean_oem_logs ==> r@ == Verdict::Skip(
                Excuse::DisabledByConfig("clean_oem_logs"@),
            )
            &&& log && aggressive && rules.clean_oem_logs && (!is_file || bears_mark_of_a_log(
                path@,
            )) ==> (r matches Decision::Delete { category, .. } && category == JunkCategory::OemLog)
            &&& dump && !log && !aggressive ==> r@ == Verdict::Skip(
                Excuse::DisabledByConfig("crash_dumps_require_aggressive_mode"@),
            )
            &&& dump && !log && aggressive && !rules.clean_crash_dumps ==> r@ == Verdict::Skip(
                Excuse::DisabledByConfig("clean_crash_dumps"@),
            )
            &&& dump && !log && aggressive && rules.clean_crash_dumps ==> (
            r matches Decision::Delete { category, .. } && category == JunkCategory::CrashDump)
        }),
{
    lemma_free(*engine, path@);
    lemma_marks(path@);
}

/// A path that stands free and bears no other mark: below the directories of packages
/// it goes in aggressive mode, where the setting is on, but of files only those that
/// look like a package or a part of one. In the shell's temporary directory nothing else
/// goes at all.
pub proof fn law_marked_packages_go(engine: &RuleEngine, path: &str, is_file: bool, r: Decision)
    requires
        call_ensures(RuleEngine::evaluate_path, (engine, path, is_file), r),
        stands_free(*engine, path@),
        forall|category: JunkCategory|
            category != JunkCategory::TempApk ==> !#[trigger] bears_mark_of(path@, category),
    ensures
        ({
            let rules = engine.spec_rules();
            let aggressive = engine.spec_safety().mode == SafetyMode::Aggressive;
            let staged = begins_at_one(
                path@,
                seq!["/data/app-staging"@, "/data/system/package_cache"@],
            );
            let temporary = paths::is_under(path@, "/data/local/tmp"@);
            &&& (staged || temporary) && !aggressive ==> r@ == Verdict::Skip(
                Excuse::DisabledByConfig("temp_apks_require_aggressive_mode"@),
            )
            &&& staged && aggressive && !rules.clean_temp_apks ==> r@ == Verdict::Skip(
                Excuse::DisabledByConfig("clean_temp_apks"@),
            )
            &&& staged && aggressive && rules.clean_temp_apks ==> if !is_file || text::ends_in_one(
                path@,
                seq![".apk"@, ".dex"@, ".tmp"@, ".apk.tmp"@],
            ) {
                r@ == Verdict::Delete(
                    JunkCategory::TempApk,
                    "Temporary APK installation session artifact"@,
                )
            } else {
                r@ == Verdict::Skip(Excuse::NotRecognizedAsJunk)
            }
            &&& temporary && !staged && aggressive ==> if !text::ends_in_one(
                path@,
                seq![".apk"@, ".tmp"@, ".apks"@, ".xapk"@, ".dex"@],
            ) {
                r@ == Verdict::Skip(Excuse::NotRecognizedAsJunk)
            } else if rules.clean_temp_apks {
                r@ == Verdict::Delete(
                    JunkCategory::TempApk,
                    "Temporary APK or DEX artifact in /data/local/tmp"@,
                )
            } else {
                r@ == Verdict::Skip(Excuse::DisabledByConfig("clean_temp_apks"@))
            }
        }),
{
    lemma_free(*engine, path@);
    lemma_marks(path@);
    assert(!bears_mark_of(path@, JunkCategory::CodeCache));
    assert(!bears_mark_of(path@, JunkCategory::WebViewCache));
    assert(!bears_mark_of(path@, JunkCategory::ImageCache));
    assert(!bears_mark_of(path@, JunkCategory::AppCache));
    assert(!bears_mark_of(path@, JunkCategory::Thumbnail));
    assert(!bears_mark_of(path@, JunkCategory::OemLog));
    assert(!bears_mark_of(path@, JunkCategory::CrashDump));
    assert(r@ == late_verdict(engine.spec_rules(), engine.spec_safety().mode, path@, is_file));
    lemma_begins_at_one(path@, staged_apk_roots());
    text::lemma_ends_in_one(path@, seq![".apk"@, ".dex"@, ".tmp"@, ".apk.tmp"@]);
    text::lemma_ends_in_one(path@, seq![".apk"@, ".tmp"@, ".apks"@, ".xapk"@, ".dex"@]);
}

/// What keeps a path is named: the partition, or a protected name of the configuration
/// that is a component of the path, or a whitelisted package that the path leads to; and
/// whatever does not stand free is kept.
pub proof fn law_kept_paths_tell_why(engine: &RuleEngine, path: &str, is_file: bool, r: Decision)
    requires
        call_ensures(RuleEngine::evaluate_path, (engine, path, is_file), r),
    ensures
        stands_on_a_partition(path@) ==> r@ == Verdict::Skip(
            Excuse::ProtectedDirectory("system_immutable_partition"@),
        ),
        !stands_on_a_partition(path@) ==> {
            &&& r@ matches Verdict::Skip(Excuse::ProtectedDirectory(name)) ==> text::texts(
                engine.spec_safety().protected_directory_names@,
            ).contains(name) && paths::components(path@).contains(name)
            &&& r@ matches Verdict::Skip(Excuse::WhitelistedPackage(package)) ==> text::texts(
                engine.spec_safety().whitelist_packages@,
            ).contains(package) && leads_to_package(path@, package)
        },
        !stands_free(*engine, path@) <==> (r@ matches Verdict::Skip(excuse) && (
        excuse is ProtectedDirectory || excuse is WhitelistedPackage)),
{
    lemma_free(*engine, path@);
    lemma_marks(path@);
    lemma_first_protected(path@, text::texts(engine.spec_safety().protected_directory_names@));
    lemma_first_whitelisted(path@, text::texts(engine.spec_safety().whitelist_packages@));
}

/// The kind of a path is the category that it is deleted under, and none where it stays.
pub proof fn law_kind_is_the_category(
    engine: &RuleEngine,
    path: &str,
    is_file: bool,
    decision: Decision,
    kind: JunkType,
    category: Option<JunkCategory>,
)
    requires
        call_ensures(RuleEngine::evaluate_path, (engine, path, is_file), decision),
        call_ensures(RuleEngine::classify_path, (engine, path, is_file), kind),
        call_ensures(Decision::category, (&decision,), category),
    ensures
        kind == JunkType::Ignored <==> decision is Skip,
        category is None <==> decision is Skip,
        kind == JunkType::AppCache <==> category == Some(JunkCategory::AppCache),
        kind == JunkType::WebViewCache <==> category == Some(JunkCategory::WebViewCache),
        kind == JunkType::ImageCache <==> category == Some(JunkCategory::ImageCache),
        kind == JunkType::Thumbnail <==> category == Some(JunkCategory::Thumbnail),
        kind == JunkType::CodeCache <==> category == Some(JunkCategory::CodeCache),
        kind == JunkType::OemLog <==> category == Some(JunkCategory::OemLog),
        kind == JunkType::CrashDump <==> category == Some(JunkCategory::CrashDump),
        kind == JunkType::TempApk <==> category == Some(JunkCategory::TempApk),
        decision matches Decision::Delete { category: c, .. } ==> category == Some(c),
{
}

/// The engine keeps the rules that it was made with, and decides as the rules themselves
/// do.
pub proof fn law_engine_decides_by_its_rules(
    rules: CleaningRulesConfig,
    safety: SafetyConfig,
    engine: RuleEngine,
    path: &str,
    is_file: bool,
    by_engine: Decision,
    by_rules: Decision,
)
    requires
        call_ensures(RuleEngine::new, (rules, safety), engine),
        call_ensures(RuleEngine::evaluate_path, (&engine, path, is_file), by_engine),
        call_ensures(evaluate, (&rules, &safety, path, is_file), by_rules),
    ensures
        engine.spec_rules() == rules,
        engine.spec_safety() == safety,
        by_engine@ == by_rules@,
{
}

/// The system directories to clean are those of the settings that are on, and each is
/// known by the category of its setting.
pub proof fn law_targets_follow_the_settings(
    engine: &RuleEngine,
    targets: Vec<&'static str>,
    target: &str,
    category: Option<JunkCategory>,
)
    requires
        call_ensures(RuleEngine::get_system_junk_targets, (engine,), targets),
        call_ensures(category_of_target, (target,), category),
    ensures
        ({
            let logs = seq![
                "/data/miui"@,
                "/data/mqsas"@,
                "/data/system/theme_magic"@,
                "/data/log"@,
                "/data/sec_log"@,
                "/data/slog"@,
                "/data/oppo/log"@,
                "/data/oplus/log"@,
                "/data/vendor/oppo/log"@,
                "/data/vivo-apps/cache"@,
                "/data/vendor/mtklog"@,
                "/data/vendor/qcom"@,
                "/data/vendor/ramdump"@,
                "/data/vendor/connsys"@,
                "/data/log/hilog"@,
            ].contains(target@);
            let dumps = seq![
                "/data/tombstones"@,
                "/data/anr"@,
                "/data/system/dropbox"@,
            ].contains(target@);
            let packages = seq![
                "/data/app-staging"@,
                "/data/system/package_cache"@,
                "/data/local/tmp"@,
            ].contains(target@);
            let rules = engine.spec_rules();
            &&& text::literals(targets@).contains(target@) <==> (rules.clean_oem_logs && logs) || (
            rules.clean_crash_dumps && dumps) || (rules.clean_temp_apks && packages)
            &&& logs ==> category == Some(JunkCategory::OemLog)
            &&& dumps && !logs ==> category == Some(JunkCategory::CrashDump)
            &&& packages && !logs && !dumps ==> category == Some(JunkCategory::TempApk)
            &&& !logs && !dumps && !packages ==> category is None
        }),
{
    let rules = engine.spec_rules();
    let logs = if rules.clean_oem_logs {
        oem_log_roots()
    } else {
        Seq::empty()
    };
    let dumps = if rules.clean_crash_dumps {
        crash_dump_roots()
    } else {
        Seq::empty()
    };
    let three = staged_apk_roots().push("/data/local/tmp"@);
    let packages = if rules.clean_temp_apks {
        three
    } else {
        Seq::empty()
    };
    assert(three =~= seq!["/data/app-staging"@, "/data/system/package_cache"@, "/data/local/tmp"@]);
    assert(three.contains(target@) <==> staged_apk_roots().contains(target@) || target@
        == "/data/local/tmp"@) by {
        if staged_apk_roots().contains(target@) {
            let i = choose|i: int|
                0 <= i < staged_apk_roots().len() && staged_apk_roots()[i] == target@;
            assert(three[i] == target@);
        }
        if target@ == "/data/local/tmp"@ {
            assert(three[2] == target@);
        }
        if three.contains(target@) {
            let i = choose|i: int| 0 <= i < three.len() && three[i] == target@;
            if i < 2 {
                assert(staged_apk_roots()[i] == target@);
            }
        }
    }
    lemma_contains_of_sum(logs, dumps, target@);
    lemma_contains_of_sum(logs + dumps, packages, target@);
}

proof fn lemma_contains_of_sum(a: Seq<Seq<char>>, b: Seq<Seq<char>>, t: Seq<char>)
    ensures
        (a + b).contains(t) <==> a.contains(t) || b.contains(t),
{
    let sum = a + b;
    if a.contains(t) {
        let i = choose|i: int| 0 <= i < a.len() && a[i] == t;
        assert(sum[i] == t);
    }
    if b.contains(t) {
        let i = choose|i: int| 0 <= i < b.len() && b[i] == t;
        assert(sum[a.len() + i] == t);
    }
    if sum.contains(t) {
        let i = choose|i: int| 0 <= i < sum.len() && sum[i] == t;
        if i < a.len() {
            assert(a[i] == t);
        } else {
            assert(b[i - a.len()] == t);
        }
    }
}

/// A package name is two parts or more with a dot between each and the next; every part
/// holds at least one letter, digit or underscore and nothing else, and the first begins
/// with a letter.
pub proof fn law_package_names_have_parts(name: &str, r: bool)
    requires
        call_ensures(is_valid_package_name, (name,), r),
    ensures
        r <==> exists|parts: Seq<Seq<char>>|
            #![trigger text::joined_by(parts, seq!['.'])]
            {
                &&& parts.len() >= 2
                &&& text::joined_by(parts, seq!['.']) == name@
                &&& forall|i: int, j: int|
                    #![trigger parts[i][j]]
                    0 <= i < parts.len() && 0 <= j < parts[i].len() ==> 'a' <= parts[i][j] <= 'z'
                        || 'A' <= parts[i][j] <= 'Z' || '0' <= parts[i][j] <= '9' || parts[i][j]
                        == '_'
                &&& forall|i: int| 0 <= i < parts.len() ==> (#[trigger] parts[i]).len() > 0
                &&& 'a' <= parts[0][0] <= 'z' || 'A' <= parts[0][0] <= 'Z'
            },
{
    let pieces = text::split_on(name@, '.');
    text::law_pieces_make_up_the_text(name@, '.');
    if r {
        assert(text::joined_by(pieces, seq!['.']) == name@);
        assert forall|i: int, j: int|
            #![trigger pieces[i][j]]
            0 <= i < pieces.len() && 0 <= j < pieces[i].len() implies 'a' <= pieces[i][j] <= 'z'
            || 'A' <= pieces[i][j] <= 'Z' || '0' <= pieces[i][j] <= '9' || pieces[i][j] == '_' by {
            assert(is_name_part(pieces[i]));
            assert(is_name_char(pieces[i][j]));
        }
        assert forall|i: int| 0 <= i < pieces.len() implies (#[trigger] pieces[i]).len() > 0 by {
            assert(is_name_part(pieces[i]));
        }
    }
    if exists|parts: Seq<Seq<char>>|
        #![trigger text::joined_by(parts, seq!['.'])]
        {
            &&& parts.len() >= 2
            &&& text::joined_by(parts, seq!['.']) == name@
            &&& forall|i: int, j: int|
                #![trigger parts[i][j]]
                0 <= i < parts.len() && 0 <= j < parts[i].len() ==> 'a' <= parts[i][j] <= 'z'
                    || 'A' <= parts[i][j] <= 'Z' || '0' <= parts[i][j] <= '9' || parts[i][j] == '_'
            &&& forall|i: int| 0 <= i < parts.len() ==> (#[trigger] parts[i]).len() > 0
            &&& 'a' <= parts[0][0] <= 'z' || 'A' <= parts[0][0] <= 'Z'
        } {
        let parts = choose|parts: Seq<Seq<char>>|
            #![trigger text::joined_by(parts, seq!['.'])]
            {
                &&& parts.len() >= 2
                &&& text::joined_by(parts, seq!['.']) == name@
                &&& forall|i: int, j: int|
                    #![trigger parts[i][j]]
                    0 <= i < parts.len() && 0 <= j < parts[i].len() ==> 'a' <= parts[i][j] <= 'z'
                        || 'A' <= parts[i][j] <= 'Z' || '0' <= parts[i][j] <= '9' || parts[i][j]
                        == '_'
                &&& forall|i: int| 0 <= i < parts.len() ==> (#[trigger] parts[i]).len() > 0
                &&& 'a' <= parts[0][0] <= 'z' || 'A' <= parts[0][0] <= 'Z'
            };
        assert forall|i: int| 0 <= i < parts.len() implies !(#[trigger] parts[i]).contains('.') by {
            if parts[i].contains('.') {
                let j = choose|j: int| 0 <= j < parts[i].len() && parts[i][j] == '.';
                assert(parts[i][j] == '.');
            }
        }
        text::law_parts_come_back(parts, '.');
        assert forall|i: int| 0 <= i < pieces.len() implies is_name_part(#[trigger] pieces[i]) by {
            assert forall|j: int| 0 <= j < pieces[i].len() implies is_name_char(
                #[trigger] pieces[i][j],
            ) by {
                assert(parts[i][j] == pieces[i][j]);
            }
        }
    }
}

/// A decision deletes or skips, and an engine goes by the rules that it was made with.
pub proof fn law_engine_keeps_its_rules(
    d: &Decision,
    deletes: bool,
    rules: CleaningRulesConfig,
    safety: SafetyConfig,
    engine: RuleEngine,
    kept_rules: &CleaningRulesConfig,
    kept_safety: &SafetyConfig,
)
    requires
        call_ensures(Decision::is_delete, (d,), deletes),
        call_ensures(RuleEngine::new, (rules, safety), engine),
        call_ensures(RuleEngine::rules, (&engine,), kept_rules),
        call_ensures(RuleEngine::safety, (&engine,), kept_safety),
    ensures
        *d is Delete ==> deletes,
        *d is Skip ==> !deletes,
        *kept_rules == rules,
        *kept_safety == safety,
{
}

} // verus!
