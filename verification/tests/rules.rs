//! The rules that tell junk from data.
use cache_cleaner_daemon::config::{CleaningRulesConfig, SafetyConfig, SafetyMode};
use cache_cleaner_daemon::engine::rules::{is_valid_package_name, JunkType, RuleEngine};

#[test]
fn test_package_name_validation() {
    assert!(is_valid_package_name("com.whatsapp"));
    assert!(is_valid_package_name("com.android.chrome"));
    assert!(is_valid_package_name("org.chromium.android_webview"));
    assert!(is_valid_package_name("com.example.app_123"));

    assert!(!is_valid_package_name("invalid"));
    assert!(!is_valid_package_name("123.com.test"));
    assert!(!is_valid_package_name("com.test..app"));
    assert!(!is_valid_package_name(""));
}

#[test]
fn test_jit_code_cache_is_strictly_protected_by_default() {
    let rules = CleaningRulesConfig {
        clean_app_cache: true,
        clean_code_cache: false,
        ..Default::default()
    };
    let safety = SafetyConfig::default();
    let engine = RuleEngine::new(rules, safety);

    assert_eq!(
        engine.classify_path("/data/data/com.android.chrome/code_cache", false),
        JunkType::Ignored
    );
    assert_eq!(
        engine.classify_path("/data/user/0/com.whatsapp/code_cache/compiled_view.dex", false),
        JunkType::Ignored
    );
    assert_eq!(
        engine.classify_path("/data/data/com.spotify.music/code_cache/oat/arm64/base.odex", false),
        JunkType::Ignored
    );
    assert_eq!(
        engine.classify_path("/data/misc/profiles/cur/0/com.instagram.android/primary.prof", false),
        JunkType::Ignored
    );
    assert_eq!(
        engine.classify_path("/data/dalvik-cache/arm64/system@framework@boot.art", false),
        JunkType::Ignored
    );
}

#[test]
fn test_app_cache_is_correctly_classified() {
    let rules = CleaningRulesConfig {
        clean_app_cache: true,
        clean_code_cache: false,
        ..Default::default()
    };
    let safety = SafetyConfig::default();
    let engine = RuleEngine::new(rules, safety);

    assert_eq!(
        engine.classify_path("/data/data/com.whatsapp/cache", false),
        JunkType::AppCache
    );
    assert_eq!(
        engine.classify_path("/data/data/com.whatsapp/cache/image_01.jpg", false),
        JunkType::AppCache
    );
    assert_eq!(
        engine.classify_path("/data/media/0/Android/data/com.spotify.music/cache", false),
        JunkType::AppCache
    );
}

#[test]
fn test_package_name_containing_cache_word_is_not_false_positive() {
    let rules = CleaningRulesConfig {
        clean_app_cache: true,
        ..Default::default()
    };
    let safety = SafetyConfig::default();
    let engine = RuleEngine::new(rules, safety);

    assert_eq!(
        engine.classify_path("/data/data/com.geocache.navigator/databases/geocache.db", false),
        JunkType::Ignored
    );
    assert_eq!(
        engine.classify_path("/data/data/com.geocache.navigator/files/userdata.json", false),
        JunkType::Ignored
    );
    assert_eq!(
        engine.classify_path("/data/data/com.geocache.navigator/cache/map_tile_12.png", false),
        JunkType::AppCache
    );
}

#[test]
fn test_app_data_subfolder_with_oem_names_is_not_false_positive() {
    let rules = CleaningRulesConfig {
        clean_oem_logs: true,
        ..Default::default()
    };
    let safety = SafetyConfig {
        mode: SafetyMode::Aggressive,
        ..Default::default()
    };
    let engine = RuleEngine::new(rules, safety);

    assert_eq!(
        engine.classify_path("/data/data/com.example.miui/files/custom_log.txt", false),
        JunkType::Ignored
    );
    assert_eq!(
        engine.classify_path("/data/user/0/com.samsung.custom/files/sec_log/app_data.bin", false),
        JunkType::Ignored
    );
    assert_eq!(
        engine.classify_path("/data/miui/debug_log.txt", false),
        JunkType::OemLog
    );
    assert_eq!(
        engine.classify_path("/data/log/kernel_log.log", false),
        JunkType::OemLog
    );
}

#[test]
fn test_protected_directory_names_cannot_be_deleted() {
    let rules = CleaningRulesConfig::default();
    let safety = SafetyConfig::default();
    let engine = RuleEngine::new(rules, safety);

    assert_eq!(
        engine.classify_path("/data/data/com.whatsapp/databases/msgstore.db", false),
        JunkType::Ignored
    );
    assert_eq!(
        engine.classify_path("/data/data/com.whatsapp/shared_prefs/prefs.xml", false),
        JunkType::Ignored
    );
    assert_eq!(
        engine.classify_path("/data/data/com.whatsapp/files/key_store", false),
        JunkType::Ignored
    );
    assert_eq!(
        engine.classify_path("/data/data/com.whatsapp/lib/libtest.so", false),
        JunkType::Ignored
    );
    assert_eq!(
        engine.classify_path("/data/media/0/Pictures/.nomedia", false),
        JunkType::Ignored
    );

    assert_eq!(
        engine.classify_path("/data/data/com.libra.browser/cache/cached_image.png", false),
        JunkType::AppCache
    );
    assert_eq!(
        engine.classify_path("/data/data/com.delivery.profiles/cache/tile.png", false),
        JunkType::AppCache
    );
    assert_eq!(
        engine.classify_path("/data/data/com.database.explorer/cache/query_cache.bin", false),
        JunkType::AppCache
    );

    assert_eq!(
        engine.classify_path("/data/data/com.libra.browser/databases/bookmarks.db", false),
        JunkType::Ignored
    );
    assert_eq!(
        engine.classify_path("/data/data/com.libra.browser/lib/libengine.so", false),
        JunkType::Ignored
    );
    assert_eq!(
        engine.classify_path("/data/data/com.delivery.profiles/files/user.json", false),
        JunkType::Ignored
    );
}

#[test]
fn test_local_tmp_safety_rules() {
    let rules = CleaningRulesConfig {
        clean_temp_apks: true,
        ..Default::default()
    };
    let safety = SafetyConfig {
        mode: SafetyMode::Aggressive,
        ..Default::default()
    };
    let engine = RuleEngine::new(rules, safety);

    assert_eq!(
        engine.classify_path("/data/local/tmp/base.apk", false),
        JunkType::TempApk
    );
    assert_eq!(
        engine.classify_path("/data/local/tmp/split_config.arm64_v8a.apk", false),
        JunkType::TempApk
    );

    assert_eq!(
        engine.classify_path("/data/local/tmp/cleaner.sock", false),
        JunkType::Ignored
    );
    assert_eq!(
        engine.classify_path("/data/local/tmp/frida-server", false),
        JunkType::Ignored
    );
    assert_eq!(
        engine.classify_path("/data/local/tmp/script.sh", false),
        JunkType::Ignored
    );
}
