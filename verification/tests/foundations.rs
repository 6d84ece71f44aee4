//! Texts, numbers, paths, sorting and the identifiers built on them.
use std::path::Path;
use std::time::{Duration, UNIX_EPOCH};

use cache_cleaner_daemon::assoc::TextMap;
use cache_cleaner_daemon::domain::types::{
    AttemptId, ByteCount, CandidateId, DeviceNumber, FileIdentity, GenerationId, GrantId,
    InodeNumber, JobId, OperationId, PlanId, RelativePath, TargetId, UnixTimestamp, WorkerId,
};
use cache_cleaner_daemon::numerals::{decimal_text, numbered, parse_unsigned};
use cache_cleaner_daemon::paths::{join_path, path_components, path_is_under, same_path, split_leaf};
use cache_cleaner_daemon::sorting::{sort_and_dedup, stable_order, TextKey};
use cache_cleaner_daemon::text::{
    contains_text, cut_text, ends_with_text, join_texts, lines_text, replace_text,
    same_text_but_case, split_not_empty, split_text, starts_with_text, trim_text, words_text,
};

fn owned(list: &[&str]) -> Vec<String> {
    list.iter().map(|s| s.to_string()).collect()
}

#[test]
fn texts_agree_with_the_standard_library() {
    let samples = [
        "", " ", "a", "a b", "  a\tb\n c ", "x=y=z", "\u{85}mid\u{3000}", "line\r\nnext\n",
        "\n\n", "caf\u{e9} \u{1f600}", "a,b,,c,", "no newline\r", "\u{a0}x\u{2003}",
    ];
    for s in samples {
        assert_eq!(trim_text(s), s.trim());
        assert_eq!(words_text(s), s.split_whitespace().collect::<Vec<_>>());
        assert_eq!(lines_text(s), s.lines().collect::<Vec<_>>());
        assert_eq!(split_text(s, ','), s.split(',').collect::<Vec<_>>());
        assert_eq!(
            split_not_empty(s, ','),
            s.split(',').filter(|p| !p.is_empty()).collect::<Vec<_>>()
        );
        assert_eq!(cut_text(s, '='), s.split_once('='));
        assert_eq!(replace_text(s, '/', "__"), s.replace('/', "__"));
        for t in samples {
            assert_eq!(contains_text(s, t), s.contains(t));
            assert_eq!(starts_with_text(s, t), s.starts_with(t));
            assert_eq!(ends_with_text(s, t), s.ends_with(t));
            assert_eq!(same_text_but_case(s, t), s.eq_ignore_ascii_case(t));
        }
    }
    assert!(same_text_but_case("ChArGing", "charging"));
    assert_eq!(join_texts(&owned(&["a", "b", "c"]), ", "), "a, b, c");
    assert_eq!(join_texts(&owned(&["a"]), ", "), "a");
    assert_eq!(join_texts(&Vec::new(), ", "), "");
}

#[test]
fn numerals_read_back() {
    for n in [0u64, 1, 9, 10, 255, 256, 65_535, u32::MAX as u64, u64::MAX] {
        assert_eq!(decimal_text(n), n.to_string());
        assert_eq!(parse_unsigned(&n.to_string(), u64::MAX), Some(n));
        assert_eq!(parse_unsigned(&n.to_string(), 255), n.to_string().parse::<u8>().ok().map(u64::from));
    }
    for s in ["", "+", "+7", "-7", " 7", "7 ", "007", "7a", "99999999999999999999"] {
        assert_eq!(parse_unsigned(s, u64::MAX), s.parse::<u64>().ok());
    }
    assert_eq!(numbered("job-", 12), "job-12");
}

#[test]
fn paths_agree_with_the_standard_library() {
    let samples = [
        "/", "/a", "/a/b", "a/b", "a//b/", "./a", "/a/./b", "", "/a/bc", "..", "/a/..",
    ];
    for p in samples {
        for q in samples {
            assert_eq!(path_is_under(p, q), Path::new(p).starts_with(q), "{} {}", p, q);
            assert_eq!(same_path(p, q), Path::new(p) == Path::new(q), "{} {}", p, q);
            assert!(same_path(&join_path(p, q), Path::new(p).join(q).to_str().unwrap()));
        }
    }
    assert_eq!(path_components("/data//x/./y").last().unwrap(), "y");
    let (parent, leaf) = split_leaf("a/b/c").unwrap();
    assert_eq!((parent, leaf.as_str()), (owned(&["a", "b"]), "c"));
}

#[test]
fn sorting_is_stable() {
    let keys: Vec<TextKey> = ["b", "a", "b", "", "a"]
        .iter()
        .map(|s| TextKey { chars: s.chars().collect() })
        .collect();
    assert_eq!(stable_order(&keys), vec![3, 1, 4, 0, 2]);
    assert_eq!(sort_and_dedup(&owned(&["b", "a", "b", "aa"])), owned(&["a", "aa", "b"]));
}

#[test]
fn maps_keep_their_order() {
    let mut map: TextMap<String> = TextMap::new();
    map.insert("b".to_string(), "1".to_string());
    map.insert("a".to_string(), "2".to_string());
    map.insert("b".to_string(), "3".to_string());
    assert_eq!(map.len(), 2);
    assert_eq!(map.get("b"), Some(&"3".to_string()));
    map.remove("a");
    assert!(!map.contains("a"));
    assert_eq!(map.key_at(0), "b");
    assert_eq!(map.value_at(0), "3");
}

#[test]
fn byte_counts_read_like_floating_point() {
    let kib = 1024u64;
    let mib = kib * 1024;
    let gib = mib * 1024;
    let shown = |bytes: u64| {
        let b = bytes as f64;
        if bytes >= gib {
            format!("{:.2} GiB", b / gib as f64)
        } else if bytes >= mib {
            format!("{:.2} MiB", b / mib as f64)
        } else if bytes >= kib {
            format!("{:.2} KiB", b / kib as f64)
        } else {
            format!("{} B", bytes)
        }
    };
    let mut n: u64 = 1;
    for step in 0..4000u64 {
        n = n.wrapping_mul(6364136223846793005).wrapping_add(1442695040888963407);
        let sample = n >> (step % 64);
        assert_eq!(ByteCount(sample).format_human(), shown(sample), "{}", sample);
    }
    for sample in [0, 1, 1023, 1024, 1536, 1029, 1034, mib - 1, mib, gib - 1, gib, u64::MAX] {
        assert_eq!(ByteCount(sample).format_human(), shown(sample), "{}", sample);
    }
    assert_eq!(ByteCount(u64::MAX).saturating_add(ByteCount(1)), ByteCount(u64::MAX));
    assert_eq!(ByteCount(1).saturating_sub(ByteCount(2)), ByteCount::zero());
}

#[test]
fn identifiers_are_shown() {
    assert_eq!(JobId(7).to_text(), "job-7");
    assert_eq!(AttemptId(7).to_text(), "attempt-7");
    assert_eq!(OperationId(7).to_text(), "op-7");
    assert_eq!(PlanId(7).to_text(), "plan-7");
    assert_eq!(WorkerId(7).to_text(), "worker-7");
    assert_eq!(CandidateId(7).to_text(), "cand-7");
    assert_eq!(GenerationId(7).to_text(), "gen-7");
    assert_eq!(GrantId(7).to_text(), "grant-7");
    assert_eq!(InodeNumber(7).to_text(), "ino:7");
    assert_eq!(DeviceNumber(7).to_text(), "dev:7");
    assert_eq!(TargetId::new("x".to_string()).to_text(), "target:x");
    assert_eq!(FileIdentity::new(1, 2).to_text(), "[dev:1:ino:2]");
    assert_eq!(GenerationId::initial().next(), GenerationId(2));
}

#[test]
fn relative_paths_lead_down() {
    assert_eq!(RelativePath::parse("a/b").unwrap().as_str(), "a/b");
    for bad in ["/a", "..", "a/../b", "a\0b"] {
        assert!(RelativePath::parse(bad).is_none(), "{:?}", bad);
    }
    let base = RelativePath::parse("a").unwrap();
    assert_eq!(base.join("b").unwrap().as_str(), "a/b");
    assert!(base.join("../b").is_none());
    assert!(base.join("/b").is_none());
    assert!(RelativePath::empty().as_path().is_empty());
    assert!(RelativePath::parse("a//b").unwrap() == RelativePath::parse("a/b").unwrap());
}

#[test]
fn time_passes_forward() {
    let now = UnixTimestamp::now();
    assert!(now.as_secs() > 1_600_000_000);
    assert_eq!(UnixTimestamp(10).age_secs(UnixTimestamp(25)), 15);
    assert_eq!(UnixTimestamp(25).age_secs(UnixTimestamp(10)), 0);
    assert_eq!(UnixTimestamp::from_secs(3), UnixTimestamp(3));
}

#[test]
fn clocks_are_read_in_whole_seconds() {
    assert_eq!(UnixTimestamp::from_clock(Ok(Duration::from_millis(5_999))), UnixTimestamp(5));
    assert_eq!(UnixTimestamp::from_clock(Ok(Duration::MAX)), UnixTimestamp(u64::MAX));
    // A clock that stands before the epoch.
    let before = UNIX_EPOCH.duration_since(UNIX_EPOCH + Duration::from_secs(1));
    assert!(before.is_err());
    assert_eq!(UnixTimestamp::from_clock(before), UnixTimestamp(0));
}
