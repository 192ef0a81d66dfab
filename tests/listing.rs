use rvm::grouping::group_versions_by_channel;
use rvm::resolve::Release;
use rvm::runtime::{GoRuntime, NodeRuntime};
use rvm::version::{
    clean_version_for_display, compare_versions, detect_channel, extract_major_minor,
    extract_major_version, format_version_list, VersionInfo,
};
use std::cmp::Ordering;

fn info(v: &str, channel: &str, mm: &str) -> VersionInfo {
    VersionInfo { version: v.to_string(), channel: channel.to_string(), major_minor: mm.to_string() }
}

#[test]
fn display_form_drops_v() {
    assert_eq!(clean_version_for_display("v20.11.0"), "20.11.0");
    assert_eq!(clean_version_for_display("20.11.0"), "20.11.0");
}

#[test]
fn major_minor_of_versions() {
    assert_eq!(extract_major_minor("v20.11.0"), Some("20.11".to_string()));
    assert_eq!(extract_major_minor("1.24rc1"), Some("1.24rc1".to_string()));
    assert_eq!(extract_major_minor("v20"), None);
}

#[test]
fn major_of_versions() {
    assert_eq!(extract_major_version("v20.11.0"), Some(20));
    assert_eq!(extract_major_version("7"), Some(7));
    assert_eq!(extract_major_version("x.1"), None);
    assert_eq!(extract_major_version("99999999999.1"), None);
}

#[test]
fn channels_by_markers() {
    assert_eq!(detect_channel("v20.11.0", true), "LTS");
    assert_eq!(detect_channel("v4.0.0-alpha.1", true), "LTS");
    assert_eq!(detect_channel("1.0.0-BETA.1", false), "Beta");
    assert_eq!(detect_channel("v4.0.0-Alpha.2", false), "Alpha");
    assert_eq!(detect_channel("go1.24rc1", false), "RC");
    assert_eq!(detect_channel("nightly-2024", false), "Nightly");
    assert_eq!(detect_channel("v1.2.3", false), "Stable");
}

#[test]
fn version_order() {
    assert_eq!(compare_versions("v20.11.0", "v20.10.5"), Ordering::Greater);
    assert_eq!(compare_versions("v9.0.0", "v10.0.0"), Ordering::Less);
    assert_eq!(compare_versions("1.2", "1.2.0"), Ordering::Less);
    assert_eq!(compare_versions("v1.2.0", "1.2.0"), Ordering::Equal);
}

#[test]
fn version_list_wraps() {
    let vs: Vec<String> = vec!["a".to_string(), "b".to_string(), "c".to_string()];
    assert_eq!(format_version_list(&vs, 100), "a, b, c");
    assert_eq!(format_version_list(&vs, 4), "a, b\n      c");
    assert_eq!(format_version_list(&vs, 1), "a\n      b\n      c");
    assert_eq!(format_version_list(&[], 10), "");
}

#[test]
fn grouping_caps_every_level() {
    let mut infos = Vec::new();
    for major in 1..=6 {
        for minor in 0..5 {
            for patch in 0..5 {
                infos.push(info(
                    &format!("v{}.{}.{}", major, minor, patch),
                    "Stable",
                    &format!("{}.{}", major, minor),
                ));
            }
        }
    }
    let out = group_versions_by_channel(infos);
    assert_eq!(out.len(), 18);
    assert_eq!(out[0], "=== Stable Versions ===");
    assert_eq!(out[1], "6.4: 6.4.4, 6.4.3, 6.4.2, 6.4.1");
    assert_eq!(out[4], "6.1: 6.1.4, 6.1.3, 6.1.2, 6.1.1");
    assert_eq!(out[16], "3.1: 3.1.4, 3.1.3, 3.1.2, 3.1.1");
    assert_eq!(out[17], "... displaying top 4 versions, all other versions truncated");
    let notices = out.iter().filter(|l| l.starts_with("... displaying")).count();
    assert_eq!(notices, 1);
}

#[test]
fn grouping_orders_channels_and_marks_prereleases() {
    let infos = vec![
        info("v22.0.0-rc.1", "RC", "22.0"),
        info("v20.11.0", "LTS", "20.11"),
        info("v21.0.0", "Stable", "21.0"),
        info("v21.0.1", "Stable", "21.0"),
        info("vX.1", "Stable", "X.1"),
    ];
    assert_eq!(
        group_versions_by_channel(infos),
        vec![
            "=== Stable Versions ===",
            "21.0: 21.0.1, 21.0.0",
            "",
            "=== LTS Versions ===",
            "20.11: 20.11.0",
            "",
            "=== RC Versions ===",
            "22.0: 22.0.0-rc.1 (RC)",
        ]
    );
}

#[test]
fn grouping_lists_unknown_channels_last_in_order() {
    let infos = vec![info("v1.0.0", "Zeta", "1.0"), info("v2.0.0", "Edge", "2.0"), info("v3.0.0", "Beta", "3.0")];
    assert_eq!(
        group_versions_by_channel(infos),
        vec![
            "=== Beta Versions ===",
            "3.0: 3.0.0 (Beta)",
            "",
            "=== Edge Versions ===",
            "2.0: 2.0.0 (Edge)",
            "",
            "=== Zeta Versions ===",
            "1.0: 1.0.0 (Zeta)",
        ]
    );
}

#[test]
fn grouping_orders_minor_keys_by_number() {
    let infos: Vec<VersionInfo> = (7..=11)
        .map(|n| info(&format!("v20.{}.0", n), "Stable", &format!("20.{}", n)))
        .collect();
    assert_eq!(
        group_versions_by_channel(infos),
        vec![
            "=== Stable Versions ===",
            "20.11: 20.11.0",
            "20.10: 20.10.0",
            "20.9: 20.9.0",
            "20.8: 20.8.0",
            "... displaying top 4 versions, all other versions truncated",
        ]
    );
}

#[test]
fn go_listing_puts_newest_minor_first() {
    let feed: Vec<Release> = ["go1.24.1", "go1.23.4", "go1.9.7", "go1.8.3", "go1.22.0"]
        .iter()
        .map(|v| Release { version: v.to_string(), stable: true, lts: false })
        .collect();
    assert_eq!(
        GoRuntime.list_available(&feed),
        vec![
            "=== Stable Versions ===",
            "1.24: 1.24.1",
            "1.23: 1.23.4",
            "1.22: 1.22.0",
            "1.9: 1.9.7",
            "... displaying top 4 versions, all other versions truncated",
        ]
    );
}

#[test]
fn grouping_of_nothing_is_empty() {
    assert!(group_versions_by_channel(vec![]).is_empty());
}

#[test]
fn go_listing_uses_v_form() {
    let feed = vec![
        Release { version: "go1.23.1".to_string(), stable: true, lts: false },
        Release { version: "go1.24rc1".to_string(), stable: false, lts: false },
    ];
    assert_eq!(
        GoRuntime.list_available(&feed),
        vec!["=== Stable Versions ===", "1.23: 1.23.1", "", "=== RC Versions ===", "1.24rc1: 1.24rc1 (RC)"]
    );
}

#[test]
fn node_listing_flags_lts() {
    let feed = vec![
        NodeRuntime.release_of("v21.6.0".to_string(), Some(false)),
        NodeRuntime.release_of("v20.11.0".to_string(), None),
    ];
    assert!(!feed[0].lts && feed[1].lts && feed[0].stable);
    assert_eq!(
        NodeRuntime.list_available(&feed),
        vec!["=== Stable Versions ===", "21.6: 21.6.0", "", "=== LTS Versions ===", "20.11: 20.11.0"]
    );
}
