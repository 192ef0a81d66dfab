use rvm::error::RvmError;
use rvm::installed::resolve_installed_version;
use rvm::resolve::{classify_specifier, resolve, Release, SpecifierKind};
use rvm::runtime::{GoRuntime, NodeRuntime, TailwindCssRuntime};

fn rel(v: &str, stable: bool, lts: bool) -> Release {
    Release { version: v.to_string(), stable, lts }
}

fn go_feed() -> Vec<Release> {
    vec![rel("go1.23.1", true, false), rel("go1.23.0", true, false), rel("go1.24rc1", false, false)]
}

#[test]
fn go_latest_is_first_stable() {
    assert_eq!(GoRuntime.resolve_version(&go_feed(), "latest"), Ok("go1.23.1".to_string()));
}

#[test]
fn go_major_takes_first_stable_of_that_major() {
    assert_eq!(GoRuntime.resolve_version(&go_feed(), "1"), Ok("go1.23.1".to_string()));
}

#[test]
fn go_exact_version_and_missing_one() {
    assert_eq!(GoRuntime.resolve_version(&go_feed(), "1.23.0"), Ok("go1.23.0".to_string()));
    assert_eq!(
        GoRuntime.resolve_version(&go_feed(), "1.99.0"),
        Err(RvmError::VersionNotFound("1.99.0".to_string()))
    );
}

#[test]
fn go_exact_accepts_native_spelling() {
    assert_eq!(GoRuntime.resolve_version(&go_feed(), "go1.23.0"), Ok("go1.23.0".to_string()));
    assert_eq!(GoRuntime.resolve_version(&go_feed(), "go1.23"), Ok("go1.23.1".to_string()));
    // one `.` makes it a major.minor specifier, which takes stable releases only
    assert_eq!(
        GoRuntime.resolve_version(&go_feed(), "go1.24rc1"),
        Err(RvmError::VersionNotFound("go1.24rc1".to_string()))
    );
}

#[test]
fn latest_skips_unstable_entries() {
    let feed = vec![rel("go1.25rc1", false, false), rel("go1.24.2", true, false)];
    assert_eq!(GoRuntime.resolve_version(&feed, "latest"), Ok("go1.24.2".to_string()));
}

#[test]
fn latest_on_feed_without_stable_release_fails() {
    let feed = vec![rel("go1.25rc1", false, false)];
    assert_eq!(
        GoRuntime.resolve_version(&feed, "latest"),
        Err(RvmError::VersionNotFound("latest".to_string()))
    );
}

#[test]
fn major_does_not_match_longer_major() {
    let feed = vec![rel("v10.2.0", true, false), rel("v1.5.0", true, false)];
    assert_eq!(NodeRuntime.resolve_version(&feed, "1"), Ok("v1.5.0".to_string()));
    let only_ten = vec![rel("v10.2.0", true, false)];
    assert_eq!(
        NodeRuntime.resolve_version(&only_ten, "1"),
        Err(RvmError::VersionNotFound("1".to_string()))
    );
}

#[test]
fn node_lts_takes_first_flagged_release() {
    let feed = vec![
        rel("v21.6.0", true, false),
        rel("v20.11.0", true, true),
        rel("v18.19.0", true, true),
    ];
    assert_eq!(NodeRuntime.resolve_version(&feed, "lts"), Ok("v20.11.0".to_string()));
    assert_eq!(NodeRuntime.resolve_version(&feed, "latest"), Ok("v21.6.0".to_string()));
}

#[test]
fn node_major_minor_and_exact() {
    let feed = vec![rel("v20.11.1", true, false), rel("v20.11.0", true, false)];
    assert_eq!(NodeRuntime.resolve_version(&feed, "20.11"), Ok("v20.11.1".to_string()));
    assert_eq!(NodeRuntime.resolve_version(&feed, "v20.11"), Ok("v20.11.1".to_string()));
    assert_eq!(NodeRuntime.resolve_version(&feed, "20.11.0"), Ok("v20.11.0".to_string()));
    assert_eq!(NodeRuntime.resolve_version(&feed, "v20.11.0"), Ok("v20.11.0".to_string()));
    assert_eq!(
        NodeRuntime.resolve_version(&feed, "20.1"),
        Err(RvmError::VersionNotFound("20.1".to_string()))
    );
}

#[test]
fn tailwind_major_skips_prereleases() {
    let feed = vec![rel("v4.0.0-beta.1", false, false), rel("v3.4.1", true, false)];
    assert_eq!(TailwindCssRuntime.resolve_version(&feed, "3"), Ok("v3.4.1".to_string()));
    assert_eq!(TailwindCssRuntime.resolve_version(&feed, "4"), Err(RvmError::VersionNotFound("4".to_string())));
}

#[test]
fn resolve_on_empty_feed_fails() {
    assert_eq!(resolve("v", "latest", &vec![]), Err(RvmError::VersionNotFound("latest".to_string())));
}

#[test]
fn specifier_kinds() {
    assert_eq!(classify_specifier("latest"), SpecifierKind::Latest);
    assert_eq!(classify_specifier("lts"), SpecifierKind::Lts);
    assert_eq!(classify_specifier("20"), SpecifierKind::Major);
    assert_eq!(classify_specifier("20.11"), SpecifierKind::MajorMinor);
    assert_eq!(classify_specifier("20.11.0"), SpecifierKind::Exact);
    assert_eq!(classify_specifier(""), SpecifierKind::Exact);
}

fn installed() -> Vec<String> {
    vec!["v20.11.0".to_string(), "v18.20.0".to_string(), "v18.19.1".to_string()]
}

#[test]
fn installed_exact_and_v_prefixed() {
    assert_eq!(resolve_installed_version("node", &installed(), "v20.11.0"), Ok("v20.11.0".to_string()));
    assert_eq!(resolve_installed_version("node", &installed(), "20.11.0"), Ok("v20.11.0".to_string()));
}

#[test]
fn installed_major_and_major_minor() {
    assert_eq!(resolve_installed_version("node", &installed(), "18"), Ok("v18.20.0".to_string()));
    assert_eq!(resolve_installed_version("node", &installed(), "18.19"), Ok("v18.19.1".to_string()));
    assert_eq!(resolve_installed_version("node", &installed(), "1"), Err(RvmError::VersionNotFound("1".to_string())));
}

#[test]
fn installed_nothing_and_no_match() {
    assert_eq!(
        resolve_installed_version("node", &vec![], "18"),
        Err(RvmError::VersionNotFound("No node versions installed".to_string()))
    );
    assert_eq!(
        resolve_installed_version("go", &installed(), "16"),
        Err(RvmError::VersionNotFound("16".to_string()))
    );
}
