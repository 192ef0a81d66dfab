use rvm::cli::{list_request, ListRequest};
use rvm::error::RvmError;
use rvm::gofeed::{go_releases_from_ids, go_version_key};
use rvm::runtime::{
    archive_kind, get_architecture, get_runtime, list_supported_runtimes, order_installed,
    versions_to_prune, ArchiveKind, GoRuntime, NodeRuntime, RuntimeKind, TailwindCssRuntime,
};

fn strings(v: &[&str]) -> Vec<String> {
    v.iter().map(|s| s.to_string()).collect()
}

#[test]
fn runtimes_by_name() {
    assert_eq!(get_runtime("node"), Ok(RuntimeKind::Node));
    assert_eq!(get_runtime("go"), Ok(RuntimeKind::Go));
    assert_eq!(get_runtime("tailwindcss"), Ok(RuntimeKind::TailwindCss));
    assert_eq!(get_runtime("ruby"), Err(RvmError::UnsupportedRuntime("ruby".to_string())));
    assert_eq!(list_supported_runtimes(), strings(&["go", "node", "tailwindcss"]));
    assert_eq!(RuntimeKind::Go.name(), "go");
    assert_eq!(RuntimeKind::Node.executables(), strings(&["bin/node", "bin/npm"]));
}

#[test]
fn architectures() {
    assert_eq!(get_architecture("x86_64"), Ok("x64".to_string()));
    assert_eq!(get_architecture("aarch64"), Ok("arm64".to_string()));
    assert_eq!(get_architecture("riscv64"), Err(RvmError::UnsupportedArchitecture("riscv64".to_string())));
}

#[test]
fn download_urls() {
    assert_eq!(
        NodeRuntime.download_url("v20.11.0", "x64"),
        "https://nodejs.org/dist/v20.11.0/node-v20.11.0-linux-x64.tar.xz"
    );
    assert_eq!(
        GoRuntime.download_url("go1.23.1", "x64"),
        Ok("https://go.dev/dl/go1.23.1.linux-amd64.tar.gz".to_string())
    );
    assert_eq!(
        GoRuntime.download_url("go1.23.1", "ppc"),
        Err(RvmError::UnsupportedArchitecture("ppc".to_string()))
    );
    assert_eq!(
        TailwindCssRuntime.download_url("v3.4.1", "tailwindcss-linux-x64"),
        "https://github.com/tailwindlabs/tailwindcss/releases/download/v3.4.1/tailwindcss-linux-x64"
    );
}

#[test]
fn tailwind_asset_names() {
    assert_eq!(TailwindCssRuntime.get_executable_filename("x64"), Ok("tailwindcss-linux-x64".to_string()));
    assert_eq!(TailwindCssRuntime.get_executable_filename("arm64"), Ok("tailwindcss-linux-arm64".to_string()));
    assert_eq!(
        TailwindCssRuntime.get_executable_filename("s390x"),
        Err(RvmError::UnsupportedArchitecture("s390x".to_string()))
    );
    let r = TailwindCssRuntime.release_of("v4.0.0-beta.1".to_string(), true);
    assert!(!r.stable && !r.lts);
}

#[test]
fn go_storage_names() {
    assert_eq!(GoRuntime.storage_version("go1.23.1"), "v1.23.1");
    assert_eq!(GoRuntime.storage_version("1.23.1"), "v1.23.1");
}

#[test]
fn archive_kinds() {
    assert_eq!(archive_kind("https://x/node.tar.xz"), Ok(ArchiveKind::TarXz));
    assert_eq!(archive_kind("https://x/go.tar.gz"), Ok(ArchiveKind::TarGz));
    assert!(matches!(archive_kind("https://x/a.zip"), Err(RvmError::ExtractionFailed(_))));
}

#[test]
fn prune_plan_and_installed_order() {
    let installed = strings(&["v20.11.0", "v18.20.0", "v16.0.0"]);
    assert_eq!(versions_to_prune(&installed, "v18.20.0"), strings(&["v20.11.0", "v16.0.0"]));
    assert_eq!(versions_to_prune(&installed, "v1.0.0"), installed);
    assert_eq!(
        order_installed(&strings(&["v10.0.0", "v9.0.0", "v18.1.0"])),
        strings(&["v9.0.0", "v18.1.0", "v10.0.0"])
    );
}

#[test]
fn node_prereleases_are_not_stable() {
    let feed = vec![
        NodeRuntime.release_of("v21.0.0-rc.1".to_string(), Some(false)),
        NodeRuntime.release_of("v20.0.0-RC.1".to_string(), Some(false)),
        NodeRuntime.release_of("v20.11.0".to_string(), Some(false)),
    ];
    assert!(!feed[0].stable && !feed[1].stable && feed[2].stable);
    assert_eq!(NodeRuntime.resolve_version(&feed, "latest"), Ok("v20.11.0".to_string()));
    assert_eq!(NodeRuntime.resolve_version(&feed, "20"), Ok("v20.11.0".to_string()));
    assert_eq!(NodeRuntime.resolve_version(&feed, "21"), Err(RvmError::VersionNotFound("21".to_string())));
    assert_eq!(NodeRuntime.resolve_version(&feed, "v21.0.0-rc.1"), Ok("v21.0.0-rc.1".to_string()));
}

#[test]
fn go_keys() {
    assert_eq!(go_version_key("go1.23.1"), (1, 23, 1, 0));
    assert_eq!(go_version_key("go1.24rc2"), (1, 24, 0, 2));
    assert_eq!(go_version_key("go1.24beta1"), (1, 24, 0, 1));
    assert_eq!(go_version_key("go1.21"), (1, 21, 0, 0));
}

#[test]
fn go_feed_from_ids() {
    let ids = strings(&["go1.22.5", "go1.23.0", "go1.23.1", "go1.24rc1", "go1.24beta1", "go1.24rc2", "gopher", "go", "go1.9.2"]);
    let feed = go_releases_from_ids(&ids);
    let got: Vec<(String, bool)> = feed.iter().map(|r| (r.version.clone(), r.stable)).collect();
    let want: Vec<(String, bool)> = vec![
        ("go1.23.1".to_string(), true),
        ("go1.23.0".to_string(), true),
        ("go1.22.5".to_string(), true),
        ("go1.9.2".to_string(), true),
        ("go1.24rc2".to_string(), false),
        ("go1.24rc1".to_string(), false),
        ("go1.24beta1".to_string(), false),
    ];
    assert_eq!(got, want);
}

#[test]
fn go_feed_from_page() {
    let html = "<html><body><div id=\"go1.22.0\"></div><div id=\"archive\"></div>\
                <div id=\"go1.24rc1\"></div><div id=\"go1.23.1\"><span id=\"go9\"></span></div></body></html>";
    let feed = GoRuntime.releases_from_page(html);
    let got: Vec<String> = feed.iter().map(|r| r.version.clone()).collect();
    assert_eq!(got, strings(&["go1.23.1", "go1.22.0", "go1.24rc1"]));
    assert_eq!(GoRuntime.resolve_version(&feed, "latest"), Ok("go1.23.1".to_string()));
}

#[test]
fn list_arguments() {
    assert_eq!(list_request(&vec![]), ListRequest::NoArguments);
    assert_eq!(list_request(&strings(&["runtimes"])), ListRequest::Runtimes);
    assert_eq!(list_request(&strings(&["available", "node"])), ListRequest::Available("node".to_string()));
    assert_eq!(list_request(&strings(&["installed"])), ListRequest::MissingRuntime("installed".to_string()));
    assert_eq!(list_request(&strings(&["other"])), ListRequest::Unknown);
}
