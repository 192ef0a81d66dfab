use rvm::error::RvmError;
use rvm::pipeline::{plan_add, plan_prune, plan_remove, plan_update, Step};

fn strings(v: &[&str]) -> Vec<String> {
    v.iter().map(|s| s.to_string()).collect()
}

#[test]
fn add_installs_then_defaults() {
    assert_eq!(
        plan_add("go1.23.1", "v1.23.1", false),
        Ok(vec![
            Step::Install { resolved: "go1.23.1".to_string(), stored: "v1.23.1".to_string() },
            Step::SetDefault("v1.23.1".to_string()),
            Step::ReloadProfile,
        ])
    );
    assert_eq!(
        plan_add("v20.11.0", "v20.11.0", true),
        Err(RvmError::VersionAlreadyInstalled("v20.11.0".to_string()))
    );
}

#[test]
fn remove_one_version() {
    assert_eq!(
        plan_remove(Some("v20.11.0"), true, &vec![]),
        Ok(vec![
            Step::RemoveEntry("v20.11.0".to_string()),
            Step::DeleteVersion("v20.11.0".to_string()),
            Step::ReloadProfile,
        ])
    );
    assert_eq!(
        plan_remove(Some("v20.11.0"), false, &vec![]),
        Err(RvmError::VersionNotFound("v20.11.0".to_string()))
    );
}

#[test]
fn remove_every_version() {
    assert_eq!(plan_remove(None, false, &vec![]), Ok(vec![]));
    assert_eq!(
        plan_remove(None, false, &strings(&["v2", "v1"])),
        Ok(vec![
            Step::RemoveEntry("v2".to_string()),
            Step::DeleteVersion("v2".to_string()),
            Step::RemoveEntry("v1".to_string()),
            Step::DeleteVersion("v1".to_string()),
            Step::DeleteHomeIfEmpty,
            Step::ReloadProfile,
        ])
    );
}

#[test]
fn update_reuses_installed_latest() {
    assert_eq!(
        plan_update("v22.0.0", true),
        vec![Step::SetDefault("v22.0.0".to_string()), Step::ReloadProfile]
    );
    assert_eq!(plan_update("v22.0.0", false), vec![Step::AddLatest]);
}

#[test]
fn prune_keeps_one() {
    assert_eq!(
        plan_prune(&strings(&["v20", "v18", "v16"]), "v18"),
        vec![
            Step::RemoveEntry("v20".to_string()),
            Step::DeleteVersion("v20".to_string()),
            Step::RemoveEntry("v16".to_string()),
            Step::DeleteVersion("v16".to_string()),
            Step::SetDefault("v18".to_string()),
            Step::ReloadProfile,
        ]
    );
    assert_eq!(
        plan_prune(&strings(&["v18"]), "v18"),
        vec![Step::SetDefault("v18".to_string()), Step::ReloadProfile]
    );
}
