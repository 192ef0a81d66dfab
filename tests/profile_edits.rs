use rvm::profile::{
    add_runtime_to_path, bin_path, get_runtime_home, is_runtime_in_path, remove_all_runtime_paths,
    remove_runtime_from_path, set_default_runtime,
};

const HOME: &str = "/home/u";

fn lines(ls: &[&str]) -> Vec<String> {
    ls.iter().map(|s| s.to_string()).collect()
}

#[test]
fn paths_of_a_runtime() {
    assert_eq!(get_runtime_home(HOME, "node"), "/home/u/.node");
    assert_eq!(bin_path(HOME, "node", "v20.11.0"), "/home/u/.node/v20.11.0/bin");
}

#[test]
fn add_to_empty_profile_appends_block() {
    let mut p: Vec<String> = Vec::new();
    add_runtime_to_path(&mut p, HOME, "node", "v20.11.0");
    assert_eq!(
        p,
        lines(&[
            "# Added by rvm for node v20.11.0",
            "export PATH=\"/home/u/.node/v20.11.0/bin:$PATH\"",
        ])
    );
    assert!(is_runtime_in_path(&p, HOME, "node", "v20.11.0"));
    assert!(!is_runtime_in_path(&p, HOME, "node", "v20.12.0"));
}

#[test]
fn add_twice_equals_add_once() {
    let mut once = lines(&["alias ll='ls -l'"]);
    add_runtime_to_path(&mut once, HOME, "go", "v1.23.1");
    let mut twice = once.clone();
    add_runtime_to_path(&mut twice, HOME, "go", "v1.23.1");
    assert_eq!(once, twice);
}

#[test]
fn add_then_remove_restores_profile() {
    let before = lines(&["export EDITOR=vim", "", "# Added by rvm for go v1.22.0", "export PATH=\"/home/u/.go/v1.22.0/bin:$PATH\""]);
    let mut p = before.clone();
    add_runtime_to_path(&mut p, HOME, "node", "v20.11.0");
    assert_eq!(p.len(), before.len() + 2);
    assert_eq!(remove_runtime_from_path(&p, HOME, "node", "v20.11.0"), before);
}

#[test]
fn remove_keeps_line_edited_by_hand() {
    let p = lines(&["# Added by rvm for node v20.11.0", "export PATH=\"/opt/node/bin:$PATH\"", "x"]);
    assert_eq!(
        remove_runtime_from_path(&p, HOME, "node", "v20.11.0"),
        lines(&["export PATH=\"/opt/node/bin:$PATH\"", "x"])
    );
}

#[test]
fn remove_all_drops_every_line_of_runtime() {
    let p = lines(&[
        "a",
        "# Added by rvm for node v18.0.0",
        "export PATH=\"/home/u/.node/v18.0.0/bin:$PATH\"",
        "PATH=/home/u/.node/manual/bin:$PATH",
        "# Added by rvm for go v1.23.1",
        "export PATH=\"/home/u/.go/v1.23.1/bin:$PATH\"",
    ]);
    assert_eq!(
        remove_all_runtime_paths(&p, HOME, "node"),
        lines(&["a", "# Added by rvm for go v1.23.1", "export PATH=\"/home/u/.go/v1.23.1/bin:$PATH\""])
    );
}

#[test]
fn set_default_replaces_previous_block() {
    let mut p: Vec<String> = Vec::new();
    add_runtime_to_path(&mut p, HOME, "node", "v20.11.0");
    let p = set_default_runtime(&p, HOME, "node", "v20.12.0");
    assert_eq!(
        p,
        lines(&[
            "# Added by rvm for node v20.12.0",
            "export PATH=\"/home/u/.node/v20.12.0/bin:$PATH\"",
        ])
    );
}

#[test]
fn set_default_twice_leaves_one_block() {
    let start = lines(&["x", "# Added by rvm for node v18.0.0", "export PATH=\"/home/u/.node/v18.0.0/bin:$PATH\""]);
    let once = set_default_runtime(&start, HOME, "node", "v20.0.0");
    let twice = set_default_runtime(&once, HOME, "node", "v20.0.0");
    assert_eq!(once, twice);
    let tagged = twice.iter().filter(|l| l.contains("# Added by rvm for node")).count();
    assert_eq!(tagged, 1);
    assert_eq!(twice[0], "x");
}
