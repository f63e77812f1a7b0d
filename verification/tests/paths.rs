use sidecar::paths::{data_home, join, Paths};

#[test]
fn cli() {
    let root = data_home(
        Some("/from/cli"),
        Some("/from/env"),
        None,
        Some("/tmp/fake-home"),
    );
    let paths = Paths::resolve("default", &root, None);
    assert_eq!(paths.root, "/from/cli");
    assert_eq!(paths.state, "/from/cli/state");
    assert_eq!(paths.project, "/from/cli/projects/default");
}

#[test]
fn env() {
    let root = data_home(None, Some("/from/env"), None, Some("/tmp/fake-home"));
    let paths = Paths::resolve("staging", &root, None);
    assert_eq!(paths.root, "/from/env");
    assert_eq!(paths.project, "/from/env/projects/staging");
}

#[test]
fn xdg() {
    let root = data_home(None, None, Some("/xdg/data"), Some("/tmp/fake-home"));
    let paths = Paths::resolve("default", &root, None);
    assert_eq!(paths.root, "/xdg/data/sidecar");
}

#[test]
fn home() {
    let root = data_home(None, None, None, Some("/tmp/fake-home"));
    let paths = Paths::resolve("default", &root, None);
    assert_eq!(paths.root, "/tmp/fake-home/.local/share/sidecar");
}

#[test]
fn manifest() {
    let root = data_home(None, Some("/from/env"), None, Some("/tmp/fake-home"));
    let paths = Paths::resolve("default", &root, Some("/elsewhere/proj"));
    assert_eq!(paths.root, "/from/env");
    assert_eq!(paths.state, "/from/env/state");
    assert_eq!(paths.project, "/elsewhere/proj");
}

#[test]
fn empty_settings_fall_through() {
    let root = data_home(None, Some(""), Some(""), Some("/h"));
    assert_eq!(root, "/h/.local/share/sidecar");
}

#[test]
fn namespace_placeholder_is_replaced() {
    let paths = Paths::resolve("prod", "/d", Some("/data/{namespace}/x-{namespace}"));
    assert_eq!(paths.project, "/data/prod/x-prod");
}

#[test]
fn join_follows_path_rules() {
    assert_eq!(join("/a", "b"), "/a/b");
    assert_eq!(join("/a/", "b"), "/a/b");
    assert_eq!(join("/a", "/b"), "/b");
    assert_eq!(join("", "b"), "b");
}
