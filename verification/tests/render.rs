use sidecar::config::{Inspect, Manifest, Project, Sidecar};
use sidecar::diagnostics::Diagnostic;
use sidecar::process::Stamped;
use sidecar::render;
use sidecar::state::State;
use std::collections::BTreeMap;

#[test]
fn doctor_reports() {
    assert_eq!(render::diagnostics(&vec![]), "sidecar doctor found no issues\n");
    let d = vec![
        Diagnostic::error("project.name".into(), "must not be empty".into()),
        Diagnostic::warning("app".into(), "no targets".into()),
    ];
    assert_eq!(
        render::diagnostics(&d),
        "sidecar doctor found 2 issue(s)\nerror project.name - must not be empty\nwarning app - no targets\n"
    );
}

#[test]
fn plan_report() {
    let state = State {
        path: "inline.toml".to_string(),
        config: Manifest {
            project: Project {
                name: "app".into(),
                namespace: "default".into(),
                root: ".".into(),
                data: None,
            },
            app: None,
            sidecars: vec![Sidecar {
                name: "api".into(),
                command: "cargo".into(),
                args: vec!["run".into()],
                cwd: ".".into(),
                mode: "dev".into(),
                env: BTreeMap::new(),
                inherits: Vec::new(),
                socket: Some("unix:///tmp/api.sock".into()),
                health: None,
                ready: None,
            }],
            inspect: Inspect { endpoints: Vec::new() },
        },
    };
    assert_eq!(
        render::plan(&state.plan()),
        "project: app (namespace: default)\napp: <none>\ntargets: 1\n- api [mode=dev] -> cargo run --sidecar-stamp=v=1;a=api;n=default;m=dev;s=tool%3Asidecar\n    inspect_socket: unix:///tmp/api.sock\ninspect endpoints: 0\n"
    );
}

#[test]
fn status_report() {
    let rows = vec![("api".to_string(), vec![4, 5]), ("web".to_string(), vec![])];
    assert_eq!(
        render::status("default", &rows, None, &vec![]),
        "namespace: default\nruntime: stopped\n- api: running (pid 4)\n  + duplicate (pid 5)\n- web: stopped\n"
    );
}

#[test]
fn list_report() {
    let hits = vec![Stamped { pid: 9, command: "node a.js".into() }];
    let saved = vec![("api".to_string(), 42u64)];
    assert_eq!(
        render::list("dev", &hits, Some("tcp://127.0.0.1:1"), &vec![3], &saved),
        "namespace: dev\nruntime: running (pid 3) tcp://127.0.0.1:1\n- pid=9 cmd=node a.js\n- target=api pid=42 source=state\n"
    );
    assert_eq!(
        render::list("dev", &vec![], None, &vec![], &vec![]),
        "namespace: dev\nruntime: stopped\nno stamped processes\n"
    );
}
