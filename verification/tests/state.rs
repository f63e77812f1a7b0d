use sidecar::config::{App, Endpoint, Inspect, Manifest, Project, Sidecar};
use sidecar::diagnostics::Severity;
use sidecar::state::State;
use std::collections::BTreeMap;

fn project(name: &str) -> Project {
    Project {
        name: name.to_string(),
        namespace: "default".to_string(),
        root: ".".to_string(),
        data: None,
    }
}

fn sidecar(name: &str, command: &str, args: &[&str]) -> Sidecar {
    Sidecar {
        name: name.to_string(),
        command: command.to_string(),
        args: args.iter().map(|arg| arg.to_string()).collect(),
        cwd: ".".to_string(),
        mode: "dev".to_string(),
        env: BTreeMap::new(),
        inherits: Vec::new(),
        socket: None,
        health: None,
        ready: None,
    }
}

fn seed(config: Manifest) -> State {
    State {
        path: "inline.toml".to_string(),
        config,
    }
}

fn manifest(name: &str, app: Option<App>, sidecars: Vec<Sidecar>) -> Manifest {
    Manifest {
        project: project(name),
        app,
        sidecars,
        inspect: Inspect {
            endpoints: Vec::new(),
        },
    }
}

#[test]
fn duplicates() {
    let state = seed(manifest(
        "app",
        None,
        vec![sidecar("api", "cargo", &[]), sidecar("api", "cargo", &[])],
    ));

    let diagnostics = state.diagnostics();
    assert!(diagnostics
        .iter()
        .any(|diagnostic| diagnostic.message.contains("duplicate sidecar name")));
}

#[test]
fn optional() {
    let state = seed(manifest("app", None, vec![sidecar("api", "cargo", &[])]));
    let diagnostics = state.diagnostics();
    assert!(!diagnostics
        .iter()
        .any(|diagnostic| diagnostic.path == "sidecars[0].inspect_socket"));
}

#[test]
fn solo() {
    let state = seed(manifest(
        "cells",
        None,
        vec![sidecar(
            "server",
            "cargo",
            &["run", "--quiet", "-p", "server-cell", "--"],
        )],
    ));

    let diagnostics = state.diagnostics();
    assert!(!diagnostics
        .iter()
        .any(|diagnostic| diagnostic.path == "app"));
}

#[test]
fn state_empty() {
    let state = seed(manifest("empty", None, Vec::new()));

    let diagnostics = state.diagnostics();
    assert!(diagnostics.iter().any(|diagnostic| {
        diagnostic.path == "app" && diagnostic.message.contains("no app or sidecar command")
    }));
}

#[test]
fn warned() {
    let state = seed(manifest(
        "cells",
        None,
        vec![sidecar(
            "server",
            "cargo",
            &["run", "--quiet", "-p", "server-cell"],
        )],
    ));

    let diagnostics = state.diagnostics();
    assert!(diagnostics.iter().any(|diagnostic| {
        diagnostic.path == "sidecars[0].args" && diagnostic.message.contains("--sidecar-stamp")
    }));
}

#[test]
fn separated() {
    let state = seed(manifest(
        "cells",
        None,
        vec![sidecar(
            "server",
            "cargo",
            &["run", "--quiet", "-p", "server-cell", "--"],
        )],
    ));

    let diagnostics = state.diagnostics();
    assert!(!diagnostics
        .iter()
        .any(|diagnostic| diagnostic.message.contains("--sidecar-stamp")));
}

#[test]
fn planned() {
    let app = App {
        name: "desktop".to_string(),
        command: "pnpm".to_string(),
        args: vec!["tauri".to_string(), "dev".to_string()],
        cwd: ".".to_string(),
        mode: "dev".to_string(),
        env: BTreeMap::new(),
        inherits: Vec::new(),
        socket: None,
        health: None,
        ready: None,
    };
    let mut config = manifest("app", Some(app), Vec::new());
    config.inspect = Inspect {
        endpoints: vec![Endpoint {
            name: "health".to_string(),
            kind: "http".to_string(),
            url: "http://127.0.0.1:3000/health".to_string(),
        }],
    };
    let state = seed(config);

    let plan = state.plan();
    assert_eq!(plan.project, "app");
    assert_eq!(plan.namespace, "default");
    assert_eq!(plan.app.unwrap().command, "pnpm");
    assert_eq!(plan.targets.len(), 1);
    assert_eq!(plan.endpoints.len(), 1);
}

#[test]
fn endpoint() {
    let state = seed(manifest("app", None, vec![sidecar("api", "cargo", &[])]));

    let plan = state.plan();
    let args = plan.targets[0].launch("tcp://127.0.0.1:4100");
    let stamp = args
        .iter()
        .find(|arg| arg.starts_with("--sidecar-stamp="))
        .expect("stamp arg should exist");
    assert!(stamp.contains("v=1;"));
    assert!(stamp.contains(";e=tcp%3A%2F%2F127.0.0.1%3A4100"));
}

#[test]
fn clean_manifest_has_no_findings() {
    let state = seed(manifest(
        "cells",
        None,
        vec![sidecar("server", "cargo", &["run", "--"])],
    ));
    assert!(state.diagnostics().is_empty());
}

#[test]
fn empty_project_name_is_an_error() {
    let state = seed(manifest("", None, vec![sidecar("api", "cargo", &["--"])]));
    let diagnostics = state.diagnostics();
    assert!(diagnostics.iter().any(|diagnostic| {
        diagnostic.path == "project.name" && diagnostic.severity == Severity::Error
    }));
}

#[test]
fn plan_orders_sidecars_before_app() {
    let app = App {
        name: "desktop".to_string(),
        command: "pnpm".to_string(),
        args: Vec::new(),
        cwd: ".".to_string(),
        mode: "dev".to_string(),
        env: BTreeMap::new(),
        inherits: Vec::new(),
        socket: None,
        health: None,
        ready: None,
    };
    let state = seed(manifest(
        "app",
        Some(app),
        vec![sidecar("api", "cargo", &[]), sidecar("web", "node", &[])],
    ));
    let plan = state.plan();
    let names: Vec<&str> = plan.targets.iter().map(|t| t.name.as_str()).collect();
    assert_eq!(names, vec!["api", "web", "desktop"]);
    let stamp = &plan.targets[0].stamp;
    assert_eq!(stamp.app, "api");
    assert_eq!(stamp.namespace, "default");
    assert_eq!(stamp.mode, "dev");
    assert_eq!(stamp.source, "tool:sidecar");
}
