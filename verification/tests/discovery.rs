use sidecar::discovery::{
    discover_by_app_namespace, discover_by_namespace, filter_stamped, match_app,
    match_namespace, parse_ps_output,
};

#[test]
fn parse_ps_extracts_pid_and_command() {
    let text =
        "  123 cargo run --sidecar-stamp=a=api;n=default;m=dev;s=tool%3Asidecar\n  456 node server.js\n";
    let parsed = parse_ps_output(text);
    assert_eq!(parsed.len(), 2);
    assert_eq!(
        parsed[0],
        (
            123,
            "cargo run --sidecar-stamp=a=api;n=default;m=dev;s=tool%3Asidecar".into()
        )
    );
    assert_eq!(parsed[1], (456, "node server.js".into()));
}

#[test]
fn filter_picks_app_namespace_matches() {
    let rows = vec![
        (
            10,
            "controller --sidecar-stamp=a=controller;n=default;m=dev;s=tool%3Asidecar".into(),
        ),
        (
            11,
            "renderer --sidecar-stamp=a=renderer;n=default;m=dev;s=tool%3Asidecar".into(),
        ),
        (12, "noise --no-stamp".into()),
    ];
    let hits = filter_stamped(rows, |args| {
        match_app(args, "controller") && match_namespace(args, "default")
    });
    assert_eq!(hits.len(), 1);
    assert_eq!(hits[0].pid, 10);
}

fn rows() -> Vec<(u32, String)> {
    vec![
        (
            10,
            "controller --sidecar-stamp=a=controller;n=default;m=dev;s=tool%3Asidecar".into(),
        ),
        (
            11,
            "renderer --sidecar-stamp=v=1;a=renderer;n=default;m=dev;s=tool%3Asidecar".into(),
        ),
        (
            12,
            "worker --sidecar-stamp=a=controller;n=other;m=dev;s=tool%3Asidecar".into(),
        ),
        (13, "noise --no-stamp".into()),
    ]
}

#[test]
fn discovers_by_app_and_namespace() {
    let hits = discover_by_app_namespace(rows(), "controller", "default");
    let pids: Vec<u32> = hits.iter().map(|hit| hit.pid).collect();
    assert_eq!(pids, vec![10]);
}

#[test]
fn discovers_by_namespace_with_or_without_version() {
    let hits = discover_by_namespace(rows(), "default");
    let pids: Vec<u32> = hits.iter().map(|hit| hit.pid).collect();
    assert_eq!(pids, vec![10, 11]);
}

#[test]
fn unstamped_rows_never_match() {
    let args = vec!["noise".to_string(), "--no-stamp".to_string()];
    assert!(!match_app(&args, "noise"));
    assert!(!match_namespace(&args, "default"));
}
