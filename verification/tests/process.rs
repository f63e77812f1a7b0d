use sidecar::process;
use sidecar::process::{Broker, Stamped};

#[test]
fn ps() {
    let text =
        "  123 cargo run --sidecar-stamp=v=1;a=api;n=default;m=dev;s=tool%3Asidecar\n  456 node server.js\n";
    let parsed = process::parse(text);
    assert_eq!(parsed.len(), 2);
    assert_eq!(
        parsed[0],
        (
            123,
            "cargo run --sidecar-stamp=v=1;a=api;n=default;m=dev;s=tool%3Asidecar".into()
        )
    );
    assert_eq!(parsed[1], (456, "node server.js".into()));
}

#[test]
fn stamped() {
    let rows = vec![
        (
            10,
            "controller --sidecar-stamp=v=1;a=controller;n=default;m=dev;s=tool%3Asidecar".into(),
        ),
        (
            11,
            "renderer --sidecar-stamp=v=1;a=renderer;n=default;m=dev;s=tool%3Asidecar".into(),
        ),
        (12, "noise --no-stamp".into()),
    ];
    let hits = Stamped::filter(rows, Some("controller"), "default");
    assert_eq!(hits.len(), 1);
    assert_eq!(hits[0].pid, 10);
}

#[test]
fn brokers() {
    let rows = vec![
        (
            10,
            "sidecar runtime serve --sidecar-broker=p=local;n=default;s=tool%3Asidecar".into(),
        ),
        (
            11,
            "sidecar runtime serve --sidecar-broker=p=local;n=other;s=tool%3Asidecar".into(),
        ),
        (
            12,
            "controller --sidecar-stamp=v=1;a=controller;n=default;m=dev;s=tool%3Asidecar".into(),
        ),
    ];
    let hits = Broker::filter(rows, "local", "default");
    assert_eq!(hits.len(), 1);
    assert_eq!(hits[0].pid, 10);
}

#[test]
fn ps_skips_lines_without_a_pid_or_command() {
    let text = "PID COMMAND\n  77\n\n  x y\n 4294967296 big\n 9\tsleep 5 \n";
    let parsed = process::parse(text);
    assert_eq!(parsed, vec![(9, "sleep 5".to_string())]);
}

#[test]
fn ps_accepts_plus_sign_and_crlf() {
    let parsed = process::parse("+12 a b\r\n");
    assert_eq!(parsed, vec![(12, "a b".to_string())]);
}

#[test]
fn stamped_any_app_in_namespace() {
    let rows = vec![
        (1, "a --sidecar-stamp=v=1;a=one;n=prod;m=dev;s=tool%3Asidecar".to_string()),
        (2, "b --sidecar-stamp=v=1;a=two;n=prod;m=dev;s=tool%3Asidecar".to_string()),
        (3, "c --sidecar-stamp=v=1;a=three;n=dev;m=dev;s=tool%3Asidecar".to_string()),
        (4, "d --sidecar-stamp=a=four;n=prod;m=dev;s=tool%3Asidecar".to_string()),
    ];
    let hits = Stamped::filter(rows, None, "prod");
    let pids: Vec<u32> = hits.iter().map(|hit| hit.pid).collect();
    assert_eq!(pids, vec![1, 2]);
}

#[test]
fn broker_rows_keep_their_command() {
    let rows = vec![(
        5,
        "sidecar runtime serve --sidecar-broker p=x;n=y;s=tool%3Asidecar".to_string(),
    )];
    let hits = Broker::filter(rows, "x", "y");
    assert_eq!(hits.len(), 1);
    assert_eq!(
        hits[0].command,
        "sidecar runtime serve --sidecar-broker p=x;n=y;s=tool%3Asidecar"
    );
}
