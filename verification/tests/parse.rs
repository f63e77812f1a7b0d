use sidecar::cli;
use sidecar::cli::help;

#[test]
fn boundary() {
    let help = help();
    assert!(help.contains("Product-neutral sidecar lifecycle and inspect IPC manager."));
    assert!(help.contains("consumers own product semantics"));
    assert!(help.contains("doctor   [--config <path>]"));
    assert!(help.contains("inspect  <sidecar> <event> [<json-payload>]"));
    assert!(help.contains("--inspect-timeout <s>"));
    assert!(help.contains("--force"));
    assert!(help.contains("when omitted, sidecar walks"));
    assert!(help.contains("like docker compose -p"));
    assert!(
        help.contains("--sidecar-stamp=v=1;a=<app>;n=<namespace>;m=<mode>;s=<source>;e=<endpoint>")
    );
    assert!(help.contains("README.md for usage/schema"));
    assert!(help.contains("AGENTS.md for boundaries and PR workflow"));
    assert!(help.contains("Source:  https://github.com/PerishCode/sidecar"));
    assert!(help.contains("https://github.com/PerishCode/sidecar/issues"));
    assert!(help
        .contains("0 on success. 1 on config, diagnostic, lifecycle, inspect, or update failure."));
    assert!(!help.contains("%LOCALAPPDATA%"));
    assert!(!help.contains("fully recover"));
}

#[test]
fn global() {
    let parsed = cli::parse(vec![
        "sidecar",
        "doctor",
        "--config",
        "examples/minimal.toml",
        "--format=json",
    ])
    .unwrap();

    assert_eq!(parsed.command, vec!["doctor"]);
    assert_eq!(parsed.config.as_deref(), Some("examples/minimal.toml"));
    assert_eq!(parsed.format, "json");
}

#[test]
fn version() {
    let parsed = cli::parse(vec!["sidecar", "--version"]).unwrap();
    assert_eq!(parsed.command, vec!["--version"]);
}

#[test]
fn payload() {
    let parsed = cli::parse(vec![
        "sidecar",
        "inspect",
        "controller",
        "host",
        "{\"window\":\"main\"}",
        "--config",
        "x.toml",
    ])
    .unwrap();
    assert_eq!(
        parsed.command,
        vec!["inspect", "controller", "host", "{\"window\":\"main\"}"]
    );
    assert_eq!(parsed.config.as_deref(), Some("x.toml"));
    assert_eq!(parsed.timeout, 5);
}

#[test]
fn timeout() {
    let parsed = cli::parse(vec![
        "sidecar",
        "inspect",
        "controller",
        "accept.messaging",
        "{\"text\":\"hello\"}",
        "--inspect-timeout",
        "60",
        "--config",
        "x.toml",
    ])
    .unwrap();

    assert_eq!(parsed.timeout, 60);
}

#[test]
fn zero() {
    let error = cli::parse(vec![
        "sidecar",
        "inspect",
        "controller",
        "runtime.snapshot",
        "--inspect-timeout=0",
        "--config",
        "x.toml",
    ])
    .unwrap_err();

    assert!(error.contains("--inspect-timeout requires a positive integer value"));
}

#[test]
fn project() {
    let parsed = cli::parse(vec![
        "sidecar",
        "-p",
        "staging",
        "status",
        "--config=x.toml",
    ])
    .unwrap();
    assert_eq!(parsed.project.as_deref(), Some("staging"));

    let parsed = cli::parse(vec![
        "sidecar",
        "--project=prod",
        "list",
        "--config",
        "x.toml",
    ])
    .unwrap();
    assert_eq!(parsed.project.as_deref(), Some("prod"));
}

#[test]
fn reset() {
    let parsed = cli::parse(vec![
        "sidecar",
        "--data-home",
        "/var/sidecar",
        "reset",
        "--all",
        "--config",
        "x.toml",
    ])
    .unwrap();
    assert_eq!(parsed.home.as_deref(), Some("/var/sidecar"));
    assert!(parsed.all);
    assert!(!parsed.force);
}

#[test]
fn force() {
    let parsed = cli::parse(vec![
        "sidecar", "stop", "api", "--force", "--config", "x.toml",
    ])
    .unwrap();

    assert_eq!(parsed.command, vec!["stop", "api"]);
    assert!(parsed.force);
}

#[test]
fn serve() {
    let parsed = cli::parse(vec![
        "sidecar",
        "runtime",
        "serve",
        "example",
        "default",
        "--sidecar-broker=p=example;n=default;s=tool%3Asidecar",
    ])
    .unwrap();

    assert_eq!(
        parsed.command,
        vec![
            "runtime",
            "serve",
            "example",
            "default",
            "--sidecar-broker=p=example;n=default;s=tool%3Asidecar"
        ]
    );
}

#[test]
fn parse_runtime_serve() {
    let parsed = cli::parse(vec![
        "sidecar",
        "runtime",
        "serve",
        "example",
        "default",
        "--sidecar-broker=p=example;n=default;s=tool%3Asidecar",
    ])
    .unwrap();

    assert_eq!(
        parsed.command,
        vec![
            "runtime",
            "serve",
            "example",
            "default",
            "--sidecar-broker=p=example;n=default;s=tool%3Asidecar"
        ]
    );
}

#[test]
fn defaults_when_no_options() {
    let parsed = cli::parse(vec!["sidecar", "plan"]).unwrap();
    assert_eq!(parsed.command, vec!["plan"]);
    assert_eq!(parsed.config, None);
    assert_eq!(parsed.format, "text");
    assert_eq!(parsed.timeout, 5);
    assert!(!parsed.all);
    assert!(!parsed.force);
}

#[test]
fn unknown_option_is_refused() {
    let error = cli::parse(vec!["sidecar", "plan", "--bogus"]).unwrap_err();
    assert_eq!(error, "unknown option: --bogus");
}

#[test]
fn option_without_value_is_refused() {
    let error = cli::parse(vec!["sidecar", "plan", "--config"]).unwrap_err();
    assert_eq!(error, "--config requires a value");
}

#[test]
fn bad_format_is_refused() {
    assert!(cli::parse(vec!["sidecar", "plan", "--format", "yaml"]).is_err());
}

#[test]
fn help_flags_are_commands() {
    let parsed = cli::parse(vec!["sidecar", "-h", "-V"]).unwrap();
    assert_eq!(parsed.command, vec!["-h", "-V"]);
}

#[test]
fn build_version_and_channel() {
    assert_eq!(cli::version(Some("v1.2.3"), "0.4.0"), "v1.2.3");
    assert_eq!(cli::version(None, "0.4.0"), "v0.4.0");
    assert_eq!(cli::channel(Some("beta")), "beta");
    assert_eq!(cli::channel(None), "dev");
}

#[test]
fn explicit_manifest_is_not_discovered() {
    let located = cli::locate(Some("x.toml"), "/a/b", |_: &str| true).unwrap();
    assert_eq!(located, ("x.toml".to_string(), false));
}

#[test]
fn nearest_manifest_is_discovered() {
    let located = cli::locate(None, "/a/b", |p: &str| p == "/a/sidecar.toml").unwrap();
    assert_eq!(located, ("/a/sidecar.toml".to_string(), true));
}

#[test]
fn missing_manifest_lists_the_search() {
    let err = cli::locate(None, "/a/b", |_: &str| false).unwrap_err();
    assert_eq!(
        err,
        "no sidecar config found from /a/b upward.\nHint: create sidecar.toml here or pass --config <path>.\nSearched:\n- /a/b/sidecar.toml\n- /a/sidecar.toml\n- /sidecar.toml"
    );
    assert!(err.contains("Hint: create sidecar.toml here or pass --config <path>."));
}

#[test]
fn candidates_from_root() {
    assert_eq!(cli::candidates("/"), vec!["/sidecar.toml"]);
}
