use sidecar::broker::Identity;
use sidecar::launch::{broker_args, broker_log, health_url, log_path, work_dir};

#[test]
fn broker_log_name_is_sanitized() {
    let identity = Identity::new("my app", "dev/blue");
    assert_eq!(broker_log(&identity), "sidecar-broker-my_app-dev_blue.log");
}

#[test]
fn broker_runtime_arguments() {
    let identity = Identity::new("example", "default");
    assert_eq!(
        broker_args(&identity),
        vec![
            "runtime",
            "serve",
            "example",
            "default",
            "--sidecar-broker=p=example;n=default;s=tool%3Asidecar"
        ]
    );
}

#[test]
fn work_dir_is_taken_from_the_manifest() {
    assert_eq!(work_dir("/srv/app/sidecar.toml", "."), "/srv/app/.");
    assert_eq!(work_dir("/srv/app/sidecar.toml", "web"), "/srv/app/web");
    assert_eq!(work_dir("/srv/app/sidecar.toml", "/abs"), "/abs");
    assert_eq!(work_dir("inline.toml", "web"), "web");
    assert_eq!(work_dir("/sidecar.toml", "web"), "/web");
}

#[test]
fn log_files_live_under_logs() {
    assert_eq!(log_path("/data/projects/default", "api"), "/data/projects/default/logs/api.log");
}

#[test]
fn health_templates() {
    assert_eq!(health_url(None, Some(1)), None);
    assert_eq!(
        health_url(Some("http://127.0.0.1:3000/health"), None),
        Some("http://127.0.0.1:3000/health".to_string())
    );
    assert_eq!(
        health_url(Some("http://127.0.0.1:{port}/health"), Some(4100)),
        Some("http://127.0.0.1:4100/health".to_string())
    );
    assert_eq!(health_url(Some("http://127.0.0.1:{port}/health"), None), None);
}
