use sidecar::runtime::{
    report, saved_pid, saved_port, saved_ready, scan,
    command_line, latest_ready, merge_pids, runtime_line, sanitize, Chain, Ready,
};

fn ready(role: &str, endpoint: Option<&str>) -> Ready {
    Ready {
        role: role.to_string(),
        endpoint: endpoint.map(str::to_string),
        runtime: None,
        instance: None,
    }
}

#[test]
fn latest_report_of_the_role_wins() {
    let reports = vec![
        Some(ready("server", Some("a"))),
        None,
        Some(ready("client", Some("b"))),
        Some(ready("server", Some("c"))),
        Some(ready("other", None)),
    ];
    let found = latest_ready(&reports, "server").unwrap();
    assert_eq!(found.endpoint.as_deref(), Some("c"));
    assert!(latest_ready(&reports, "missing").is_none());
    assert!(latest_ready(&Vec::new(), "server").is_none());
}

#[test]
fn chain_reads_back_what_was_recorded() {
    let mut chain = Chain::new();
    assert!(chain.get("server").is_none());
    chain.record("server", &ready("server", Some("tcp://127.0.0.1:1")));
    chain.record("server", &ready("server", Some("tcp://127.0.0.1:2")));
    assert_eq!(
        chain.get("server").unwrap().endpoint.as_deref(),
        Some("tcp://127.0.0.1:2")
    );
}

#[test]
fn pids_merge_without_duplicates() {
    assert_eq!(merge_pids(Some(5), &vec![7, 5, 9, 7]), vec![5, 7, 9]);
    assert_eq!(merge_pids(None, &vec![3, 3]), vec![3]);
}

#[test]
fn runtime_lines() {
    assert_eq!(runtime_line(None, &Vec::new()), "runtime: stopped");
    assert_eq!(
        runtime_line(None, &vec![4]),
        "runtime: starting or stale (pid 4)"
    );
    assert_eq!(
        runtime_line(Some("tcp://127.0.0.1:9"), &vec![4, 5]),
        "runtime: running (pid 4) tcp://127.0.0.1:9"
    );
}

#[test]
fn command_lines_and_names() {
    assert_eq!(
        command_line("cargo", &vec!["run".to_string(), "--".to_string()]),
        "cargo run --"
    );
    assert_eq!(command_line("node", &Vec::new()), "node");
    assert_eq!(sanitize("a b/c-d_e"), "a_b_c-d_e");
}

#[test]
fn log_reports_are_read_from_json_lines() {
    assert!(report("not json").is_none());
    let r = report("  {\"role\":\"server\",\"endpoint\":\"tcp://1\",\"instance_id\":\"i\"} ").unwrap();
    assert_eq!(r.role, "server");
    assert_eq!(r.endpoint.as_deref(), Some("tcp://1"));
    assert_eq!(r.runtime, None);
    assert_eq!(r.instance.as_deref(), Some("i"));
    assert_eq!(report("{}").unwrap().role, "");
    let log = "booting\n{\"role\":\"server\",\"endpoint\":\"a\"}\n{\"role\":\"server\",\"endpoint\":\"b\"}\n{\"role\":\"other\"}\n";
    assert_eq!(scan(log, "server").unwrap().endpoint.as_deref(), Some("b"));
    assert!(scan(log, "client").is_none());
}

#[test]
fn saved_state_is_read_per_target() {
    let state = "{\"api\":{\"pid\":42,\"port\":4100,\"ready\":{\"role\":\"server\",\"runtimeEndpoint\":\"tcp://x\"}},\"a/b\":{\"pid\":5000000000,\"ready\":null}}";
    assert_eq!(saved_pid(state, "api"), Some(42));
    assert_eq!(saved_port(state, "api"), Some(4100));
    let ready = saved_ready(state, "api").unwrap();
    assert_eq!(ready.role, "server");
    assert_eq!(ready.runtime.as_deref(), Some("tcp://x"));
    assert_eq!(saved_pid(state, "a/b"), None);
    assert_eq!(saved_ready(state, "a/b").unwrap().role, "");
    assert!(saved_ready(state, "web").is_none());
    assert_eq!(saved_pid("", "api"), None);
}

#[test]
fn pointer_tokens_are_escaped() {
    assert_eq!(sidecar::runtime::pointer_to("/x", "a/b~c"), "/x/a~1b~0c");
}
