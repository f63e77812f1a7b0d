use sidecar::diagnostics::Diagnostic;
use sidecar::lifecycle::{
    reset_steps, stops_broker, verdict, Cleanup, Ensure, EnsureStep, Reap, ReapStep, Watch,
    WatchStep, WAIT,
};
use sidecar::runtime::Ready;

#[test]
fn doctor_fails_only_on_errors() {
    let warning = Diagnostic::warning("app".to_string(), "no targets".to_string());
    let error = Diagnostic::error("project.name".to_string(), "required".to_string());
    assert_eq!(verdict(&vec![]), Ok(()));
    assert_eq!(verdict(&vec![warning.clone()]), Ok(()));
    assert_eq!(
        verdict(&vec![warning, error]),
        Err("sidecar doctor found configuration errors".to_string())
    );
}

#[test]
fn broker_goes_with_a_full_stop_or_an_idle_namespace() {
    assert!(stops_broker(None, true));
    assert!(stops_broker(Some("api"), false));
    assert!(!stops_broker(Some("api"), true));
}

#[test]
fn reset_removes_data_after_processes() {
    assert_eq!(
        reset_steps(false),
        vec![Cleanup::Targets, Cleanup::Stamped, Cleanup::Broker, Cleanup::Project]
    );
    assert_eq!(reset_steps(true).last(), Some(&Cleanup::Global));
}

fn done(step: ReapStep) -> Result<(), String> {
    match step {
        ReapStep::Done(result) => result,
        _ => panic!("expected the end of the reap"),
    }
}

#[test]
fn graceful_reap() {
    let (mut reap, step) = Reap::new(3, false);
    assert!(matches!(step, ReapStep::Wait(WAIT)));
    assert_eq!(done(reap.gone(true)), Ok(()));
    let (mut reap, _) = Reap::new(3, false);
    assert_eq!(
        done(reap.gone(false)),
        Err("pid 3 did not exit after graceful stop; rerun with --force to kill it".to_string())
    );
}

#[test]
fn forced_reap() {
    let (mut reap, _) = Reap::new(8, true);
    assert!(matches!(reap.gone(false), ReapStep::Kill));
    assert!(matches!(reap.killed(Ok(())), ReapStep::Wait(2)));
    assert_eq!(
        done(reap.gone(false)),
        Err("timed out waiting for pid 8 to exit".to_string())
    );
    let (mut reap, _) = Reap::new(8, true);
    reap.gone(false);
    assert_eq!(done(reap.killed(Err("kill failed".to_string()))), Err("kill failed".to_string()));
}

#[test]
fn running_broker_is_found_without_a_start() {
    let (mut e, step) = Ensure::new("/tmp/b.log");
    assert!(matches!(step, EnsureStep::Probe(200)));
    match e.found(Some("127.0.0.1:4100")) {
        EnsureStep::Found { endpoint, notice } => {
            assert_eq!(endpoint, "tcp://127.0.0.1:4100");
            assert_eq!(notice, None);
        }
        _ => panic!("expected the endpoint"),
    }
}

#[test]
fn started_broker_is_polled_until_it_answers_or_times_out() {
    let (mut e, _) = Ensure::new("/tmp/b.log");
    assert!(matches!(e.found(None), EnsureStep::Spawn));
    assert!(matches!(e.spawned(77), EnsureStep::Check(5)));
    assert!(matches!(e.expired(false), EnsureStep::Probe(200)));
    assert!(matches!(e.found(None), EnsureStep::Pause(100)));
    assert!(matches!(e.paused(), EnsureStep::Check(5)));
    assert!(matches!(e.expired(false), EnsureStep::Probe(_)));
    match e.found(Some("127.0.0.1:9")) {
        EnsureStep::Found { endpoint, notice } => {
            assert_eq!(endpoint, "tcp://127.0.0.1:9");
            assert_eq!(notice.as_deref(), Some("broker runtime pid=77 endpoint=tcp://127.0.0.1:9"));
        }
        _ => panic!("expected the endpoint"),
    }
    let (mut e, _) = Ensure::new("/tmp/b.log");
    e.found(None);
    e.spawned(78);
    match e.expired(true) {
        EnsureStep::Failed(m) => {
            assert_eq!(m, "timed out waiting for broker runtime pid=78; see /tmp/b.log")
        }
        _ => panic!("expected a failure"),
    }
}

#[test]
fn readiness_wait() {
    let (mut w, step) = Watch::new("server", 30, "/logs/api.log");
    assert!(matches!(step, WatchStep::Check(30)));
    assert!(matches!(w.expired(false), WatchStep::Poll));
    assert!(matches!(w.exited(None), WatchStep::Scan));
    assert!(matches!(w.scanned(None), WatchStep::Pause(100)));
    assert!(matches!(w.paused(), WatchStep::Check(30)));
    w.expired(false);
    w.exited(None);
    let ready = Ready { role: "server".into(), endpoint: None, runtime: None, instance: None };
    match w.scanned(Some(ready)) {
        WatchStep::Done(Ok(r)) => assert_eq!(r.role, "server"),
        _ => panic!("expected readiness"),
    }
    let (mut w, _) = Watch::new("server", 30, "/logs/api.log");
    w.expired(false);
    match w.exited(Some("exit status: 1")) {
        WatchStep::Done(Err(m)) => assert_eq!(
            m,
            "target exited before ready with status exit status: 1; see /logs/api.log"
        ),
        _ => panic!("expected a failure"),
    }
    let (mut w, _) = Watch::new("server", 0, "/logs/api.log");
    match w.expired(true) {
        WatchStep::Done(Err(m)) => assert_eq!(
            m,
            "timed out waiting for ready role \"server\"; see /logs/api.log"
        ),
        _ => panic!("expected a failure"),
    }
}
