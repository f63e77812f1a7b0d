use sidecar::terminate::{Event, Mode, Step, Termination};

fn run_args(step: &Step) -> Vec<String> {
    match step {
        Step::Run(args) => args.clone(),
        _ => panic!("expected a kill step"),
    }
}

fn done(step: Step) -> Result<(), String> {
    match step {
        Step::Done(result) => result,
        _ => panic!("expected the end of the sequence"),
    }
}

#[test]
fn stop_of_a_gone_process_succeeds_at_once() {
    let (mut t, step) = Termination::new(Mode::Stop, 42);
    assert!(matches!(step, Step::Probe));
    assert_eq!(done(t.advance(Event::Alive(false))), Ok(()));
}

#[test]
fn stop_signals_the_group_first() {
    let (mut t, _) = Termination::new(Mode::Stop, 42);
    let step = t.advance(Event::Alive(true));
    assert_eq!(run_args(&step), vec!["-TERM", "--", "-42"]);
    assert_eq!(done(t.advance(Event::Ran(true, "exit status: 0".into()))), Ok(()));
}

#[test]
fn stop_falls_back_to_the_process_and_reports_both_failures() {
    let (mut t, _) = Termination::new(Mode::Stop, 7);
    t.advance(Event::Alive(true));
    let step = t.advance(Event::Ran(false, "exit status: 1".into()));
    assert_eq!(run_args(&step), vec!["-TERM", "--", "7"]);
    let step = t.advance(Event::Ran(false, "exit status: 2".into()));
    assert!(matches!(step, Step::Probe));
    assert_eq!(
        done(t.advance(Event::Alive(true))),
        Err("kill -TERM -7 exited with status exit status: 1; kill -TERM 7 exited with status exit status: 2".to_string())
    );
}

#[test]
fn stop_succeeds_when_the_process_is_gone_after_failed_signals() {
    let (mut t, _) = Termination::new(Mode::Stop, 7);
    t.advance(Event::Alive(true));
    t.advance(Event::Ran(false, "a".into()));
    t.advance(Event::Ran(false, "b".into()));
    assert_eq!(done(t.advance(Event::Alive(false))), Ok(()));
}

#[test]
fn kill_checks_liveness_after_a_failed_group_signal() {
    let (mut t, step) = Termination::new(Mode::Kill, 9);
    assert_eq!(run_args(&step), vec!["-KILL", "--", "-9"]);
    assert!(matches!(t.advance(Event::Ran(false, "g".into())), Step::Probe));
    let step = t.advance(Event::Alive(true));
    assert_eq!(run_args(&step), vec!["-KILL", "--", "9"]);
    assert!(matches!(t.advance(Event::Ran(false, "p".into())), Step::Probe));
    assert_eq!(
        done(t.advance(Event::Alive(true))),
        Err("kill -KILL -9 exited with status g; kill -KILL 9 exited with status p".to_string())
    );
}

#[test]
fn kill_of_a_gone_process_succeeds() {
    let (mut t, _) = Termination::new(Mode::Kill, 9);
    t.advance(Event::Ran(false, "g".into()));
    assert_eq!(done(t.advance(Event::Alive(false))), Ok(()));
}

#[test]
fn plain_signal_reports_without_probing() {
    let (mut t, step) = Termination::new(Mode::Signal, 5);
    assert_eq!(run_args(&step), vec!["-TERM", "-5"]);
    let step = t.advance(Event::Ran(false, "x".into()));
    assert_eq!(run_args(&step), vec!["-TERM", "5"]);
    assert_eq!(
        done(t.advance(Event::Ran(false, "y".into()))),
        Err("kill -TERM -5 exited with status x; kill -TERM 5 exited with status y".to_string())
    );
}
