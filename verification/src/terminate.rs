//! The signalling sequence that stops or kills a process and its group.
//!
//! Running `kill` and asking whether a process is still alive are the
//! caller's part: the caller performs each step that a `Termination` hands
//! out and reports what came of it, until the sequence is done.
use vstd::prelude::*;
use crate::text::{decimal, decimal_string, owned, push_str};

verus! {

/// Which sequence to run.
#[derive(Clone, Copy, Debug, PartialEq, Eq, Structural)]
pub enum Mode {
    /// A graceful stop: give up early when the process is already gone,
    /// then `kill -TERM` the group, then the process.
    Stop,
    /// A forced kill: `kill -KILL` the group, then, while the process is
    /// still alive, the process itself.
    Kill,
    /// The plain signal: `kill -TERM` the group, then the process, with no
    /// liveness checks.
    Signal,
}

/// Where a sequence stands.
#[derive(Clone, Copy, Debug, PartialEq, Eq, Structural)]
pub enum Phase {
    /// Waiting for the first liveness answer.
    Begin,
    /// Waiting for the outcome of the group signal.
    Grouped,
    /// Waiting for the liveness answer after a failed group signal.
    Probed,
    /// Waiting for the outcome of the process signal.
    Single,
    /// Waiting for the liveness answer after a failed process signal.
    Checked,
    /// The sequence is over.
    Over,
}

/// What the caller reports back.
pub enum Event {
    /// Whether the process is alive.
    Alive(bool),
    /// Whether `kill` succeeded, and the text of its exit status.
    Ran(bool, String),
}

/// What the caller does next.
pub enum Step {
    /// Ask whether the process is alive (`kill -0`); report `Event::Alive`.
    Probe,
    /// Run `kill` with these arguments; report `Event::Ran`.
    Run(Vec<String>),
    /// The sequence is over with this outcome.
    Done(Result<(), String>),
}

/// A step as plain values.
pub enum StepView {
    Probe,
    Run(Seq<Seq<char>>),
    Done(Result<(), Seq<char>>),
}

impl View for Step {
    type V = StepView;

    open spec fn view(&self) -> StepView {
        match self {
            Step::Probe => StepView::Probe,
            Step::Run(args) => StepView::Run(args@.map_values(|a: String| a@)),
            Step::Done(Ok(())) => StepView::Done(Ok(())),
            Step::Done(Err(m)) => StepView::Done(Err(m@)),
        }
    }
}

/// One running sequence.
pub struct Termination {
    pub mode: Mode,
    pub pid: u32,
    pub phase: Phase,
    /// The exit status of the group signal, once it failed.
    pub group: String,
}

/// A sequence as plain values.
pub struct TerminationView {
    pub mode: Mode,
    pub pid: u32,
    pub phase: Phase,
    pub group: Seq<char>,
}

impl View for Termination {
    type V = TerminationView;

    open spec fn view(&self) -> TerminationView {
        TerminationView { mode: self.mode, pid: self.pid, phase: self.phase, group: self.group@ }
    }
}

/// The signal option of a mode.
pub open spec fn signal_of(mode: Mode) -> Seq<char> {
    match mode {
        Mode::Kill => "-KILL"@,
        _ => "-TERM"@,
    }
}

/// The `kill` arguments that signal the process group (`group`) or the
/// process alone.
pub open spec fn kill_args(mode: Mode, pid: u32, group: bool) -> Seq<Seq<char>> {
    let target = if group {
        seq!['-'] + decimal(pid as nat)
    } else {
        decimal(pid as nat)
    };
    match mode {
        Mode::Signal => seq![signal_of(mode), target],
        _ => seq![signal_of(mode), "--"@, target],
    }
}

/// The report of a sequence in which both signals failed.
pub open spec fn failure(mode: Mode, pid: u32, group: Seq<char>, single: Seq<char>) -> Seq<char> {
    "kill "@ + signal_of(mode) + " -"@ + decimal(pid as nat) + " exited with status "@ + group
        + "; kill "@ + signal_of(mode) + " "@ + decimal(pid as nat) + " exited with status "@
        + single
}

/// The state and first step of a sequence.
pub open spec fn start(mode: Mode, pid: u32) -> (TerminationView, StepView) {
    match mode {
        Mode::Stop => (TerminationView { mode, pid, phase: Phase::Begin, group: seq![] }, StepView::Probe),
        _ => (
            TerminationView { mode, pid, phase: Phase::Grouped, group: seq![] },
            StepView::Run(kill_args(mode, pid, true)),
        ),
    }
}

/// Whether `e` answers the step that a sequence in phase `p` handed out.
pub open spec fn fits(p: Phase, e: Event) -> bool {
    match p {
        Phase::Begin | Phase::Probed | Phase::Checked => e is Alive,
        Phase::Grouped | Phase::Single => e is Ran,
        Phase::Over => false,
    }
}

/// The state and step that follow the report `e`.
pub open spec fn next(t: TerminationView, e: Event) -> (TerminationView, StepView) {
    let over = TerminationView { phase: Phase::Over, ..t };
    match (t.phase, e) {
        (Phase::Begin, Event::Alive(alive)) => if alive {
            (TerminationView { phase: Phase::Grouped, ..t }, StepView::Run(kill_args(t.mode, t.pid, true)))
        } else {
            (over, StepView::Done(Ok(())))
        },
        (Phase::Grouped, Event::Ran(ok, status)) => if ok {
            (over, StepView::Done(Ok(())))
        } else if t.mode == Mode::Kill {
            (TerminationView { phase: Phase::Probed, group: status@, ..t }, StepView::Probe)
        } else {
            (
                TerminationView { phase: Phase::Single, group: status@, ..t },
                StepView::Run(kill_args(t.mode, t.pid, false)),
            )
        },
        (Phase::Probed, Event::Alive(alive)) => if alive {
            (TerminationView { phase: Phase::Single, ..t }, StepView::Run(kill_args(t.mode, t.pid, false)))
        } else {
            (over, StepView::Done(Ok(())))
        },
        (Phase::Single, Event::Ran(ok, status)) => if ok {
            (over, StepView::Done(Ok(())))
        } else if t.mode == Mode::Signal {
            (over, StepView::Done(Err(failure(t.mode, t.pid, t.group, status@))))
        } else {
            (
                TerminationView { phase: Phase::Checked, group: failure(t.mode, t.pid, t.group, status@), ..t },
                StepView::Probe,
            )
        },
        (Phase::Checked, Event::Alive(alive)) => if alive {
            (over, StepView::Done(Err(t.group)))
        } else {
            (over, StepView::Done(Ok(())))
        },
        _ => (t, StepView::Probe),
    }
}

/// How many reports a sequence in phase `p` can still take.
pub open spec fn left(p: Phase) -> nat {
    match p {
        Phase::Begin => 5,
        Phase::Grouped => 4,
        Phase::Probed => 3,
        Phase::Single => 2,
        Phase::Checked => 1,
        Phase::Over => 0,
    }
}

/// The `kill` arguments for the group or the process alone.
fn args(mode: Mode, pid: u32, group: bool) -> (r: Vec<String>)
    ensures
        r@.map_values(|a: String| a@) == kill_args(mode, pid, group),
{
    let signal = match mode {
        Mode::Kill => owned("-KILL"),
        _ => owned("-TERM"),
    };
    let mut target = if group {
        owned("-")
    } else {
        String::new()
    };
    let number = decimal_string(pid as u64);
    push_str(&mut target, number.as_str());
    let mut out: Vec<String> = Vec::new();
    out.push(signal);
    match mode {
        Mode::Signal => {},
        _ => out.push(owned("--")),
    }
    out.push(target);
    proof {
        reveal_strlit("-KILL");
        reveal_strlit("-TERM");
        reveal_strlit("--");
        reveal_strlit("-");
    }
    assert(signal@ == signal_of(mode));
    assert(target@ == if group {
        seq!['-'] + decimal(pid as nat)
    } else {
        decimal(pid as nat)
    });
    assert(out@.map_values(|a: String| a@) =~= kill_args(mode, pid, group));
    out
}

/// The report of a sequence in which both signals failed.
fn failed(mode: Mode, pid: u32, group: &str, single: &str) -> (r: String)
    ensures
        r@ == failure(mode, pid, group@, single@),
{
    let signal = match mode {
        Mode::Kill => "-KILL",
        _ => "-TERM",
    };
    let number = decimal_string(pid as u64);
    let mut m = owned("kill ");
    push_str(&mut m, signal);
    push_str(&mut m, " -");
    push_str(&mut m, number.as_str());
    push_str(&mut m, " exited with status ");
    push_str(&mut m, group);
    push_str(&mut m, "; kill ");
    push_str(&mut m, signal);
    push_str(&mut m, " ");
    push_str(&mut m, number.as_str());
    push_str(&mut m, " exited with status ");
    push_str(&mut m, single);
    proof {
        reveal_strlit("-KILL");
        reveal_strlit("-TERM");
    }
    m
}

impl Termination {
    /// Starts a sequence for `pid`: the sequence and its first step.
    pub fn new(mode: Mode, pid: u32) -> (r: (Termination, Step))
        ensures
            (r.0@, r.1@) == start(mode, pid),
    {
        match mode {
            Mode::Stop => (Termination { mode, pid, phase: Phase::Begin, group: String::new() }, Step::Probe),
            _ => (
                Termination { mode, pid, phase: Phase::Grouped, group: String::new() },
                Step::Run(args(mode, pid, true)),
            ),
        }
    }

    /// Takes the report of the step last handed out and gives the next one.
    pub fn advance(&mut self, event: Event) -> (r: Step)
        requires
            fits(old(self).phase, event),
        ensures
            (final(self)@, r@) == next(old(self)@, event),
    {
        let mode = self.mode;
        let pid = self.pid;
        match (self.phase, event) {
            (Phase::Begin, Event::Alive(alive)) => {
                if alive {
                    self.phase = Phase::Grouped;
                    Step::Run(args(mode, pid, true))
                } else {
                    self.phase = Phase::Over;
                    Step::Done(Ok(()))
                }
            },
            (Phase::Grouped, Event::Ran(ok, status)) => {
                if ok {
                    self.phase = Phase::Over;
                    Step::Done(Ok(()))
                } else if mode == Mode::Kill {
                    self.phase = Phase::Probed;
                    self.group = status;
                    Step::Probe
                } else {
                    self.phase = Phase::Single;
                    self.group = status;
                    Step::Run(args(mode, pid, false))
                }
            },
            (Phase::Probed, Event::Alive(alive)) => {
                if alive {
                    self.phase = Phase::Single;
                    Step::Run(args(mode, pid, false))
                } else {
                    self.phase = Phase::Over;
                    Step::Done(Ok(()))
                }
            },
            (Phase::Single, Event::Ran(ok, status)) => {
                if ok {
                    self.phase = Phase::Over;
                    Step::Done(Ok(()))
                } else {
                    let report = failed(mode, pid, self.group.as_str(), status.as_str());
                    if mode == Mode::Signal {
                        self.phase = Phase::Over;
                        Step::Done(Err(report))
                    } else {
                        self.phase = Phase::Checked;
                        self.group = report;
                        Step::Probe
                    }
                }
            },
            (Phase::Checked, Event::Alive(alive)) => {
                self.phase = Phase::Over;
                if alive {
                    Step::Done(Err(self.group.clone()))
                } else {
                    Step::Done(Ok(()))
                }
            },
            _ => Step::Probe,
        }
    }
}

/// Every report moves a sequence closer to its end: a fitting report
/// leaves it with fewer reports to take, and once it is over, no report
/// fits.
pub proof fn lemma_progress(t: TerminationView, e: Event)
    requires
        fits(t.phase, e),
    ensures
        left(next(t, e).0.phase) < left(t.phase),
        next(t, e).1 is Done <==> next(t, e).0.phase == Phase::Over,
{
}

/// A sequence fails only when both signals failed, and, unless it is the
/// plain signal, the process was found alive after them.
pub proof fn lemma_failure(t: TerminationView, e: Event)
    requires
        fits(t.phase, e),
        next(t, e).1 matches StepView::Done(Err(_)),
    ensures
        (t.phase == Phase::Checked && e == Event::Alive(true)) || (t.mode == Mode::Signal
            && t.phase == Phase::Single && (e matches Event::Ran(ok, _) && !ok)),
{
}

} // verus!
