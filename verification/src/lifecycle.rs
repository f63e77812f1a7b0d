//! Lifecycle decisions around stopping targets: the doctor's verdict, when
//! the runtime broker goes with a stop, the order of a reset, and the
//! wait-then-kill sequence that reaps a signalled process.
//!
//! Waiting, killing and removing directories are the caller's part: the
//! caller performs each step handed out and reports what came of it.
use vstd::prelude::*;
use crate::diagnostics::{Diagnostic, Severity};
use crate::runtime::{Ready, ReadyView};
use crate::text::{debug_quoted, debug_text, decimal, decimal_string, owned, push_str};

verus! {

/// The message of a doctor run that found errors.
pub open spec fn doctor_failure() -> Seq<char> {
    "sidecar doctor found configuration errors"@
}

/// Whether some finding is an error.
pub open spec fn has_error(d: Seq<Diagnostic>) -> bool {
    exists|i: int| 0 <= i < d.len() && #[trigger] d[i].severity == Severity::Error
}

/// The doctor's verdict on its findings: a failure exactly when one of them
/// is an error (warnings alone pass).
pub fn verdict(diagnostics: &Vec<Diagnostic>) -> (r: Result<(), String>)
    ensures
        has_error(diagnostics@) ==> (r matches Err(m) && m@ == doctor_failure()),
        !has_error(diagnostics@) ==> r is Ok,
{
    let mut i: usize = 0;
    while i < diagnostics.len()
        invariant
            i <= diagnostics@.len(),
            forall|j: int| 0 <= j < i ==> #[trigger] diagnostics@[j].severity != Severity::Error,
        decreases diagnostics@.len() - i,
    {
        match diagnostics[i].severity {
            Severity::Error => {
                return Err(owned("sidecar doctor found configuration errors"));
            },
            Severity::Warning => {},
        }
        i = i + 1;
    }
    Ok(())
}

/// Whether a stop also stops the runtime broker: always when every target
/// is stopped (`target` is `None`), and when one target is named, only
/// when no target of the namespace is still running (`busy` is false).
pub fn stops_broker(target: Option<&str>, busy: bool) -> (r: bool)
    ensures
        r == (target is None || !busy),
{
    target.is_none() || !busy
}

/// One part of a reset.
#[derive(Clone, Copy, Debug, PartialEq, Eq, Structural)]
pub enum Cleanup {
    /// Stop and reap the running processes of each target.
    Targets,
    /// Stop and reap every other stamped process of the namespace.
    Stamped,
    /// Stop the runtime broker.
    Broker,
    /// Remove the project's data directory.
    Project,
    /// Remove the global state directory.
    Global,
}

/// The parts of a reset, in order: every process goes before any data, and
/// the global state goes only with `--all`.
pub open spec fn reset_of(all: bool) -> Seq<Cleanup> {
    seq![Cleanup::Targets, Cleanup::Stamped, Cleanup::Broker, Cleanup::Project] + if all {
        seq![Cleanup::Global]
    } else {
        Seq::<Cleanup>::empty()
    }
}

/// The parts of a reset, in the order the caller performs them.
pub fn reset_steps(all: bool) -> (r: Vec<Cleanup>)
    ensures
        r@ == reset_of(all),
{
    let mut v: Vec<Cleanup> = Vec::new();
    v.push(Cleanup::Targets);
    v.push(Cleanup::Stamped);
    v.push(Cleanup::Broker);
    v.push(Cleanup::Project);
    if all {
        v.push(Cleanup::Global);
    }
    assert(v@ =~= reset_of(all));
    v
}

/// The seconds a reap waits for a process to go, each time it waits.
pub const WAIT: u64 = 2;

/// Where a reap stands.
#[derive(Clone, Copy, Debug, PartialEq, Eq, Structural)]
pub enum ReapPhase {
    /// Waiting for the process to go after the graceful signal.
    Graceful,
    /// Waiting for the outcome of the kill.
    Killing,
    /// Waiting for the process to go after the kill.
    Forced,
    /// The reap is over.
    Over,
}

/// What the caller does next.
pub enum ReapStep {
    /// Wait up to this many seconds for the process to go; report `gone`.
    Wait(u64),
    /// Kill the process; report `killed`.
    Kill,
    /// The reap is over with this outcome.
    Done(Result<(), String>),
}

/// A reap step as plain values.
pub enum ReapStepView {
    Wait(u64),
    Kill,
    Done(Result<(), Seq<char>>),
}

impl View for ReapStep {
    type V = ReapStepView;

    open spec fn view(&self) -> ReapStepView {
        match self {
            ReapStep::Wait(s) => ReapStepView::Wait(*s),
            ReapStep::Kill => ReapStepView::Kill,
            ReapStep::Done(Ok(())) => ReapStepView::Done(Ok(())),
            ReapStep::Done(Err(m)) => ReapStepView::Done(Err(m@)),
        }
    }
}

/// One running reap of a signalled process.
#[derive(Clone, Copy, Debug, PartialEq, Eq, Structural)]
pub struct Reap {
    pub pid: u32,
    /// Whether the process may be killed when it does not go.
    pub force: bool,
    pub phase: ReapPhase,
}

/// The message of a process that outlived the graceful signal.
pub open spec fn lingering(pid: u32) -> Seq<char> {
    "pid "@ + decimal(pid as nat) + " did not exit after graceful stop; rerun with --force to kill it"@
}

/// The message of a process that outlived the kill.
pub open spec fn outlived(pid: u32) -> Seq<char> {
    "timed out waiting for pid "@ + decimal(pid as nat) + " to exit"@
}

/// The reap and step after the report that the process is gone (`gone`)
/// or not, from phase `Graceful` or `Forced`.
pub open spec fn after_wait(t: Reap, gone: bool) -> (Reap, ReapStepView) {
    let over = Reap { phase: ReapPhase::Over, ..t };
    if gone {
        (over, ReapStepView::Done(Ok(())))
    } else if t.phase == ReapPhase::Forced {
        (over, ReapStepView::Done(Err(outlived(t.pid))))
    } else if !t.force {
        (over, ReapStepView::Done(Err(lingering(t.pid))))
    } else {
        (Reap { phase: ReapPhase::Killing, ..t }, ReapStepView::Kill)
    }
}

/// The reap and step after the kill's outcome.
pub open spec fn after_kill(t: Reap, outcome: Result<(), Seq<char>>) -> (Reap, ReapStepView) {
    match outcome {
        Ok(()) => (Reap { phase: ReapPhase::Forced, ..t }, ReapStepView::Wait(WAIT)),
        Err(e) => (Reap { phase: ReapPhase::Over, ..t }, ReapStepView::Done(Err(e))),
    }
}

impl Reap {
    /// Starts reaping `pid`: first wait for it to go.
    pub fn new(pid: u32, force: bool) -> (r: (Reap, ReapStep))
        ensures
            r.0 == (Reap { pid, force, phase: ReapPhase::Graceful }),
            r.1@ == ReapStepView::Wait(WAIT),
    {
        (Reap { pid, force, phase: ReapPhase::Graceful }, ReapStep::Wait(WAIT))
    }

    /// Takes the report of a wait: whether the process is gone.
    pub fn gone(&mut self, gone: bool) -> (r: ReapStep)
        requires
            old(self).phase == ReapPhase::Graceful || old(self).phase == ReapPhase::Forced,
        ensures
            (*final(self), r@) == after_wait(*old(self), gone),
    {
        let pid = self.pid;
        if gone {
            self.phase = ReapPhase::Over;
            return ReapStep::Done(Ok(()));
        }
        let n = decimal_string(pid as u64);
        if self.phase == ReapPhase::Forced {
            self.phase = ReapPhase::Over;
            let mut m = owned("timed out waiting for pid ");
            push_str(&mut m, n.as_str());
            push_str(&mut m, " to exit");
            ReapStep::Done(Err(m))
        } else if !self.force {
            self.phase = ReapPhase::Over;
            let mut m = owned("pid ");
            push_str(&mut m, n.as_str());
            push_str(&mut m, " did not exit after graceful stop; rerun with --force to kill it");
            ReapStep::Done(Err(m))
        } else {
            self.phase = ReapPhase::Killing;
            ReapStep::Kill
        }
    }

    /// Takes the outcome of the kill.
    pub fn killed(&mut self, outcome: Result<(), String>) -> (r: ReapStep)
        requires
            old(self).phase == ReapPhase::Killing,
        ensures
            (*final(self), r@) == after_kill(
                *old(self),
                match outcome {
                    Ok(()) => Ok(()),
                    Err(e) => Err(e@),
                },
            ),
    {
        match outcome {
            Ok(()) => {
                self.phase = ReapPhase::Forced;
                ReapStep::Wait(WAIT)
            },
            Err(e) => {
                self.phase = ReapPhase::Over;
                ReapStep::Done(Err(e))
            },
        }
    }
}

/// A reap without `--force` never kills, and a reap succeeds only on a
/// report that the process is gone.
pub proof fn lemma_reap(t: Reap, gone: bool)
    requires
        t.phase == ReapPhase::Graceful || t.phase == ReapPhase::Forced,
    ensures
        !t.force ==> after_wait(t, gone).1 !is Kill,
        after_wait(t, gone).1 == ReapStepView::Done(Ok(())) <==> gone,
{
}

/// How long, in milliseconds, one probe of a broker endpoint may take.
pub const PROBE: u64 = 200;

/// How long, in seconds, a newly started broker has to answer.
pub const START: u64 = 5;

/// How long, in milliseconds, to pause between two polls.
pub const PAUSE: u64 = 100;

/// Where ensuring a broker stands.
#[derive(Clone, Copy, Debug, PartialEq, Eq, Structural)]
pub enum EnsurePhase {
    /// Looking for a broker that already answers.
    Look,
    /// Starting a broker.
    Spawning,
    /// Asking whether the start-up time is over.
    Checking,
    /// Looking for the started broker's endpoint.
    Polling,
    /// Pausing between two polls.
    Pausing,
    /// Over.
    Over,
}

/// What the caller does next while ensuring a broker.
pub enum EnsureStep {
    /// Probe the listeners of the brokers with this timeout in
    /// milliseconds; report `found`.
    Probe(u64),
    /// Start the broker runtime; report `spawned`.
    Spawn,
    /// Say whether this many seconds have passed since the start; report
    /// `expired`.
    Check(u64),
    /// Pause this many milliseconds; report `paused`.
    Pause(u64),
    /// The broker answers at this endpoint; print the notice, if any.
    Found { endpoint: String, notice: Option<String> },
    /// The broker did not answer in time.
    Failed(String),
}

/// A step of ensuring a broker as plain values.
pub enum EnsureStepView {
    Probe(u64),
    Spawn,
    Check(u64),
    Pause(u64),
    Found { endpoint: Seq<char>, notice: Option<Seq<char>> },
    Failed(Seq<char>),
}

impl View for EnsureStep {
    type V = EnsureStepView;

    open spec fn view(&self) -> EnsureStepView {
        match self {
            EnsureStep::Probe(t) => EnsureStepView::Probe(*t),
            EnsureStep::Spawn => EnsureStepView::Spawn,
            EnsureStep::Check(t) => EnsureStepView::Check(*t),
            EnsureStep::Pause(t) => EnsureStepView::Pause(*t),
            EnsureStep::Found { endpoint, notice } => EnsureStepView::Found {
                endpoint: endpoint@,
                notice: crate::argv::opt_view(*notice),
            },
            EnsureStep::Failed(m) => EnsureStepView::Failed(m@),
        }
    }
}

/// Ensuring that one broker runs for a project and namespace.
pub struct Ensure {
    pub phase: EnsurePhase,
    /// The pid of the started broker.
    pub pid: u32,
    /// Where the started broker logs.
    pub log: String,
}

/// The endpoint of a broker listening at `addr`.
pub open spec fn endpoint_of(addr: Seq<char>) -> Seq<char> {
    "tcp://"@ + addr
}

/// What is printed when a started broker answers.
pub open spec fn started_notice(pid: u32, addr: Seq<char>) -> Seq<char> {
    "broker runtime pid="@ + decimal(pid as nat) + " endpoint="@ + endpoint_of(addr)
}

/// The message when a started broker does not answer in time.
pub open spec fn start_timeout(pid: u32, log: Seq<char>) -> Seq<char> {
    "timed out waiting for broker runtime pid="@ + decimal(pid as nat) + "; see "@ + log
}

fn tcp_endpoint(addr: &str) -> (r: String)
    ensures
        r@ == endpoint_of(addr@),
{
    let mut e = owned("tcp://");
    push_str(&mut e, addr);
    e
}

impl Ensure {
    /// Starts ensuring a broker whose log, if it has to be started, is
    /// `log`: first probe for one that already answers.
    pub fn new(log: &str) -> (r: (Ensure, EnsureStep))
        ensures
            r.0.phase == EnsurePhase::Look,
            r.0.log@ == log@,
            r.1@ == EnsureStepView::Probe(PROBE),
    {
        (Ensure { phase: EnsurePhase::Look, pid: 0, log: owned(log) }, EnsureStep::Probe(PROBE))
    }

    /// Takes the outcome of a probe: the address of a broker that answered.
    pub fn found(&mut self, addr: Option<&str>) -> (r: EnsureStep)
        requires
            old(self).phase == EnsurePhase::Look || old(self).phase == EnsurePhase::Polling,
        ensures
            final(self).pid == old(self).pid,
            final(self).log == old(self).log,
            match addr {
                Some(a) => final(self).phase == EnsurePhase::Over && r@ == EnsureStepView::Found {
                    endpoint: endpoint_of(a@),
                    notice: if old(self).phase == EnsurePhase::Polling {
                        Some(started_notice(old(self).pid, a@))
                    } else {
                        None
                    },
                },
                None => if old(self).phase == EnsurePhase::Look {
                    final(self).phase == EnsurePhase::Spawning && r@ == EnsureStepView::Spawn
                } else {
                    final(self).phase == EnsurePhase::Pausing && r@ == EnsureStepView::Pause(PAUSE)
                },
            },
    {
        match addr {
            Some(a) => {
                let notice = if self.phase == EnsurePhase::Polling {
                    let mut n = owned("broker runtime pid=");
                    push_str(&mut n, decimal_string(self.pid as u64).as_str());
                    push_str(&mut n, " endpoint=");
                    push_str(&mut n, tcp_endpoint(a).as_str());
                    Some(n)
                } else {
                    None
                };
                self.phase = EnsurePhase::Over;
                EnsureStep::Found { endpoint: tcp_endpoint(a), notice }
            },
            None => {
                if self.phase == EnsurePhase::Look {
                    self.phase = EnsurePhase::Spawning;
                    EnsureStep::Spawn
                } else {
                    self.phase = EnsurePhase::Pausing;
                    EnsureStep::Pause(PAUSE)
                }
            },
        }
    }

    /// Takes the pid of the started broker.
    pub fn spawned(&mut self, pid: u32) -> (r: EnsureStep)
        requires
            old(self).phase == EnsurePhase::Spawning,
        ensures
            final(self).phase == EnsurePhase::Checking,
            final(self).pid == pid,
            final(self).log == old(self).log,
            r@ == EnsureStepView::Check(START),
    {
        self.phase = EnsurePhase::Checking;
        self.pid = pid;
        EnsureStep::Check(START)
    }

    /// Takes whether the start-up time is over.
    pub fn expired(&mut self, over: bool) -> (r: EnsureStep)
        requires
            old(self).phase == EnsurePhase::Checking,
        ensures
            final(self).pid == old(self).pid,
            final(self).log == old(self).log,
            over ==> final(self).phase == EnsurePhase::Over && r@ == EnsureStepView::Failed(
                start_timeout(old(self).pid, old(self).log@),
            ),
            !over ==> final(self).phase == EnsurePhase::Polling && r@ == EnsureStepView::Probe(PROBE),
    {
        if over {
            self.phase = EnsurePhase::Over;
            let mut m = owned("timed out waiting for broker runtime pid=");
            push_str(&mut m, decimal_string(self.pid as u64).as_str());
            push_str(&mut m, "; see ");
            push_str(&mut m, self.log.as_str());
            EnsureStep::Failed(m)
        } else {
            self.phase = EnsurePhase::Polling;
            EnsureStep::Probe(PROBE)
        }
    }

    /// Takes the end of a pause.
    pub fn paused(&mut self) -> (r: EnsureStep)
        requires
            old(self).phase == EnsurePhase::Pausing,
        ensures
            final(self).phase == EnsurePhase::Checking,
            final(self).pid == old(self).pid,
            final(self).log == old(self).log,
            r@ == EnsureStepView::Check(START),
    {
        self.phase = EnsurePhase::Checking;
        EnsureStep::Check(START)
    }
}

/// Where waiting for a target's readiness stands.
#[derive(Clone, Copy, Debug, PartialEq, Eq, Structural)]
pub enum WatchPhase {
    /// Asking whether the readiness time is over.
    Checking,
    /// Asking whether the target has exited.
    Polling,
    /// Reading the target's log.
    Scanning,
    /// Pausing between two rounds.
    Pausing,
    /// Over.
    Over,
}

/// What the caller does next while waiting for readiness.
pub enum WatchStep {
    /// Say whether this many seconds have passed since the start; report
    /// `expired`.
    Check(u64),
    /// Ask whether the target has exited; report `exited`.
    Poll,
    /// Read the log for the role's report; report `scanned`.
    Scan,
    /// Pause this many milliseconds; report `paused`.
    Pause(u64),
    /// The wait is over with this outcome.
    Done(Result<Ready, String>),
}

/// A step of waiting for readiness as plain values.
pub enum WatchStepView {
    Check(u64),
    Poll,
    Scan,
    Pause(u64),
    Done(Result<ReadyView, Seq<char>>),
}

impl View for WatchStep {
    type V = WatchStepView;

    open spec fn view(&self) -> WatchStepView {
        match self {
            WatchStep::Check(t) => WatchStepView::Check(*t),
            WatchStep::Poll => WatchStepView::Poll,
            WatchStep::Scan => WatchStepView::Scan,
            WatchStep::Pause(t) => WatchStepView::Pause(*t),
            WatchStep::Done(Ok(r)) => WatchStepView::Done(Ok(r@)),
            WatchStep::Done(Err(m)) => WatchStepView::Done(Err(m@)),
        }
    }
}

/// Waiting for a started target to report readiness for `role` within
/// `timeout` seconds, its output going to `log`.
pub struct Watch {
    pub phase: WatchPhase,
    pub role: String,
    pub timeout: u64,
    pub log: String,
}

/// The message when the target exits before it is ready.
pub open spec fn exited_early(status: Seq<char>, log: Seq<char>) -> Seq<char> {
    "target exited before ready with status "@ + status + "; see "@ + log
}

/// The message when the target is not ready in time.
pub open spec fn ready_timeout(role: Seq<char>, log: Seq<char>) -> Seq<char> {
    "timed out waiting for ready role "@ + debug_text(role) + "; see "@ + log
}

impl Watch {
    /// Starts waiting: first ask whether the time is over.
    pub fn new(role: &str, timeout: u64, log: &str) -> (r: (Watch, WatchStep))
        ensures
            r.0.phase == WatchPhase::Checking,
            r.0.role@ == role@,
            r.0.timeout == timeout,
            r.0.log@ == log@,
            r.1@ == WatchStepView::Check(timeout),
    {
        (
            Watch { phase: WatchPhase::Checking, role: owned(role), timeout, log: owned(log) },
            WatchStep::Check(timeout),
        )
    }

    /// Takes whether the readiness time is over.
    pub fn expired(&mut self, over: bool) -> (r: WatchStep)
        requires
            old(self).phase == WatchPhase::Checking,
        ensures
            final(self).role == old(self).role && final(self).log == old(self).log
                && final(self).timeout == old(self).timeout,
            over ==> final(self).phase == WatchPhase::Over && r@ == WatchStepView::Done(
                Err(ready_timeout(old(self).role@, old(self).log@)),
            ),
            !over ==> final(self).phase == WatchPhase::Polling && r@ == WatchStepView::Poll,
    {
        if over {
            self.phase = WatchPhase::Over;
            let mut m = owned("timed out waiting for ready role ");
            push_str(&mut m, debug_quoted(self.role.as_str()).as_str());
            push_str(&mut m, "; see ");
            push_str(&mut m, self.log.as_str());
            WatchStep::Done(Err(m))
        } else {
            self.phase = WatchPhase::Polling;
            WatchStep::Poll
        }
    }

    /// Takes the exit status of the target, if it has exited.
    pub fn exited(&mut self, status: Option<&str>) -> (r: WatchStep)
        requires
            old(self).phase == WatchPhase::Polling,
        ensures
            final(self).role == old(self).role && final(self).log == old(self).log
                && final(self).timeout == old(self).timeout,
            match status {
                Some(s) => final(self).phase == WatchPhase::Over && r@ == WatchStepView::Done(
                    Err(exited_early(s@, old(self).log@)),
                ),
                None => final(self).phase == WatchPhase::Scanning && r@ == WatchStepView::Scan,
            },
    {
        match status {
            Some(s) => {
                self.phase = WatchPhase::Over;
                let mut m = owned("target exited before ready with status ");
                push_str(&mut m, s);
                push_str(&mut m, "; see ");
                push_str(&mut m, self.log.as_str());
                WatchStep::Done(Err(m))
            },
            None => {
                self.phase = WatchPhase::Scanning;
                WatchStep::Scan
            },
        }
    }

    /// Takes the report read from the log for the role, if there is one.
    pub fn scanned(&mut self, ready: Option<Ready>) -> (r: WatchStep)
        requires
            old(self).phase == WatchPhase::Scanning,
        ensures
            final(self).role == old(self).role && final(self).log == old(self).log
                && final(self).timeout == old(self).timeout,
            match ready {
                Some(x) => final(self).phase == WatchPhase::Over && r@ == WatchStepView::Done(Ok(x@)),
                None => final(self).phase == WatchPhase::Pausing && r@ == WatchStepView::Pause(PAUSE),
            },
    {
        match ready {
            Some(x) => {
                self.phase = WatchPhase::Over;
                WatchStep::Done(Ok(x))
            },
            None => {
                self.phase = WatchPhase::Pausing;
                WatchStep::Pause(PAUSE)
            },
        }
    }

    /// Takes the end of a pause.
    pub fn paused(&mut self) -> (r: WatchStep)
        requires
            old(self).phase == WatchPhase::Pausing,
        ensures
            final(self).role == old(self).role && final(self).log == old(self).log
                && final(self).timeout == old(self).timeout,
            final(self).phase == WatchPhase::Checking,
            r@ == WatchStepView::Check(old(self).timeout),
    {
        self.phase = WatchPhase::Checking;
        WatchStep::Check(self.timeout)
    }
}

} // verus!
