//! The text reports: doctor findings, the plan, target status and the
//! process listing, each as the lines the command prints.
use vstd::prelude::*;
use crate::argv::views;
use crate::diagnostics::{Diagnostic, Severity};
use crate::plan::{endpoint_views, spawn_args, Plan, Target, TargetView, Kind};
use crate::process::Stamped;
use crate::runtime::{command_line, runtime_line, runtime_text};
use crate::text::{decimal, decimal_string, join, owned, push_str};

verus! {

/// The lines `f` gives for each item of `v`, in order.
pub open spec fn lines_of<A>(v: Seq<A>, f: spec_fn(A) -> Seq<char>) -> Seq<char>
    decreases v.len(),
{
    if v.len() == 0 {
        seq![]
    } else {
        lines_of(v.drop_last(), f) + f(v.last())
    }
}

proof fn lemma_lines_step<A>(v: Seq<A>, f: spec_fn(A) -> Seq<char>, i: int)
    requires
        0 <= i < v.len(),
    ensures
        lines_of(v.take(i + 1), f) == lines_of(v.take(i), f) + f(v[i]),
{
    assert(v.take(i + 1).drop_last() =~= v.take(i));
    assert(v.take(i + 1).last() == v[i]);
}

/// The label of a severity.
pub open spec fn severity_label(s: Severity) -> Seq<char> {
    match s {
        Severity::Error => "error"@,
        Severity::Warning => "warning"@,
    }
}

/// The line of one finding.
pub open spec fn finding_line(d: (Severity, Seq<char>, Seq<char>)) -> Seq<char> {
    severity_label(d.0) + " "@ + d.1 + " - "@ + d.2 + "\n"@
}

/// The doctor's text report on the findings `d`.
pub open spec fn diagnostics_text(d: Seq<(Severity, Seq<char>, Seq<char>)>) -> Seq<char> {
    if d.len() == 0 {
        "sidecar doctor found no issues\n"@
    } else {
        "sidecar doctor found "@ + decimal(d.len()) + " issue(s)\n"@ + lines_of(
            d,
            |x: (Severity, Seq<char>, Seq<char>)| finding_line(x),
        )
    }
}

/// The doctor's text report.
pub fn diagnostics(d: &Vec<Diagnostic>) -> (r: String)
    ensures
        r@ == diagnostics_text(d@.map_values(|x: Diagnostic| x@)),
{
    let ghost all = d@.map_values(|x: Diagnostic| x@);
    let ghost f = |x: (Severity, Seq<char>, Seq<char>)| finding_line(x);
    if d.len() == 0 {
        return owned("sidecar doctor found no issues\n");
    }
    let mut out = owned("sidecar doctor found ");
    push_str(&mut out, decimal_string(d.len() as u64).as_str());
    push_str(&mut out, " issue(s)\n");
    let ghost head = out@;
    let mut i: usize = 0;
    assert(all.take(0) =~= Seq::<(Severity, Seq<char>, Seq<char>)>::empty());
    while i < d.len()
        invariant
            i <= d@.len(),
            all == d@.map_values(|x: Diagnostic| x@),
            f == (|x: (Severity, Seq<char>, Seq<char>)| finding_line(x)),
            out@ == head + lines_of(all.take(i as int), f),
        decreases d@.len() - i,
    {
        let label = match d[i].severity {
            Severity::Error => "error",
            Severity::Warning => "warning",
        };
        push_str(&mut out, label);
        push_str(&mut out, " ");
        push_str(&mut out, d[i].path.as_str());
        push_str(&mut out, " - ");
        push_str(&mut out, d[i].message.as_str());
        push_str(&mut out, "\n");
        proof {
            lemma_lines_step(all, f, i as int);
            reveal_strlit("error");
            reveal_strlit("warning");
        }
        i = i + 1;
    }
    assert(all.take(i as int) =~= all);
    out
}

/// The command line `command` with `args`, separated by spaces.
pub open spec fn line_of(command: Seq<char>, args: Seq<Seq<char>>) -> Seq<char> {
    join(seq![command] + args, " "@)
}

/// The lines of one target in the plan report.
pub open spec fn target_lines(t: (Kind, TargetView)) -> Seq<char> {
    let v = t.1;
    "- "@ + v.name + " [mode="@ + v.stamp.mode + "] -> "@ + line_of(
        v.command,
        spawn_args(v.args, v.stamp),
    ) + "\n"@ + match v.socket {
        Some(s) => "    inspect_socket: "@ + s + "\n"@,
        None => seq![],
    } + match v.ready {
        Some(r) => "    ready: "@ + r.0 + "\n"@,
        None => seq![],
    }
}

/// The line of one inspect endpoint in the plan report.
pub open spec fn endpoint_line(e: (Seq<char>, Seq<char>, Seq<char>)) -> Seq<char> {
    "- "@ + e.0 + " "@ + e.1 + " "@ + e.2 + "\n"@
}

/// The plan's text report.
pub open spec fn plan_text(p: Plan) -> Seq<char> {
    "project: "@ + p.project@ + " (namespace: "@ + p.namespace@ + ")\n"@ + match p.app {
        Some(a) => "app: "@ + a.name@ + " -> "@ + line_of(a.command@, views(a.args@)) + "\n"@,
        None => "app: <none>\n"@,
    } + "targets: "@ + decimal(p.targets@.len()) + "\n"@ + lines_of(
        p.targets@.map_values(|t: Target| t@),
        |t: (Kind, TargetView)| target_lines(t),
    ) + "inspect endpoints: "@ + decimal(p.endpoints@.len()) + "\n"@ + lines_of(
        endpoint_views(p.endpoints@),
        |e: (Seq<char>, Seq<char>, Seq<char>)| endpoint_line(e),
    )
}

fn target_text(t: &Target) -> (r: String)
    ensures
        r@ == target_lines(t@),
{
    let mut out = owned("- ");
    push_str(&mut out, t.name.as_str());
    push_str(&mut out, " [mode=");
    push_str(&mut out, t.stamp.mode.as_str());
    push_str(&mut out, "] -> ");
    push_str(&mut out, command_line(t.command.as_str(), &t.argv()).as_str());
    push_str(&mut out, "\n");
    match &t.socket {
        Some(s) => {
            push_str(&mut out, "    inspect_socket: ");
            push_str(&mut out, s.as_str());
            push_str(&mut out, "\n");
        },
        None => {},
    }
    match &t.ready {
        Some(r) => {
            push_str(&mut out, "    ready: ");
            push_str(&mut out, r.role.as_str());
            push_str(&mut out, "\n");
        },
        None => {},
    }
    out
}

/// The plan's text report.
pub fn plan(p: &Plan) -> (r: String)
    ensures
        r@ == plan_text(*p),
{
    let mut out = owned("project: ");
    push_str(&mut out, p.project.as_str());
    push_str(&mut out, " (namespace: ");
    push_str(&mut out, p.namespace.as_str());
    push_str(&mut out, ")\n");
    match &p.app {
        Some(a) => {
            push_str(&mut out, "app: ");
            push_str(&mut out, a.name.as_str());
            push_str(&mut out, " -> ");
            push_str(&mut out, command_line(a.command.as_str(), &a.args).as_str());
            push_str(&mut out, "\n");
        },
        None => push_str(&mut out, "app: <none>\n"),
    }
    push_str(&mut out, "targets: ");
    push_str(&mut out, decimal_string(p.targets.len() as u64).as_str());
    push_str(&mut out, "\n");
    let ghost ts = p.targets@.map_values(|t: Target| t@);
    let ghost f = |t: (Kind, TargetView)| target_lines(t);
    let ghost head = out@;
    let mut i: usize = 0;
    assert(ts.take(0) =~= Seq::<(Kind, TargetView)>::empty());
    while i < p.targets.len()
        invariant
            i <= p.targets@.len(),
            ts == p.targets@.map_values(|t: Target| t@),
            f == (|t: (Kind, TargetView)| target_lines(t)),
            out@ == head + lines_of(ts.take(i as int), f),
        decreases p.targets@.len() - i,
    {
        push_str(&mut out, target_text(&p.targets[i]).as_str());
        proof {
            lemma_lines_step(ts, f, i as int);
        }
        i = i + 1;
    }
    assert(ts.take(i as int) =~= ts);
    push_str(&mut out, "inspect endpoints: ");
    push_str(&mut out, decimal_string(p.endpoints.len() as u64).as_str());
    push_str(&mut out, "\n");
    let ghost es = endpoint_views(p.endpoints@);
    let ghost g = |e: (Seq<char>, Seq<char>, Seq<char>)| endpoint_line(e);
    let ghost mid = out@;
    let mut k: usize = 0;
    assert(es.take(0) =~= Seq::<(Seq<char>, Seq<char>, Seq<char>)>::empty());
    while k < p.endpoints.len()
        invariant
            k <= p.endpoints@.len(),
            es == endpoint_views(p.endpoints@),
            g == (|e: (Seq<char>, Seq<char>, Seq<char>)| endpoint_line(e)),
            out@ == mid + lines_of(es.take(k as int), g),
        decreases p.endpoints@.len() - k,
    {
        let e = &p.endpoints[k];
        push_str(&mut out, "- ");
        push_str(&mut out, e.name.as_str());
        push_str(&mut out, " ");
        push_str(&mut out, e.kind.as_str());
        push_str(&mut out, " ");
        push_str(&mut out, e.url.as_str());
        push_str(&mut out, "\n");
        proof {
            lemma_lines_step(es, g, k as int);
        }
        k = k + 1;
    }
    assert(es.take(k as int) =~= es);
    out
}

/// The line of a duplicate pid of a target.
pub open spec fn duplicate_line(pid: u32) -> Seq<char> {
    "  + duplicate (pid "@ + decimal(pid as nat) + ")\n"@
}

/// The lines of one target in the status report: its name and first pid
/// (and each further pid as a duplicate), or that it is stopped.
pub open spec fn status_lines(name: Seq<char>, pids: Seq<u32>) -> Seq<char> {
    if pids.len() == 0 {
        "- "@ + name + ": stopped\n"@
    } else {
        "- "@ + name + ": running (pid "@ + decimal(pids[0] as nat) + ")\n"@ + lines_of(
            pids.skip(1),
            |p: u32| duplicate_line(p),
        )
    }
}

/// The status report: the namespace, the runtime line, and each target.
pub open spec fn status_text(
    namespace: Seq<char>,
    rows: Seq<(Seq<char>, Seq<u32>)>,
    endpoint: Option<Seq<char>>,
    pids: Seq<u32>,
) -> Seq<char> {
    "namespace: "@ + namespace + "\n"@ + runtime_text(endpoint, pids) + "\n"@ + lines_of(
        rows,
        |r: (Seq<char>, Seq<u32>)| status_lines(r.0, r.1),
    )
}

/// The views of status rows.
pub open spec fn row_views(v: Seq<(String, Vec<u32>)>) -> Seq<(Seq<char>, Seq<u32>)> {
    v.map_values(|r: (String, Vec<u32>)| (r.0@, r.1@))
}

fn status_row(name: &str, pids: &Vec<u32>) -> (r: String)
    ensures
        r@ == status_lines(name@, pids@),
{
    let mut out = owned("- ");
    push_str(&mut out, name);
    if pids.len() == 0 {
        push_str(&mut out, ": stopped\n");
        return out;
    }
    push_str(&mut out, ": running (pid ");
    push_str(&mut out, decimal_string(pids[0] as u64).as_str());
    push_str(&mut out, ")\n");
    let ghost rest = pids@.skip(1);
    let ghost f = |p: u32| duplicate_line(p);
    let ghost head = out@;
    let mut i: usize = 1;
    assert(rest.take(0) =~= Seq::<u32>::empty());
    while i < pids.len()
        invariant
            1 <= i <= pids@.len(),
            rest == pids@.skip(1),
            f == (|p: u32| duplicate_line(p)),
            out@ == head + lines_of(rest.take(i - 1), f),
        decreases pids@.len() - i,
    {
        push_str(&mut out, "  + duplicate (pid ");
        push_str(&mut out, decimal_string(pids[i] as u64).as_str());
        push_str(&mut out, ")\n");
        proof {
            lemma_lines_step(rest, f, i - 1);
            assert(rest[i - 1] == pids@[i as int]);
        }
        i = i + 1;
    }
    assert(rest.take(i - 1) =~= rest);
    out
}

/// The status report.
pub fn status(namespace: &str, rows: &Vec<(String, Vec<u32>)>, endpoint: Option<&str>, pids: &Vec<u32>) -> (r: String)
    ensures
        r@ == status_text(
            namespace@,
            row_views(rows@),
            match endpoint {
                Some(e) => Some(e@),
                None => None,
            },
            pids@,
        ),
{
    let mut out = owned("namespace: ");
    push_str(&mut out, namespace);
    push_str(&mut out, "\n");
    push_str(&mut out, runtime_line(endpoint, pids).as_str());
    push_str(&mut out, "\n");
    let ghost rs = row_views(rows@);
    let ghost f = |r: (Seq<char>, Seq<u32>)| status_lines(r.0, r.1);
    let ghost head = out@;
    let mut i: usize = 0;
    assert(rs.take(0) =~= Seq::<(Seq<char>, Seq<u32>)>::empty());
    while i < rows.len()
        invariant
            i <= rows@.len(),
            rs == row_views(rows@),
            f == (|r: (Seq<char>, Seq<u32>)| status_lines(r.0, r.1)),
            out@ == head + lines_of(rs.take(i as int), f),
        decreases rows@.len() - i,
    {
        push_str(&mut out, status_row(rows[i].0.as_str(), &rows[i].1).as_str());
        proof {
            lemma_lines_step(rs, f, i as int);
        }
        i = i + 1;
    }
    assert(rs.take(i as int) =~= rs);
    out
}

/// The line of one stamped process in the listing.
pub open spec fn hit_line(h: (u32, Seq<char>)) -> Seq<char> {
    "- pid="@ + decimal(h.0 as nat) + " cmd="@ + h.1 + "\n"@
}

/// The line of one target recorded in the state file.
pub open spec fn saved_line(e: (Seq<char>, u64)) -> Seq<char> {
    "- target="@ + e.0 + " pid="@ + decimal(e.1 as nat) + " source=state\n"@
}

/// The listing: the namespace, the runtime line, each stamped process (or
/// that there is none), then each target the state file records with a
/// pid.
pub open spec fn list_text(
    namespace: Seq<char>,
    hits: Seq<(u32, Seq<char>)>,
    endpoint: Option<Seq<char>>,
    pids: Seq<u32>,
    saved: Seq<(Seq<char>, u64)>,
) -> Seq<char> {
    "namespace: "@ + namespace + "\n"@ + runtime_text(endpoint, pids) + "\n"@ + (if hits.len() == 0 {
        "no stamped processes\n"@
    } else {
        seq![]
    }) + lines_of(hits, |h: (u32, Seq<char>)| hit_line(h)) + lines_of(
        saved,
        |e: (Seq<char>, u64)| saved_line(e),
    )
}

/// The views of recorded targets.
pub open spec fn saved_views(v: Seq<(String, u64)>) -> Seq<(Seq<char>, u64)> {
    v.map_values(|e: (String, u64)| (e.0@, e.1))
}

/// The listing.
pub fn list(
    namespace: &str,
    hits: &Vec<Stamped>,
    endpoint: Option<&str>,
    pids: &Vec<u32>,
    saved: &Vec<(String, u64)>,
) -> (r: String)
    ensures
        r@ == list_text(
            namespace@,
            crate::process::stamped_views(hits@),
            match endpoint {
                Some(e) => Some(e@),
                None => None,
            },
            pids@,
            saved_views(saved@),
        ),
{
    let mut out = owned("namespace: ");
    push_str(&mut out, namespace);
    push_str(&mut out, "\n");
    push_str(&mut out, runtime_line(endpoint, pids).as_str());
    push_str(&mut out, "\n");
    if hits.len() == 0 {
        push_str(&mut out, "no stamped processes\n");
    }
    let ghost hs = crate::process::stamped_views(hits@);
    let ghost f = |h: (u32, Seq<char>)| hit_line(h);
    let ghost head = out@;
    let mut i: usize = 0;
    assert(hs.take(0) =~= Seq::<(u32, Seq<char>)>::empty());
    while i < hits.len()
        invariant
            i <= hits@.len(),
            hs == crate::process::stamped_views(hits@),
            f == (|h: (u32, Seq<char>)| hit_line(h)),
            out@ == head + lines_of(hs.take(i as int), f),
        decreases hits@.len() - i,
    {
        push_str(&mut out, "- pid=");
        push_str(&mut out, decimal_string(hits[i].pid as u64).as_str());
        push_str(&mut out, " cmd=");
        push_str(&mut out, hits[i].command.as_str());
        push_str(&mut out, "\n");
        proof {
            lemma_lines_step(hs, f, i as int);
        }
        i = i + 1;
    }
    assert(hs.take(i as int) =~= hs);
    let ghost ss = saved_views(saved@);
    let ghost g = |e: (Seq<char>, u64)| saved_line(e);
    let ghost mid = out@;
    let mut k: usize = 0;
    assert(ss.take(0) =~= Seq::<(Seq<char>, u64)>::empty());
    while k < saved.len()
        invariant
            k <= saved@.len(),
            ss == saved_views(saved@),
            g == (|e: (Seq<char>, u64)| saved_line(e)),
            out@ == mid + lines_of(ss.take(k as int), g),
        decreases saved@.len() - k,
    {
        push_str(&mut out, "- target=");
        push_str(&mut out, saved[k].0.as_str());
        push_str(&mut out, " pid=");
        push_str(&mut out, decimal_string(saved[k].1).as_str());
        push_str(&mut out, " source=state\n");
        proof {
            lemma_lines_step(ss, g, k as int);
        }
        k = k + 1;
    }
    assert(ss.take(k as int) =~= ss);
    out
}

} // verus!
