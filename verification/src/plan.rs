//! The launch plan that a manifest closes over: every target with its
//! command, arguments, directory, stamp, environment and inspect socket.
use std::collections::BTreeMap;
use vstd::prelude::*;
use crate::argv::{lemma_flag_skip, mentions, opt_view, views};
use crate::config;
use crate::config::Manifest;
use crate::stamp;
use crate::stamp::{Stamp, StampView};
use crate::text::{chars_of, owned, replace, replace_all, string_of};

verus! {

/// The resolved plan of a manifest.
#[derive(Clone, Debug, PartialEq, Eq)]
pub struct Plan {
    pub project: String,
    pub namespace: String,
    pub root: String,
    pub app: Option<App>,
    pub sidecars: Vec<Sidecar>,
    pub targets: Vec<Target>,
    pub endpoints: Vec<Endpoint>,
}

/// The planned foreground app.
#[derive(Clone, Debug, PartialEq, Eq)]
pub struct App {
    pub name: String,
    pub command: String,
    pub args: Vec<String>,
    pub cwd: String,
    pub stamp: Stamp,
    pub env: BTreeMap<String, String>,
    pub inherits: Vec<Inherit>,
    pub socket: Option<String>,
    pub health: Option<String>,
    pub ready: Option<Ready>,
}

/// A planned background sidecar.
#[derive(Clone, Debug, PartialEq, Eq)]
pub struct Sidecar {
    pub name: String,
    pub command: String,
    pub args: Vec<String>,
    pub cwd: String,
    pub stamp: Stamp,
    pub env: BTreeMap<String, String>,
    pub inherits: Vec<Inherit>,
    pub socket: Option<String>,
    pub health: Option<String>,
    pub ready: Option<Ready>,
}

/// A planned lifecycle target, sidecar or app.
#[derive(Clone, Debug, PartialEq, Eq)]
pub struct Target {
    pub name: String,
    pub kind: Kind,
    pub command: String,
    pub args: Vec<String>,
    pub cwd: String,
    pub stamp: Stamp,
    pub env: BTreeMap<String, String>,
    pub inherits: Vec<Inherit>,
    pub socket: Option<String>,
    pub health: Option<String>,
    pub ready: Option<Ready>,
}

/// Which manifest table a target comes from.
#[derive(Clone, Copy, Debug, PartialEq, Eq)]
pub enum Kind {
    App,
    Sidecar,
}

/// A planned readiness rule.
#[derive(Clone, Debug, PartialEq, Eq)]
pub struct Ready {
    pub role: String,
    pub timeout: u64,
}

/// A planned inherited environment variable.
#[derive(Clone, Debug, PartialEq, Eq)]
pub struct Inherit {
    pub name: String,
    pub from: String,
}

/// A planned inspect endpoint.
#[derive(Clone, Debug, PartialEq, Eq)]
pub struct Endpoint {
    pub name: String,
    pub kind: String,
    pub url: String,
}

/// A planned target as plain values.
pub struct TargetView {
    pub name: Seq<char>,
    pub command: Seq<char>,
    pub args: Seq<Seq<char>>,
    pub cwd: Seq<char>,
    pub stamp: StampView,
    pub env: Map<String, String>,
    pub inherits: Seq<(Seq<char>, Seq<char>)>,
    pub socket: Option<Seq<char>>,
    pub health: Option<Seq<char>>,
    pub ready: Option<(Seq<char>, u64)>,
}

/// The view of a list of inherited variables.
pub open spec fn inherit_views(v: Seq<Inherit>) -> Seq<(Seq<char>, Seq<char>)> {
    v.map_values(|i: Inherit| (i.name@, i.from@))
}

/// The view of a list of manifest inherited variables.
pub open spec fn config_inherit_views(v: Seq<config::Inherit>) -> Seq<(Seq<char>, Seq<char>)> {
    v.map_values(|i: config::Inherit| (i.name@, i.from@))
}

/// The view of an optional readiness rule.
pub open spec fn ready_view(r: Option<Ready>) -> Option<(Seq<char>, u64)> {
    match r {
        Some(x) => Some((x.role@, x.timeout)),
        None => None,
    }
}

/// The view of an optional manifest readiness rule.
pub open spec fn config_ready_view(r: Option<config::Ready>) -> Option<(Seq<char>, u64)> {
    match r {
        Some(x) => Some((x.role@, x.timeout)),
        None => None,
    }
}

impl View for App {
    type V = TargetView;

    open spec fn view(&self) -> TargetView {
        TargetView {
            name: self.name@,
            command: self.command@,
            args: views(self.args@),
            cwd: self.cwd@,
            stamp: self.stamp@,
            env: self.env@,
            inherits: inherit_views(self.inherits@),
            socket: opt_view(self.socket),
            health: opt_view(self.health),
            ready: ready_view(self.ready),
        }
    }
}

impl View for Sidecar {
    type V = TargetView;

    open spec fn view(&self) -> TargetView {
        TargetView {
            name: self.name@,
            command: self.command@,
            args: views(self.args@),
            cwd: self.cwd@,
            stamp: self.stamp@,
            env: self.env@,
            inherits: inherit_views(self.inherits@),
            socket: opt_view(self.socket),
            health: opt_view(self.health),
            ready: ready_view(self.ready),
        }
    }
}

impl View for Target {
    type V = (Kind, TargetView);

    open spec fn view(&self) -> (Kind, TargetView) {
        (
            self.kind,
            TargetView {
                name: self.name@,
                command: self.command@,
                args: views(self.args@),
                cwd: self.cwd@,
                stamp: self.stamp@,
                env: self.env@,
                inherits: inherit_views(self.inherits@),
                socket: opt_view(self.socket),
                health: opt_view(self.health),
                ready: ready_view(self.ready),
            },
        )
    }
}

/// The stamp planned for a target named `name` in `namespace` and `mode`.
pub open spec fn planned_stamp(name: Seq<char>, namespace: Seq<char>, mode: Seq<char>) -> StampView {
    StampView {
        version: stamp::VERSION,
        app: name,
        namespace: namespace,
        mode: mode,
        source: stamp::default::SOURCE@,
        endpoint: None,
    }
}

/// An inspect socket template with `{project}`, `{namespace}` and `{name}`
/// filled in, in that order.
pub open spec fn socket_path(
    template: Seq<char>,
    project: Seq<char>,
    namespace: Seq<char>,
    name: Seq<char>,
) -> Seq<char> {
    replace(
        replace(replace(template, "{project}"@, project), "{namespace}"@, namespace),
        "{name}"@,
        name,
    )
}

/// The plan of a target with the given manifest fields in `project`.
pub open spec fn planned(
    name: String,
    command: String,
    args: Vec<String>,
    cwd: String,
    mode: String,
    env: BTreeMap<String, String>,
    inherits: Vec<config::Inherit>,
    socket: Option<String>,
    health: Option<String>,
    ready: Option<config::Ready>,
    project: config::Project,
) -> TargetView {
    TargetView {
        name: name@,
        command: command@,
        args: views(args@),
        cwd: cwd@,
        stamp: planned_stamp(name@, project.namespace@, mode@),
        env: env@,
        inherits: config_inherit_views(inherits@),
        socket: match socket {
            Some(t) => Some(socket_path(t@, project.name@, project.namespace@, name@)),
            None => None,
        },
        health: opt_view(health),
        ready: config_ready_view(ready),
    }
}

/// The plan of a manifest app.
pub open spec fn app_plan(a: config::App, project: config::Project) -> TargetView {
    planned(
        a.name,
        a.command,
        a.args,
        a.cwd,
        a.mode,
        a.env,
        a.inherits,
        a.socket,
        a.health,
        a.ready,
        project,
    )
}

/// The plan of a manifest sidecar.
pub open spec fn sidecar_plan(s: config::Sidecar, project: config::Project) -> TargetView {
    planned(
        s.name,
        s.command,
        s.args,
        s.cwd,
        s.mode,
        s.env,
        s.inherits,
        s.socket,
        s.health,
        s.ready,
        project,
    )
}

/// The lifecycle targets of a manifest: its sidecars in declaration order,
/// then its app.
pub open spec fn target_plans(m: Manifest) -> Seq<(Kind, TargetView)> {
    m.sidecars@.map_values(|s: config::Sidecar| (Kind::Sidecar, sidecar_plan(s, m.project)))
        + match m.app {
        Some(a) => seq![(Kind::App, app_plan(a, m.project))],
        None => Seq::<(Kind, TargetView)>::empty(),
    }
}

/// The view of a list of endpoints.
pub open spec fn endpoint_views(v: Seq<Endpoint>) -> Seq<(Seq<char>, Seq<char>, Seq<char>)> {
    v.map_values(|e: Endpoint| (e.name@, e.kind@, e.url@))
}

/// The view of a list of manifest endpoints.
pub open spec fn config_endpoint_views(v: Seq<config::Endpoint>) -> Seq<
    (Seq<char>, Seq<char>, Seq<char>),
> {
    v.map_values(|e: config::Endpoint| (e.name@, e.kind@, e.url@))
}

/// The argument list a target is spawned with: its own arguments, then its
/// stamp argument.
pub open spec fn spawn_args(args: Seq<Seq<char>>, s: StampView) -> Seq<Seq<char>> {
    args.push(stamp::stamp_arg(s))
}

fn copy_strings(v: &Vec<String>) -> (r: Vec<String>)
    ensures
        views(r@) == views(v@),
{
    let mut out: Vec<String> = Vec::new();
    let mut i: usize = 0;
    while i < v.len()
        invariant
            i <= v@.len(),
            views(out@) == views(v@).take(i as int),
        decreases v@.len() - i,
    {
        let ghost before = out@;
        out.push(v[i].clone());
        assert(out@ == before.push(v@[i as int]));
        assert(views(before.push(v@[i as int])) =~= views(before).push(v@[i as int]@));
        assert(views(v@).take(i + 1) =~= views(v@).take(i as int).push(v@[i as int]@));
        i = i + 1;
    }
    assert(views(v@).take(v@.len() as int) =~= views(v@));
    out
}

fn copy_opt(o: &Option<String>) -> (r: Option<String>)
    ensures
        opt_view(r) == opt_view(*o),
{
    match o {
        Some(s) => Some(s.clone()),
        None => None,
    }
}

fn copy_inherits(v: &Vec<config::Inherit>) -> (r: Vec<Inherit>)
    ensures
        inherit_views(r@) == config_inherit_views(v@),
{
    let mut out: Vec<Inherit> = Vec::new();
    let mut i: usize = 0;
    while i < v.len()
        invariant
            i <= v@.len(),
            inherit_views(out@) == config_inherit_views(v@).take(i as int),
        decreases v@.len() - i,
    {
        let ghost before = out@;
        let x = v[i].plan();
        let ghost xv = (x.name@, x.from@);
        out.push(x);
        assert(inherit_views(out@) =~= inherit_views(before).push(xv));
        assert(config_inherit_views(v@).take(i + 1) =~= config_inherit_views(v@).take(i as int).push(xv));
        i = i + 1;
    }
    assert(config_inherit_views(v@).take(v@.len() as int) =~= config_inherit_views(v@));
    out
}

fn copy_ready(r: &Option<config::Ready>) -> (o: Option<Ready>)
    ensures
        ready_view(o) == config_ready_view(*r),
{
    match r {
        Some(x) => Some(x.plan()),
        None => None,
    }
}

/// Fills the `{project}`, `{namespace}` and `{name}` placeholders of an
/// inspect socket template.
fn expand(value: &str, project: &config::Project, name: &str) -> (r: String)
    ensures
        r@ == socket_path(value@, project.name@, project.namespace@, name@),
{
    proof {
        reveal_strlit("{project}");
        reveal_strlit("{namespace}");
        reveal_strlit("{name}");
    }
    let v = chars_of(value);
    let p1 = chars_of("{project}");
    let w1 = chars_of(project.name.as_str());
    let s1 = replace_all(&v, &p1, &w1);
    let p2 = chars_of("{namespace}");
    let w2 = chars_of(project.namespace.as_str());
    let s2 = replace_all(&s1, &p2, &w2);
    let p3 = chars_of("{name}");
    let w3 = chars_of(name);
    let s3 = replace_all(&s2, &p3, &w3);
    string_of(&s3)
}

fn planned_stamp_of(name: &String, project: &config::Project, mode: &String) -> (r: Stamp)
    ensures
        r@ == planned_stamp(name@, project.namespace@, mode@),
{
    Stamp {
        version: stamp::VERSION,
        app: name.clone(),
        namespace: project.namespace.clone(),
        mode: mode.clone(),
        source: owned(stamp::default::SOURCE),
        endpoint: None,
    }
}

fn planned_socket(socket: &Option<String>, project: &config::Project, name: &String) -> (r: Option<String>)
    ensures
        opt_view(r) == match *socket {
            Some(t) => Some(socket_path(t@, project.name@, project.namespace@, name@)),
            None => None::<Seq<char>>,
        },
{
    match socket {
        Some(value) => Some(expand(value.as_str(), project, name.as_str())),
        None => None,
    }
}

impl Manifest {
    /// The plan of this manifest.
    pub fn plan(&self) -> (r: Plan)
        ensures
            r.project@ == self.project.name@,
            r.namespace@ == self.project.namespace@,
            r.root@ == self.project.root@,
            match self.app {
                Some(a) => r.app matches Some(x) && x@ == app_plan(a, self.project),
                None => r.app is None,
            },
            r.sidecars@.map_values(|s: Sidecar| s@) == self.sidecars@.map_values(
                |s: config::Sidecar| sidecar_plan(s, self.project),
            ),
            r.targets@.map_values(|t: Target| t@) == target_plans(*self),
            endpoint_views(r.endpoints@) == config_endpoint_views(self.inspect.endpoints@),
    {
        let app = match &self.app {
            Some(a) => Some(a.plan(&self.project)),
            None => None,
        };
        let mut sidecars: Vec<Sidecar> = Vec::new();
        let mut i: usize = 0;
        while i < self.sidecars.len()
            invariant
                i <= self.sidecars@.len(),
                sidecars@.map_values(|s: Sidecar| s@) == self.sidecars@.map_values(
                    |s: config::Sidecar| sidecar_plan(s, self.project),
                ).take(i as int),
            decreases self.sidecars@.len() - i,
        {
            let ghost before = sidecars@;
            let x = self.sidecars[i].plan(&self.project);
            let ghost xv = x@;
            sidecars.push(x);
            assert(sidecars@.map_values(|s: Sidecar| s@) =~= before.map_values(|s: Sidecar| s@).push(xv));
            assert(self.sidecars@.map_values(|s: config::Sidecar| sidecar_plan(s, self.project)).take(i + 1)
                =~= self.sidecars@.map_values(|s: config::Sidecar| sidecar_plan(s, self.project)).take(i as int).push(xv));
            i = i + 1;
        }
        assert(self.sidecars@.map_values(|s: config::Sidecar| sidecar_plan(s, self.project)).take(
            self.sidecars@.len() as int,
        ) =~= self.sidecars@.map_values(|s: config::Sidecar| sidecar_plan(s, self.project)));
        let mut endpoints: Vec<Endpoint> = Vec::new();
        let mut k: usize = 0;
        while k < self.inspect.endpoints.len()
            invariant
                k <= self.inspect.endpoints@.len(),
                endpoint_views(endpoints@) == config_endpoint_views(self.inspect.endpoints@).take(
                    k as int,
                ),
            decreases self.inspect.endpoints@.len() - k,
        {
            let ghost before = endpoints@;
            let x = self.inspect.endpoints[k].plan();
            let ghost xv = (x.name@, x.kind@, x.url@);
            endpoints.push(x);
            assert(endpoint_views(endpoints@) =~= endpoint_views(before).push(xv));
            assert(config_endpoint_views(self.inspect.endpoints@).take(k + 1) =~= config_endpoint_views(
                self.inspect.endpoints@,
            ).take(k as int).push(xv));
            k = k + 1;
        }
        assert(config_endpoint_views(self.inspect.endpoints@).take(
            self.inspect.endpoints@.len() as int,
        ) =~= config_endpoint_views(self.inspect.endpoints@));
        Plan {
            project: self.project.name.clone(),
            namespace: self.project.namespace.clone(),
            root: self.project.root.clone(),
            app: app,
            sidecars: sidecars,
            targets: self.targets(),
            endpoints: endpoints,
        }
    }

    /// The lifecycle targets of this manifest: its sidecars in declaration
    /// order, then its app.
    pub fn targets(&self) -> (r: Vec<Target>)
        ensures
            r@.map_values(|t: Target| t@) == target_plans(*self),
    {
        let ghost side = self.sidecars@.map_values(
            |s: config::Sidecar| (Kind::Sidecar, sidecar_plan(s, self.project)),
        );
        let mut targets: Vec<Target> = Vec::new();
        let mut i: usize = 0;
        while i < self.sidecars.len()
            invariant
                i <= self.sidecars@.len(),
                side == self.sidecars@.map_values(
                    |s: config::Sidecar| (Kind::Sidecar, sidecar_plan(s, self.project)),
                ),
                targets@.map_values(|t: Target| t@) == side.take(i as int),
            decreases self.sidecars@.len() - i,
        {
            let plan = self.sidecars[i].plan(&self.project);
            let ghost before = targets@;
            let ghost pv = (Kind::Sidecar, plan@);
            targets.push(
                Target {
                    name: plan.name,
                    kind: Kind::Sidecar,
                    command: plan.command,
                    args: plan.args,
                    cwd: plan.cwd,
                    stamp: plan.stamp,
                    env: plan.env,
                    inherits: plan.inherits,
                    socket: plan.socket,
                    health: plan.health,
                    ready: plan.ready,
                },
            );
            assert(targets@.map_values(|t: Target| t@) =~= before.map_values(|t: Target| t@).push(pv));
            assert(side.take(i + 1) =~= side.take(i as int).push(pv));
            i = i + 1;
        }
        assert(side.take(self.sidecars@.len() as int) =~= side);
        if let Some(app) = &self.app {
            let plan = app.plan(&self.project);
            targets.push(
                Target {
                    name: plan.name,
                    kind: Kind::App,
                    command: plan.command,
                    args: plan.args,
                    cwd: plan.cwd,
                    stamp: plan.stamp,
                    env: plan.env,
                    inherits: plan.inherits,
                    socket: plan.socket,
                    health: plan.health,
                    ready: plan.ready,
                },
            );
        }
        assert(targets@.map_values(|t: Target| t@) =~= target_plans(*self));
        targets
    }
}

impl config::App {
    /// The plan of this app in `project`.
    pub fn plan(&self, project: &config::Project) -> (r: App)
        ensures
            r@ == app_plan(*self, *project),
    {
        App {
            name: self.name.clone(),
            command: self.command.clone(),
            args: copy_strings(&self.args),
            cwd: self.cwd.clone(),
            stamp: planned_stamp_of(&self.name, project, &self.mode),
            env: self.env.clone(),
            inherits: copy_inherits(&self.inherits),
            socket: planned_socket(&self.socket, project, &self.name),
            health: copy_opt(&self.health),
            ready: copy_ready(&self.ready),
        }
    }
}

impl config::Sidecar {
    /// The plan of this sidecar in `project`.
    pub fn plan(&self, project: &config::Project) -> (r: Sidecar)
        ensures
            r@ == sidecar_plan(*self, *project),
    {
        Sidecar {
            name: self.name.clone(),
            command: self.command.clone(),
            args: copy_strings(&self.args),
            cwd: self.cwd.clone(),
            stamp: planned_stamp_of(&self.name, project, &self.mode),
            env: self.env.clone(),
            inherits: copy_inherits(&self.inherits),
            socket: planned_socket(&self.socket, project, &self.name),
            health: copy_opt(&self.health),
            ready: copy_ready(&self.ready),
        }
    }
}

impl config::Ready {
    /// The planned copy of this readiness rule.
    pub fn plan(&self) -> (r: Ready)
        ensures
            r.role@ == self.role@,
            r.timeout == self.timeout,
    {
        Ready { role: self.role.clone(), timeout: self.timeout }
    }
}

impl config::Inherit {
    /// The planned copy of this inherited variable.
    pub fn plan(&self) -> (r: Inherit)
        ensures
            r.name@ == self.name@,
            r.from@ == self.from@,
    {
        Inherit { name: self.name.clone(), from: self.from.clone() }
    }
}

impl config::Endpoint {
    /// The planned copy of this endpoint.
    pub fn plan(&self) -> (r: Endpoint)
        ensures
            r.name@ == self.name@,
            r.kind@ == self.kind@,
            r.url@ == self.url@,
    {
        Endpoint { name: self.name.clone(), kind: self.kind.clone(), url: self.url.clone() }
    }
}

fn with_stamp(args: &Vec<String>, s: &Stamp) -> (r: Vec<String>)
    ensures
        views(r@) == spawn_args(views(args@), s@),
{
    let mut argv = copy_strings(args);
    let extra = s.args();
    let ghost before = argv@;
    argv.push(extra[0].clone());
    assert(views(argv@) =~= spawn_args(views(args@), s@));
    argv
}

impl App {
    /// The arguments this app is spawned with.
    pub fn argv(&self) -> (r: Vec<String>)
        ensures
            views(r@) == spawn_args(views(self.args@), self.stamp@),
    {
        with_stamp(&self.args, &self.stamp)
    }
}

impl Sidecar {
    /// The arguments this sidecar is spawned with.
    pub fn argv(&self) -> (r: Vec<String>)
        ensures
            views(r@) == spawn_args(views(self.args@), self.stamp@),
    {
        with_stamp(&self.args, &self.stamp)
    }
}

impl Target {
    /// The arguments this target is planned with.
    pub fn argv(&self) -> (r: Vec<String>)
        ensures
            views(r@) == spawn_args(views(self.args@), self.stamp@),
    {
        with_stamp(&self.args, &self.stamp)
    }

    /// The arguments this target is started with once the runtime broker
    /// listens at `endpoint`: its stamp then carries the endpoint.
    pub fn launch(&self, endpoint: &str) -> (r: Vec<String>)
        ensures
            views(r@) == spawn_args(
                views(self.args@),
                StampView { endpoint: Some(endpoint@), ..self.stamp@ },
            ),
    {
        let s = self.stamp.at(endpoint);
        with_stamp(&self.args, &s)
    }
}

/// A started target carries the runtime endpoint in its stamp: when none of
/// its own arguments mentions the stamp flag, reading the stamp back from the
/// arguments that `launch(endpoint)` gives yields its stamp with `endpoint`.
pub proof fn lemma_launch_carries_endpoint(args: Seq<Seq<char>>, s: StampView, endpoint: Seq<char>)
    requires
        s.version == stamp::VERSION,
        forall|i: int| 0 <= i < args.len() ==> !mentions(#[trigger] args[i], stamp::FLAG@),
    ensures
        stamp::stamp_in(spawn_args(args, StampView { endpoint: Some(endpoint), ..s }), false)
            == Some(StampView { endpoint: Some(endpoint), ..s }),
{
    let t = StampView { endpoint: Some(endpoint), ..s };
    lemma_flag_skip(args, seq![stamp::stamp_arg(t)], stamp::FLAG@);
    assert(spawn_args(args, t) =~= args + seq![stamp::stamp_arg(t)]);
    stamp::lemma_args_read(t);
}

/// Every planned target is stamped with its own name, the project
/// namespace, its mode, the current stamp version and sidecar's source.
pub proof fn lemma_targets_stamped(m: Manifest, i: int)
    requires
        0 <= i < target_plans(m).len(),
    ensures
        target_plans(m)[i].1.stamp.version == stamp::VERSION,
        target_plans(m)[i].1.stamp.app == target_plans(m)[i].1.name,
        target_plans(m)[i].1.stamp.namespace == m.project.namespace@,
        target_plans(m)[i].1.stamp.source == stamp::default::SOURCE@,
        target_plans(m)[i].1.stamp.endpoint is None,
{
    if i >= m.sidecars@.len() {
        assert(target_plans(m)[i] == (Kind::App, app_plan(m.app->0, m.project)));
    }
}

/// Whether `s` holds no `{`.
pub open spec fn brace_free(s: Seq<char>) -> bool {
    forall|i: int| 0 <= i < s.len() ==> s[i] != '{'
}

proof fn lemma_replace_free(s: Seq<char>, pat: Seq<char>, with: Seq<char>)
    requires
        pat.len() > 0,
        pat[0] == '{',
        brace_free(s),
    ensures
        replace(s, pat, with) == s,
    decreases s.len(),
{
    if s.len() > 0 {
        assert(!crate::text::starts_with(s, pat)) by {
            if crate::text::starts_with(s, pat) {
                assert(s.take(pat.len() as int)[0] == s[0]);
            }
        }
        assert(brace_free(s.drop_first()));
        lemma_replace_free(s.drop_first(), pat, with);
        assert(seq![s[0]] + s.drop_first() =~= s);
    }
}

proof fn lemma_replace_prefix(pre: Seq<char>, rest: Seq<char>, pat: Seq<char>, with: Seq<char>)
    requires
        pat.len() > 0,
        pat[0] == '{',
        brace_free(pre),
    ensures
        replace(pre + rest, pat, with) == pre + replace(rest, pat, with),
    decreases pre.len(),
{
    if pre.len() > 0 {
        let s = pre + rest;
        assert(s[0] == pre[0]);
        assert(!crate::text::starts_with(s, pat)) by {
            if crate::text::starts_with(s, pat) {
                assert(s.take(pat.len() as int)[0] == s[0]);
            }
        }
        assert(s.drop_first() =~= pre.drop_first() + rest);
        assert(brace_free(pre.drop_first()));
        lemma_replace_prefix(pre.drop_first(), rest, pat, with);
        assert(seq![pre[0]] + pre.drop_first() =~= pre);
        assert(seq![s[0]] + (pre.drop_first() + replace(rest, pat, with)) =~= pre + replace(
            rest,
            pat,
            with,
        ));
    } else {
        assert(pre + rest =~= rest);
        assert(pre + replace(rest, pat, with) =~= replace(rest, pat, with));
    }
}

/// A template whose only placeholder is one `{name}` is filled with the
/// target's own name, whatever the project and namespace are.
pub proof fn lemma_socket_name(
    project: Seq<char>,
    namespace: Seq<char>,
    name: Seq<char>,
    pre: Seq<char>,
    post: Seq<char>,
)
    requires
        brace_free(pre),
        brace_free(post),
    ensures
        socket_path(pre + "{name}"@ + post, project, namespace, name) == pre + name + post,
{
    reveal_strlit("{name}");
    reveal_strlit("{project}");
    reveal_strlit("{namespace}");
    let mid = "{name}"@ + post;
    let t = pre + mid;
    assert(pre + "{name}"@ + post =~= t);
    let tail = mid.drop_first();
    assert("{name}"@ =~= seq!['{', 'n', 'a', 'm', 'e', '}']);
    assert(brace_free(tail)) by {
        assert forall|i: int| 0 <= i < tail.len() implies tail[i] != '{' by {
            if i < 5 {
                assert(tail[i] == "{name}"@[i + 1]);
            } else {
                assert(tail[i] == post[i - 5]);
            }
        }
    }
    assert(mid[0] == '{');
    // {project} leaves the template as it is.
    lemma_replace_prefix(pre, mid, "{project}"@, project);
    assert(!crate::text::starts_with(mid, "{project}"@)) by {
        if crate::text::starts_with(mid, "{project}"@) {
            assert(mid.take(9)[1] == mid[1]);
        }
    }
    lemma_replace_free(tail, "{project}"@, project);
    assert(replace(mid, "{project}"@, project) =~= mid);
    // So does {namespace}.
    lemma_replace_prefix(pre, mid, "{namespace}"@, namespace);
    assert(!crate::text::starts_with(mid, "{namespace}"@)) by {
        if crate::text::starts_with(mid, "{namespace}"@) {
            assert(mid.take(11)[5] == mid[5]);
        }
    }
    lemma_replace_free(tail, "{namespace}"@, namespace);
    assert(replace(mid, "{namespace}"@, namespace) =~= mid);
    // {name} becomes the name.
    lemma_replace_prefix(pre, mid, "{name}"@, name);
    assert(crate::text::starts_with(mid, "{name}"@)) by {
        assert(mid.take(6) =~= "{name}"@);
    }
    assert(mid.skip(6) =~= post);
    lemma_replace_free(post, "{name}"@, name);
    assert(replace(mid, "{name}"@, name) =~= name + post);
    assert(pre + (name + post) =~= pre + name + post);
}

/// The planned inspect socket of a sidecar whose template's only
/// placeholder is one `{name}` is that template with the sidecar's own
/// name in place of `{name}`; the same holds of the app.
pub proof fn lemma_planned_socket_name(
    s: config::Sidecar,
    a: config::App,
    project: config::Project,
    pre: Seq<char>,
    post: Seq<char>,
)
    requires
        brace_free(pre),
        brace_free(post),
    ensures
        s.socket matches Some(t) && t@ == pre + "{name}"@ + post ==> sidecar_plan(s, project).socket
            == Some(pre + s.name@ + post),
        a.socket matches Some(t) && t@ == pre + "{name}"@ + post ==> app_plan(a, project).socket
            == Some(pre + a.name@ + post),
{
    lemma_socket_name(project.name@, project.namespace@, s.name@, pre, post);
    lemma_socket_name(project.name@, project.namespace@, a.name@, pre, post);
}

proof fn lemma_brace_free_concat(a: Seq<char>, b: Seq<char>, c: Seq<char>)
    requires
        brace_free(a),
        brace_free(b),
        brace_free(c),
    ensures
        brace_free(a + b + c),
{
    let s = a + b + c;
    assert forall|i: int| 0 <= i < s.len() implies s[i] != '{' by {
        if i < a.len() {
            assert(s[i] == a[i]);
        } else if i < a.len() + b.len() {
            assert(s[i] == b[i - a.len()]);
        } else {
            assert(s[i] == c[i - a.len() - b.len()]);
        }
    }
}

/// A template whose only placeholder is one `{project}` is filled with the
/// project name (one without braces), whatever the namespace and target
/// name are.
pub proof fn lemma_socket_project(
    project: Seq<char>,
    namespace: Seq<char>,
    name: Seq<char>,
    pre: Seq<char>,
    post: Seq<char>,
)
    requires
        brace_free(pre),
        brace_free(post),
        brace_free(project),
    ensures
        socket_path(pre + "{project}"@ + post, project, namespace, name) == pre + project + post,
{
    reveal_strlit("{name}");
    reveal_strlit("{project}");
    reveal_strlit("{namespace}");
    let mid = "{project}"@ + post;
    assert(pre + "{project}"@ + post =~= pre + mid);
    lemma_replace_prefix(pre, mid, "{project}"@, project);
    assert(crate::text::starts_with(mid, "{project}"@)) by {
        assert(mid.take(9) =~= "{project}"@);
    }
    assert(mid.skip(9) =~= post);
    lemma_replace_free(post, "{project}"@, project);
    let once = pre + project + post;
    assert(replace(pre + mid, "{project}"@, project) =~= once);
    lemma_brace_free_concat(pre, project, post);
    lemma_replace_free(once, "{namespace}"@, namespace);
    lemma_replace_free(once, "{name}"@, name);
}

/// A template whose only placeholder is one `{namespace}` is filled with
/// the namespace (one without braces), whatever the project and target
/// name are.
pub proof fn lemma_socket_namespace(
    project: Seq<char>,
    namespace: Seq<char>,
    name: Seq<char>,
    pre: Seq<char>,
    post: Seq<char>,
)
    requires
        brace_free(pre),
        brace_free(post),
        brace_free(namespace),
    ensures
        socket_path(pre + "{namespace}"@ + post, project, namespace, name) == pre + namespace + post,
{
    reveal_strlit("{name}");
    reveal_strlit("{project}");
    reveal_strlit("{namespace}");
    let mid = "{namespace}"@ + post;
    assert(pre + "{namespace}"@ + post =~= pre + mid);
    let tail = mid.drop_first();
    assert("{namespace}"@ =~= seq!['{', 'n', 'a', 'm', 'e', 's', 'p', 'a', 'c', 'e', '}']);
    assert(brace_free(tail)) by {
        assert forall|i: int| 0 <= i < tail.len() implies tail[i] != '{' by {
            if i < 10 {
                assert(tail[i] == "{namespace}"@[i + 1]);
            } else {
                assert(tail[i] == post[i - 10]);
            }
        }
    }
    lemma_replace_prefix(pre, mid, "{project}"@, project);
    assert(!crate::text::starts_with(mid, "{project}"@)) by {
        if crate::text::starts_with(mid, "{project}"@) {
            assert(mid.take(9)[1] == mid[1]);
        }
    }
    lemma_replace_free(tail, "{project}"@, project);
    assert(replace(mid, "{project}"@, project) =~= mid);
    lemma_replace_prefix(pre, mid, "{namespace}"@, namespace);
    assert(crate::text::starts_with(mid, "{namespace}"@)) by {
        assert(mid.take(11) =~= "{namespace}"@);
    }
    assert(mid.skip(11) =~= post);
    lemma_replace_free(post, "{namespace}"@, namespace);
    let once = pre + namespace + post;
    assert(replace(pre + mid, "{namespace}"@, namespace) =~= once);
    lemma_brace_free_concat(pre, namespace, post);
    lemma_replace_free(once, "{name}"@, name);
}

} // verus!
