//! A loaded manifest and the checks `sidecar doctor` runs on it.
use vstd::prelude::*;
use crate::argv::{eq_str, views};
use crate::config;
use crate::config::Manifest;
use crate::diagnostics::{Diagnostic, Severity};
use crate::plan::Plan;
use crate::socket;
use crate::text::{chars_of, decimal, decimal_string, owned, piece, push_char, push_str, string_of, trim, trimmed};

verus! {

/// A manifest together with the path it was read from.
#[derive(Clone, Debug)]
pub struct State {
    pub path: String,
    pub config: Manifest,
}

/// A finding as plain values.
pub type DiagView = (Severity, Seq<char>, Seq<char>);

/// The views of a list of findings.
pub open spec fn diag_views(v: Seq<Diagnostic>) -> Seq<DiagView> {
    v.map_values(|d: Diagnostic| d@)
}

/// The message for a required value that is blank.
pub open spec fn blank_message() -> Seq<char> {
    "value must not be empty"@
}

/// The warning for a manifest without targets.
pub open spec fn empty_message() -> Seq<char> {
    "no app or sidecar command is configured; lifecycle commands have no targets"@
}

/// The warning for a `cargo run` target that would swallow the stamp.
pub open spec fn cargo_message() -> Seq<char> {
    "cargo run target may consume the appended --sidecar-stamp argument; add `--` after cargo run options"@
}

/// An error at `path` when `value` is blank.
pub open spec fn require(path: Seq<char>, value: Seq<char>) -> Seq<DiagView> {
    if trim(value).len() == 0 {
        seq![(Severity::Error, path, blank_message())]
    } else {
        seq![]
    }
}

/// An error at `<path>.inspect_socket` when the socket does not parse.
pub open spec fn socket_check(path: Seq<char>, s: Option<String>) -> Seq<DiagView> {
    match s {
        Some(text) => match socket::parse_text(text@) {
            Err(m) => seq![(Severity::Error, path + ".inspect_socket"@, m)],
            Ok(_) => seq![],
        },
        None => seq![],
    }
}

/// An error at `<path>.ready.role` when a readiness role is blank.
pub open spec fn ready_check(path: Seq<char>, ready: Option<config::Ready>) -> Seq<DiagView> {
    match ready {
        Some(r) => require(path + ".ready.role"@, r.role@),
        None => seq![],
    }
}

/// Whether `c` separates path components.
pub open spec fn is_separator(c: char) -> bool {
    c == '/' || c == '\\'
}

/// The last `/`- or `\`-separated component of `s`.
pub open spec fn base_name(s: Seq<char>) -> Seq<char>
    decreases s.len(),
{
    if s.len() == 0 {
        s
    } else if is_separator(s.last()) {
        seq![]
    } else {
        base_name(s.drop_last()).push(s.last())
    }
}

/// Whether a command runs cargo.
pub open spec fn is_cargo(command: Seq<char>) -> bool {
    base_name(command) == "cargo"@ || base_name(command) == "cargo.exe"@
}

/// The index of the first `x` in `args`.
pub open spec fn position(args: Seq<Seq<char>>, x: Seq<char>) -> Option<int>
    decreases args.len(),
{
    if args.len() == 0 {
        None
    } else if args[0] == x {
        Some(0)
    } else {
        match position(args.drop_first(), x) {
            Some(i) => Some(i + 1),
            None => None,
        }
    }
}

/// Whether `cargo` arguments run a program without a `--` after `run`, so
/// that cargo itself would read the appended stamp.
pub open spec fn consumes(args: Seq<Seq<char>>) -> bool {
    match position(args, "run"@) {
        None => false,
        Some(i) => forall|j: int| i < j < args.len() ==> args[j] != "--"@,
    }
}

/// A warning at `<path>.args` for a `cargo run` target without `--`.
pub open spec fn warn_check(path: Seq<char>, command: Seq<char>, args: Seq<Seq<char>>) -> Seq<DiagView> {
    if is_cargo(command) && consumes(args) {
        seq![(Severity::Warning, path + ".args"@, cargo_message())]
    } else {
        seq![]
    }
}

/// The findings about the app table.
pub open spec fn app_diags(a: config::App) -> Seq<DiagView> {
    require("app.name"@, a.name@) + require("app.command"@, a.command@) + require(
        "app.mode"@,
        a.mode@,
    ) + socket_check("app"@, a.socket) + ready_check("app"@, a.ready) + warn_check(
        "app"@,
        a.command@,
        views(a.args@),
    )
}

/// `prefix[i]`.
pub open spec fn indexed(prefix: Seq<char>, i: nat) -> Seq<char> {
    prefix + seq!['['] + decimal(i) + seq![']']
}

/// Whether the `i`-th name is non-blank and repeats an earlier one.
pub open spec fn duplicated(names: Seq<Seq<char>>, i: int) -> bool {
    trim(names[i]).len() > 0 && exists|j: int| 0 <= j < i && names[j] == names[i]
}

/// The names of the sidecars.
pub open spec fn sidecar_names(s: Seq<config::Sidecar>) -> Seq<Seq<char>> {
    s.map_values(|c: config::Sidecar| c.name@)
}

/// The names of the inspect endpoints.
pub open spec fn endpoint_names(s: Seq<config::Endpoint>) -> Seq<Seq<char>> {
    s.map_values(|c: config::Endpoint| c.name@)
}

/// The blank-field findings about a sidecar at `path`.
pub open spec fn sidecar_required(path: Seq<char>, c: config::Sidecar) -> Seq<DiagView> {
    require(path + ".name"@, c.name@) + require(path + ".command"@, c.command@) + require(
        path + ".mode"@,
        c.mode@,
    )
}

/// The duplicate-name finding about the `i`-th sidecar.
pub open spec fn sidecar_duplicate(path: Seq<char>, s: Seq<config::Sidecar>, i: int) -> Seq<DiagView> {
    if duplicated(sidecar_names(s), i) {
        seq![(Severity::Error, path + ".name"@, "duplicate sidecar name `"@ + s[i].name@ + "`"@)]
    } else {
        seq![]
    }
}

/// The socket, readiness and cargo findings about a target at `path`.
pub open spec fn sidecar_rest(path: Seq<char>, c: config::Sidecar) -> Seq<DiagView> {
    socket_check(path, c.socket) + ready_check(path, c.ready) + warn_check(
        path,
        c.command@,
        views(c.args@),
    )
}

/// The findings about the `i`-th sidecar.
pub open spec fn sidecar_diags(s: Seq<config::Sidecar>, i: int) -> Seq<DiagView> {
    let path = indexed("sidecars"@, i as nat);
    sidecar_required(path, s[i]) + sidecar_duplicate(path, s, i) + sidecar_rest(path, s[i])
}

/// The findings about the first `n` sidecars.
pub open spec fn sidecars_diags(s: Seq<config::Sidecar>, n: int) -> Seq<DiagView>
    decreases n,
{
    if n <= 0 {
        seq![]
    } else {
        sidecars_diags(s, n - 1) + sidecar_diags(s, n - 1)
    }
}

/// The findings about the `i`-th inspect endpoint.
pub open spec fn endpoint_diags(s: Seq<config::Endpoint>, i: int) -> Seq<DiagView> {
    let c = s[i];
    let path = indexed("inspect.endpoints"@, i as nat);
    require(path + ".name"@, c.name@) + require(path + ".kind"@, c.kind@) + require(
        path + ".url"@,
        c.url@,
    ) + if duplicated(endpoint_names(s), i) {
        seq![(Severity::Error, path + ".name"@, "duplicate inspect endpoint name `"@ + c.name@ + "`"@)]
    } else {
        seq![]
    }
}

/// The findings about the first `n` inspect endpoints.
pub open spec fn endpoints_diags(s: Seq<config::Endpoint>, n: int) -> Seq<DiagView>
    decreases n,
{
    if n <= 0 {
        seq![]
    } else {
        endpoints_diags(s, n - 1) + endpoint_diags(s, n - 1)
    }
}

/// All findings about a manifest, in the order `sidecar doctor` lists them.
pub open spec fn manifest_diags(m: Manifest) -> Seq<DiagView> {
    require("project.name"@, m.project.name@) + require(
        "project.namespace"@,
        m.project.namespace@,
    ) + match m.app {
        Some(a) => app_diags(a),
        None => if m.sidecars@.len() == 0 {
            seq![(Severity::Warning, "app"@, empty_message())]
        } else {
            seq![]
        },
    } + sidecars_diags(m.sidecars@, m.sidecars@.len() as int) + endpoints_diags(
        m.inspect.endpoints@,
        m.inspect.endpoints@.len() as int,
    )
}

fn emit(d: &mut Vec<Diagnostic>, x: Diagnostic)
    ensures
        diag_views(final(d)@) == diag_views(old(d)@).push(x@),
{
    let ghost xv = x@;
    d.push(x);
    assert(diag_views(final(d)@) =~= diag_views(old(d)@).push(xv));
}

fn append(path: &String, suffix: &str) -> (r: String)
    ensures
        r@ == path@ + suffix@,
{
    let mut p = path.clone();
    push_str(&mut p, suffix);
    p
}

fn require_value(d: &mut Vec<Diagnostic>, path: String, value: &String)
    ensures
        diag_views(final(d)@) == diag_views(old(d)@) + require(path@, value@),
{
    let v = chars_of(value.as_str());
    let t = trimmed(&v);
    if t.len() == 0 {
        emit(d, Diagnostic::error(path, owned("value must not be empty")));
    }
    assert(diag_views(final(d)@) =~= diag_views(old(d)@) + require(path@, value@));
}

fn check_socket(d: &mut Vec<Diagnostic>, path: &String, s: &Option<String>)
    ensures
        diag_views(final(d)@) == diag_views(old(d)@) + socket_check(path@, *s),
{
    if let Some(text) = s {
        if let Err(error) = socket::Endpoint::parse(text.as_str()) {
            emit(d, Diagnostic::error(append(path, ".inspect_socket"), error.to_string()));
        }
    }
    assert(diag_views(final(d)@) =~= diag_views(old(d)@) + socket_check(path@, *s));
}

fn check_ready(d: &mut Vec<Diagnostic>, path: &String, ready: &Option<config::Ready>)
    ensures
        diag_views(final(d)@) == diag_views(old(d)@) + ready_check(path@, *ready),
{
    match ready {
        Some(r) => {
            require_value(d, append(path, ".ready.role"), &r.role);
        },
        None => {
            assert(diag_views(final(d)@) =~= diag_views(old(d)@) + ready_check(path@, *ready));
        },
    }
}

proof fn lemma_base_name(s: Seq<char>, k: int)
    requires
        0 <= k <= s.len(),
        forall|i: int| k <= i < s.len() ==> !is_separator(#[trigger] s[i]),
        k == 0 || is_separator(s[k - 1]),
    ensures
        base_name(s) == s.skip(k),
    decreases s.len() - k,
{
    if k == s.len() {
        assert(s.skip(k) =~= Seq::<char>::empty());
    } else {
        lemma_base_name(s.drop_last(), k);
        assert(s.drop_last().skip(k).push(s.last()) =~= s.skip(k));
    }
}

/// Whether `command` runs cargo.
fn cargo(command: &String) -> (r: bool)
    ensures
        r == is_cargo(command@),
{
    let s = chars_of(command.as_str());
    let mut k: usize = s.len();
    while k > 0 && !(s[k - 1] == '/' || s[k - 1] == '\\')
        invariant
            k <= s@.len(),
            forall|i: int| k <= i < s@.len() ==> !is_separator(#[trigger] s@[i]),
        decreases k,
    {
        k = k - 1;
    }
    proof {
        lemma_base_name(s@, k as int);
    }
    let name = string_of(&piece(&s, k, s.len()));
    eq_str(&name, "cargo") || eq_str(&name, "cargo.exe")
}

proof fn lemma_position(args: Seq<Seq<char>>, x: Seq<char>, i: int)
    requires
        0 <= i <= args.len(),
        forall|j: int| 0 <= j < i ==> args[j] != x,
    ensures
        i < args.len() && args[i] == x ==> position(args, x) == Some(i),
        i == args.len() ==> position(args, x) is None,
    decreases i,
{
    if i > 0 {
        lemma_position(args.drop_first(), x, i - 1);
    }
}

/// Whether `cargo` arguments run a program without a `--` after `run`.
fn consumes_stamp(args: &Vec<String>) -> (r: bool)
    ensures
        r == consumes(views(args@)),
{
    let ghost a = views(args@);
    let mut i: usize = 0;
    while i < args.len() && !eq_str(&args[i], "run")
        invariant_except_break
            a == views(args@),
            i <= args@.len(),
            forall|j: int| 0 <= j < i ==> a[j] != "run"@,
        ensures
            a == views(args@),
            i <= args@.len(),
            forall|j: int| 0 <= j < i ==> a[j] != "run"@,
            i < args@.len() ==> a[i as int] == "run"@,
        decreases args@.len() - i,
    {
        assert(a[i as int] == args@[i as int]@);
        i = i + 1;
    }
    proof {
        lemma_position(a, "run"@, i as int);
    }
    if i == args.len() {
        return false;
    }
    let mut j: usize = i + 1;
    while j < args.len()
        invariant
            a == views(args@),
            i < j <= args@.len(),
            position(a, "run"@) == Some(i as int),
            forall|m: int| i < m < j ==> a[m] != "--"@,
        decreases args@.len() - j,
    {
        assert(a[j as int] == args@[j as int]@);
        if eq_str(&args[j], "--") {
            return false;
        }
        j = j + 1;
    }
    true
}

fn warn(d: &mut Vec<Diagnostic>, path: &String, command: &String, args: &Vec<String>)
    ensures
        diag_views(final(d)@) == diag_views(old(d)@) + warn_check(path@, command@, views(args@)),
{
    if cargo(command) && consumes_stamp(args) {
        emit(
            d,
            Diagnostic::warning(
                append(path, ".args"),
                owned(
                    "cargo run target may consume the appended --sidecar-stamp argument; add `--` after cargo run options",
                ),
            ),
        );
    }
    assert(diag_views(final(d)@) =~= diag_views(old(d)@) + warn_check(
        path@,
        command@,
        views(args@),
    ));
}

fn indexed_path(prefix: &str, i: usize) -> (r: String)
    ensures
        r@ == indexed(prefix@, i as nat),
{
    let mut p = owned(prefix);
    push_char(&mut p, '[');
    let n = decimal_string(i as u64);
    push_str(&mut p, n.as_str());
    push_char(&mut p, ']');
    assert(p@ =~= indexed(prefix@, i as nat));
    p
}

fn quoted_name(lead: &str, name: &String) -> (r: String)
    ensures
        r@ == lead@ + name@ + "`"@,
{
    let mut m = owned(lead);
    push_str(&mut m, name.as_str());
    push_str(&mut m, "`");
    m
}

fn sidecar_seen(s: &Vec<config::Sidecar>, i: usize) -> (r: bool)
    requires
        i < s@.len(),
    ensures
        r == exists|k: int| 0 <= k < i && sidecar_names(s@)[k] == sidecar_names(s@)[i as int],
{
    let ghost names = sidecar_names(s@);
    let mut seen = false;
    let mut j: usize = 0;
    while j < i
        invariant
            i < s@.len(),
            j <= i,
            names == sidecar_names(s@),
            seen <==> exists|k: int| 0 <= k < j && names[k] == names[i as int],
        decreases i - j,
    {
        assert(names[j as int] == s@[j as int].name@);
        assert(names[i as int] == s@[i as int].name@);
        if eq_str(&s[j].name, s[i].name.as_str()) {
            seen = true;
        }
        j = j + 1;
    }
    seen
}

fn endpoint_seen(s: &Vec<config::Endpoint>, i: usize) -> (r: bool)
    requires
        i < s@.len(),
    ensures
        r == exists|k: int| 0 <= k < i && endpoint_names(s@)[k] == endpoint_names(s@)[i as int],
{
    let ghost names = endpoint_names(s@);
    let mut seen = false;
    let mut j: usize = 0;
    while j < i
        invariant
            i < s@.len(),
            j <= i,
            names == endpoint_names(s@),
            seen <==> exists|k: int| 0 <= k < j && names[k] == names[i as int],
        decreases i - j,
    {
        assert(names[j as int] == s@[j as int].name@);
        assert(names[i as int] == s@[i as int].name@);
        if eq_str(&s[j].name, s[i].name.as_str()) {
            seen = true;
        }
        j = j + 1;
    }
    seen
}

#[verifier::rlimit(50)]
#[verifier::spinoff_prover]
fn check_sidecar(d: &mut Vec<Diagnostic>, sidecars: &Vec<config::Sidecar>, i: usize)
    requires
        i < sidecars@.len(),
    ensures
        diag_views(final(d)@) == diag_views(old(d)@) + sidecar_diags(sidecars@, i as int),
{
    let sidecar = &sidecars[i];
    let path = indexed_path("sidecars", i);
    let ghost start = diag_views(d@);
    require_value(d, append(&path, ".name"), &sidecar.name);
    require_value(d, append(&path, ".command"), &sidecar.command);
    require_value(d, append(&path, ".mode"), &sidecar.mode);
    let ghost mid = diag_views(d@);
    assert(mid =~= start + sidecar_required(path@, *sidecar));
    let blank = trimmed(&chars_of(sidecar.name.as_str())).len() == 0;
    let seen = sidecar_seen(sidecars, i);
    assert(sidecar_names(sidecars@)[i as int] == sidecar.name@);
    if !blank && seen {
        let message = quoted_name("duplicate sidecar name `", &sidecar.name);
        emit(d, Diagnostic::error(append(&path, ".name"), message));
    }
    let ghost dup = diag_views(d@);
    assert(dup =~= mid + sidecar_duplicate(path@, sidecars@, i as int));
    check_socket(d, &path, &sidecar.socket);
    check_ready(d, &path, &sidecar.ready);
    warn(d, &path, &sidecar.command, &sidecar.args);
    assert(diag_views(d@) =~= dup + sidecar_rest(path@, *sidecar));
    assert(diag_views(d@) =~= start + sidecar_diags(sidecars@, i as int));
}

#[verifier::rlimit(30)]
fn check_endpoint(d: &mut Vec<Diagnostic>, endpoints: &Vec<config::Endpoint>, i: usize)
    requires
        i < endpoints@.len(),
    ensures
        diag_views(final(d)@) == diag_views(old(d)@) + endpoint_diags(endpoints@, i as int),
{
    let endpoint = &endpoints[i];
    let path = indexed_path("inspect.endpoints", i);
    require_value(d, append(&path, ".name"), &endpoint.name);
    require_value(d, append(&path, ".kind"), &endpoint.kind);
    require_value(d, append(&path, ".url"), &endpoint.url);
    let blank = trimmed(&chars_of(endpoint.name.as_str())).len() == 0;
    let seen = endpoint_seen(endpoints, i);
    assert(endpoint_names(endpoints@)[i as int] == endpoint.name@);
    if !blank && seen {
        let message = quoted_name("duplicate inspect endpoint name `", &endpoint.name);
        emit(d, Diagnostic::error(append(&path, ".name"), message));
    }
    assert(diag_views(d@) =~= diag_views(old(d)@) + endpoint_diags(endpoints@, i as int));
}

impl State {
    /// The findings about this manifest, in order: project fields, the app
    /// (or a warning that there are no targets), each sidecar, each inspect
    /// endpoint.
    #[verifier::rlimit(40)]
    pub fn diagnostics(&self) -> (r: Vec<Diagnostic>)
        ensures
            diag_views(r@) == manifest_diags(self.config),
    {
        let m = &self.config;
        let mut d: Vec<Diagnostic> = Vec::new();
        require_value(&mut d, owned("project.name"), &m.project.name);
        require_value(&mut d, owned("project.namespace"), &m.project.namespace);
        let ghost head = diag_views(d@);
        match &m.app {
            Some(app) => {
                require_value(&mut d, owned("app.name"), &app.name);
                require_value(&mut d, owned("app.command"), &app.command);
                require_value(&mut d, owned("app.mode"), &app.mode);
                let app_path = owned("app");
                check_socket(&mut d, &app_path, &app.socket);
                check_ready(&mut d, &app_path, &app.ready);
                warn(&mut d, &app_path, &app.command, &app.args);
                assert(diag_views(d@) =~= head + app_diags(*app));
            },
            None => {
                if m.sidecars.len() == 0 {
                    emit(
                        &mut d,
                        Diagnostic::warning(
                            owned("app"),
                            owned(
                                "no app or sidecar command is configured; lifecycle commands have no targets",
                            ),
                        ),
                    );
                }
            },
        }
        let ghost mid = diag_views(d@);
        let mut i: usize = 0;
        while i < m.sidecars.len()
            invariant
                i <= m.sidecars@.len(),
                diag_views(d@) == mid + sidecars_diags(m.sidecars@, i as int),
            decreases m.sidecars@.len() - i,
        {
            check_sidecar(&mut d, &m.sidecars, i);
            i = i + 1;
            assert(diag_views(d@) =~= mid + sidecars_diags(m.sidecars@, i as int));
        }
        let ghost tail = diag_views(d@);
        let mut k: usize = 0;
        while k < m.inspect.endpoints.len()
            invariant
                k <= m.inspect.endpoints@.len(),
                diag_views(d@) == tail + endpoints_diags(m.inspect.endpoints@, k as int),
            decreases m.inspect.endpoints@.len() - k,
        {
            check_endpoint(&mut d, &m.inspect.endpoints, k);
            k = k + 1;
            assert(diag_views(d@) =~= tail + endpoints_diags(m.inspect.endpoints@, k as int));
        }
        assert(diag_views(d@) =~= manifest_diags(self.config));
        d
    }

    /// The plan of this manifest.
    pub fn plan(&self) -> (r: Plan)
        ensures
            r.project@ == self.config.project.name@,
            r.namespace@ == self.config.project.namespace@,
            r.root@ == self.config.project.root@,
            match self.config.app {
                Some(a) => r.app matches Some(x) && x@ == crate::plan::app_plan(a, self.config.project),
                None => r.app is None,
            },
            r.targets@.map_values(|t: crate::plan::Target| t@) == crate::plan::target_plans(
                self.config,
            ),
            crate::plan::endpoint_views(r.endpoints@) == crate::plan::config_endpoint_views(
                self.config.inspect.endpoints@,
            ),
    {
        self.config.plan()
    }
}

} // verus!
