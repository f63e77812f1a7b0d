//! The `sidecar` command line: global options and the command words.
use vstd::prelude::*;
use crate::argv::{eq_str, views};
use crate::launch::{last_slash, last_slash_in, lemma_last_slash};
use crate::paths::joined;
use crate::text::{
    chars_of, decimal_value, has_prefix, join, join_from, owned, parse_decimal, push_str,
    starts_with, strip_all, string_of, trim_prefix_all,
};

verus! {

/// The round-trip timeout, in seconds, of an inspect request by default.
pub const TIMEOUT: u64 = 5;

/// The manifest file name looked for when `--config` is not given.
pub const MANIFEST: &'static str = "sidecar.toml";

/// How a command prints its result.
#[derive(Clone, Copy, Debug, PartialEq, Eq)]
pub enum Format {
    Text,
    Json,
}

/// The parsed command line.
#[derive(Clone, Debug, PartialEq, Eq)]
pub struct Args {
    pub command: Vec<String>,
    pub config: Option<String>,
    pub format: Format,
    pub home: Option<String>,
    pub project: Option<String>,
    pub timeout: u64,
    pub all: bool,
    pub force: bool,
}

/// A parsed command line as plain values.
pub struct ArgsView {
    pub command: Seq<Seq<char>>,
    pub config: Option<Seq<char>>,
    pub format: Format,
    pub home: Option<Seq<char>>,
    pub project: Option<Seq<char>>,
    pub timeout: u64,
    pub all: bool,
    pub force: bool,
}

impl View for Args {
    type V = ArgsView;

    open spec fn view(&self) -> ArgsView {
        ArgsView {
            command: views(self.command@),
            config: crate::argv::opt_view(self.config),
            format: self.format,
            home: crate::argv::opt_view(self.home),
            project: crate::argv::opt_view(self.project),
            timeout: self.timeout,
            all: self.all,
            force: self.force,
        }
    }
}

/// A command line with no option and no command word.
pub open spec fn initial() -> ArgsView {
    ArgsView {
        command: seq![],
        config: None,
        format: Format::Text,
        home: None,
        project: None,
        timeout: TIMEOUT,
        all: false,
        force: false,
    }
}

/// The format that `--format <v>` names.
pub open spec fn format_of(v: Seq<char>) -> Result<Format, Seq<char>> {
    if v == "text"@ {
        Ok(Format::Text)
    } else if v == "json"@ {
        Ok(Format::Json)
    } else {
        Err("unsupported output format: "@ + v)
    }
}

/// The positive number of seconds that `option <v>` gives.
pub open spec fn seconds_of(option: Seq<char>, v: Seq<char>) -> Result<u64, Seq<char>> {
    match decimal_value(v) {
        Some(n) => if 0 < n <= u64::MAX {
            Ok(n as u64)
        } else {
            Err(option + " requires a positive integer value"@)
        },
        None => Err(option + " requires a positive integer value"@),
    }
}

/// Whether an argument looks like an option that sidecar does not know.
pub open spec fn unknown_option(a: Seq<char>) -> bool {
    &&& a.len() > 0
    &&& a[0] == '-'
    &&& !(a == "-h"@ || a == "--help"@ || a == "-V"@ || a == "--version"@)
    &&& !starts_with(a, "--sidecar-broker"@)
}

/// The command line after reading the arguments `rest` from state `st`.
pub open spec fn parse_from(rest: Seq<Seq<char>>, st: ArgsView) -> Result<ArgsView, Seq<char>>
    decreases rest.len(),
{
    if rest.len() == 0 {
        Ok(st)
    } else {
        let a = rest[0];
        let t = rest.drop_first();
        if a == "--config"@ {
            if t.len() == 0 {
                Err("--config"@ + " requires a value"@)
            } else {
                parse_from(t.drop_first(), ArgsView { config: Some(t[0]), ..st })
            }
        } else if a == "--format"@ {
            if t.len() == 0 {
                Err("--format"@ + " requires a value"@)
            } else {
                match format_of(t[0]) {
                    Ok(f) => parse_from(t.drop_first(), ArgsView { format: f, ..st }),
                    Err(e) => Err(e),
                }
            }
        } else if a == "--data-home"@ {
            if t.len() == 0 {
                Err("--data-home"@ + " requires a value"@)
            } else {
                parse_from(t.drop_first(), ArgsView { home: Some(t[0]), ..st })
            }
        } else if a == "-p"@ || a == "--project"@ {
            if t.len() == 0 {
                Err("--project"@ + " requires a value"@)
            } else {
                parse_from(t.drop_first(), ArgsView { project: Some(t[0]), ..st })
            }
        } else if a == "--all"@ {
            parse_from(t, ArgsView { all: true, ..st })
        } else if a == "--force"@ {
            parse_from(t, ArgsView { force: true, ..st })
        } else if a == "--inspect-timeout"@ {
            if t.len() == 0 {
                Err("--inspect-timeout"@ + " requires a value"@)
            } else {
                match seconds_of("--inspect-timeout"@, t[0]) {
                    Ok(n) => parse_from(t.drop_first(), ArgsView { timeout: n, ..st }),
                    Err(e) => Err(e),
                }
            }
        } else if starts_with(a, "--config="@) {
            parse_from(t, ArgsView { config: Some(trim_prefix_all(a, "--config="@)), ..st })
        } else if starts_with(a, "--format="@) {
            match format_of(trim_prefix_all(a, "--format="@)) {
                Ok(f) => parse_from(t, ArgsView { format: f, ..st }),
                Err(e) => Err(e),
            }
        } else if starts_with(a, "--data-home="@) {
            parse_from(t, ArgsView { home: Some(trim_prefix_all(a, "--data-home="@)), ..st })
        } else if starts_with(a, "--project="@) {
            parse_from(t, ArgsView { project: Some(trim_prefix_all(a, "--project="@)), ..st })
        } else if starts_with(a, "--inspect-timeout="@) {
            match seconds_of("--inspect-timeout"@, trim_prefix_all(a, "--inspect-timeout="@)) {
                Ok(n) => parse_from(t, ArgsView { timeout: n, ..st }),
                Err(e) => Err(e),
            }
        } else if unknown_option(a) {
            Err("unknown option: "@ + a)
        } else {
            parse_from(t, ArgsView { command: st.command.push(a), ..st })
        }
    }
}

/// The command line that the process arguments `args` (the program name
/// first) give.
pub open spec fn parse_text(args: Seq<Seq<char>>) -> Result<ArgsView, Seq<char>> {
    if args.len() == 0 {
        Ok(initial())
    } else {
        parse_from(args.drop_first(), initial())
    }
}

impl Format {
    /// The format that a `--format` value names.
    pub fn parse(value: &str) -> (r: Result<Format, String>)
        ensures
            match format_of(value@) {
                Ok(f) => r == Ok::<Format, String>(f),
                Err(e) => r matches Err(m) && m@ == e,
            },
    {
        let v = owned(value);
        if eq_str(&v, "text") {
            Ok(Format::Text)
        } else if eq_str(&v, "json") {
            Ok(Format::Json)
        } else {
            let mut m = owned("unsupported output format: ");
            push_str(&mut m, value);
            Err(m)
        }
    }
}

/// The positive number of seconds that the value of `option` gives.
pub fn seconds(option: &str, value: &str) -> (r: Result<u64, String>)
    ensures
        match seconds_of(option@, value@) {
            Ok(n) => r == Ok::<u64, String>(n),
            Err(e) => r matches Err(m) && m@ == e,
        },
{
    let chars = chars_of(value);
    match parse_decimal(&chars) {
        Some(n) => {
            if n != 0 {
                return Ok(n);
            }
        },
        None => {},
    }
    let mut m = owned(option);
    push_str(&mut m, " requires a positive integer value");
    Err(m)
}

fn value_after(rest: &Vec<char>, prefix: &str) -> (r: String)
    requires
        prefix@.len() > 0,
    ensures
        r@ == trim_prefix_all(rest@, prefix@),
{
    let p = chars_of(prefix);
    string_of(&strip_all(rest, &p))
}

fn prefixed(a: &Vec<char>, prefix: &str) -> (r: bool)
    ensures
        r == starts_with(a@, prefix@),
{
    let p = chars_of(prefix);
    has_prefix(a, &p)
}

fn requires_value(option: &str) -> (r: String)
    ensures
        r@ == option@ + " requires a value"@,
{
    let mut m = owned(option);
    push_str(&mut m, " requires a value");
    m
}

/// Reads the process arguments (the program name first) into a command
/// line: the global options, wherever they stand, and the command words in
/// order.
#[verifier::rlimit(60)]
pub fn parse_args(args: &Vec<String>) -> (r: Result<Args, String>)
    ensures
        match parse_text(views(args@)) {
            Ok(v) => r matches Ok(x) && x@ == v,
            Err(e) => r matches Err(m) && m@ == e,
        },
{
    let ghost all = views(args@);
    let mut command: Vec<String> = Vec::new();
    let mut config: Option<String> = None;
    let mut format = Format::Text;
    let mut home: Option<String> = None;
    let mut project: Option<String> = None;
    let mut timeout: u64 = TIMEOUT;
    let mut all_flag = false;
    let mut force = false;
    assert(views(command@) =~= Seq::<Seq<char>>::empty());
    if args.len() == 0 {
        return Ok(
            Args {
                command,
                config,
                format,
                home,
                project,
                timeout,
                all: all_flag,
                force,
            },
        );
    }
    let mut i: usize = 1;
    assert(all.skip(1) =~= all.drop_first());
    while i < args.len()
        invariant
            all == views(args@),
            1 <= i <= args@.len(),
            parse_text(all) == parse_from(
                all.skip(i as int),
                ArgsView {
                    command: views(command@),
                    config: crate::argv::opt_view(config),
                    format: format,
                    home: crate::argv::opt_view(home),
                    project: crate::argv::opt_view(project),
                    timeout: timeout,
                    all: all_flag,
                    force: force,
                },
            ),
        decreases args@.len() - i,
    {
        proof {
            reveal_strlit("--config=");
            reveal_strlit("--format=");
            reveal_strlit("--data-home=");
            reveal_strlit("--project=");
            reveal_strlit("--inspect-timeout=");
        }
        let ghost rest = all.skip(i as int);
        assert(rest[0] == args@[i as int]@);
        assert(rest.drop_first() =~= all.skip(i + 1));
        let has_next = i + 1 < args.len();
        if has_next {
            assert(rest.drop_first()[0] == args@[i + 1]@);
            assert(rest.drop_first().drop_first() =~= all.skip(i + 2));
        }
        let arg = &args[i];
        if eq_str(arg, "--config") {
            if !has_next {
                return Err(requires_value("--config"));
            }
            config = Some(args[i + 1].clone());
            i = i + 2;
        } else if eq_str(arg, "--format") {
            if !has_next {
                return Err(requires_value("--format"));
            }
            format = Format::parse(args[i + 1].as_str())?;
            i = i + 2;
        } else if eq_str(arg, "--data-home") {
            if !has_next {
                return Err(requires_value("--data-home"));
            }
            home = Some(args[i + 1].clone());
            i = i + 2;
        } else if eq_str(arg, "-p") || eq_str(arg, "--project") {
            if !has_next {
                return Err(requires_value("--project"));
            }
            project = Some(args[i + 1].clone());
            i = i + 2;
        } else if eq_str(arg, "--all") {
            all_flag = true;
            i = i + 1;
        } else if eq_str(arg, "--force") {
            force = true;
            i = i + 1;
        } else if eq_str(arg, "--inspect-timeout") {
            if !has_next {
                return Err(requires_value("--inspect-timeout"));
            }
            timeout = seconds("--inspect-timeout", args[i + 1].as_str())?;
            i = i + 2;
        } else {
            let a = chars_of(arg.as_str());
            if prefixed(&a, "--config=") {
                config = Some(value_after(&a, "--config="));
            } else if prefixed(&a, "--format=") {
                let v = value_after(&a, "--format=");
                format = Format::parse(v.as_str())?;
            } else if prefixed(&a, "--data-home=") {
                home = Some(value_after(&a, "--data-home="));
            } else if prefixed(&a, "--project=") {
                project = Some(value_after(&a, "--project="));
            } else if prefixed(&a, "--inspect-timeout=") {
                let v = value_after(&a, "--inspect-timeout=");
                timeout = seconds("--inspect-timeout", v.as_str())?;
            } else if a.len() > 0 && a[0] == '-' && !(eq_str(arg, "-h") || eq_str(arg, "--help")
                || eq_str(arg, "-V") || eq_str(arg, "--version")) && !prefixed(
                &a,
                "--sidecar-broker",
            ) {
                let mut m = owned("unknown option: ");
                push_str(&mut m, arg.as_str());
                return Err(m);
            } else {
                let ghost before = command@;
                command.push(arg.clone());
                assert(views(command@) =~= views(before).push(arg@));
            }
            i = i + 1;
        }
    }
    assert(all.skip(i as int) =~= Seq::<Seq<char>>::empty());
    Ok(Args { command, config, format, home, project, timeout, all: all_flag, force })
}

/// What `parse` reports of a command line.
#[derive(Clone, Debug, PartialEq, Eq)]
pub struct Summary {
    pub command: Vec<String>,
    pub config: Option<String>,
    pub format: &'static str,
    pub home: Option<String>,
    pub project: Option<String>,
    pub timeout: u64,
    pub all: bool,
    pub force: bool,
}

/// The name of a format.
pub open spec fn format_name(f: Format) -> Seq<char> {
    match f {
        Format::Text => "text"@,
        Format::Json => "json"@,
    }
}

/// Reads a command line given as string slices (the program name first)
/// and reports what it holds.
pub fn parse(args: Vec<&str>) -> (r: Result<Summary, String>)
    ensures
        match parse_text(args@.map_values(|a: &str| a@)) {
            Ok(v) => r matches Ok(x) && views(x.command@) == v.command && crate::argv::opt_view(
                x.config,
            ) == v.config && x.format@ == format_name(v.format) && crate::argv::opt_view(x.home)
                == v.home && crate::argv::opt_view(x.project) == v.project && x.timeout == v.timeout
                && x.all == v.all && x.force == v.force,
            Err(e) => r matches Err(m) && m@ == e,
        },
{
    let mut owned_args: Vec<String> = Vec::new();
    let mut i: usize = 0;
    while i < args.len()
        invariant
            i <= args@.len(),
            views(owned_args@) == args@.map_values(|a: &str| a@).take(i as int),
        decreases args@.len() - i,
    {
        let ghost before = owned_args@;
        owned_args.push(owned(args[i]));
        assert(views(owned_args@) =~= views(before).push(args@[i as int]@));
        assert(args@.map_values(|a: &str| a@).take(i + 1) =~= args@.map_values(|a: &str| a@).take(
            i as int,
        ).push(args@[i as int]@));
        i = i + 1;
    }
    assert(args@.map_values(|a: &str| a@).take(args@.len() as int) =~= args@.map_values(
        |a: &str| a@,
    ));
    let parsed = parse_args(&owned_args)?;
    let format: &'static str = match parsed.format {
        Format::Text => "text",
        Format::Json => "json",
    };
    Ok(
        Summary {
            command: parsed.command,
            config: parsed.config,
            format,
            home: parsed.home,
            project: parsed.project,
            timeout: parsed.timeout,
            all: parsed.all,
            force: parsed.force,
        },
    )
}

/// What a command line asks for.
#[derive(Clone, Debug, PartialEq, Eq)]
pub enum Action {
    /// No command word: print the help text.
    Usage,
    Help,
    Version,
    Update,
    /// Run the runtime broker of a project and namespace.
    Serve { project: String, namespace: String },
    Doctor,
    Plan,
    InspectConfig,
    Inspect { sidecar: String, event: String, payload: Option<String> },
    Start(Option<String>),
    Stop(Option<String>),
    Restart(Option<String>),
    Status,
    List,
    Reset,
}

/// An action as plain values.
pub enum ActionView {
    Usage,
    Help,
    Version,
    Update,
    Serve { project: Seq<char>, namespace: Seq<char> },
    Doctor,
    Plan,
    InspectConfig,
    Inspect { sidecar: Seq<char>, event: Seq<char>, payload: Option<Seq<char>> },
    Start(Option<Seq<char>>),
    Stop(Option<Seq<char>>),
    Restart(Option<Seq<char>>),
    Status,
    List,
    Reset,
}

impl View for Action {
    type V = ActionView;

    open spec fn view(&self) -> ActionView {
        match self {
            Action::Usage => ActionView::Usage,
            Action::Help => ActionView::Help,
            Action::Version => ActionView::Version,
            Action::Update => ActionView::Update,
            Action::Serve { project, namespace } => ActionView::Serve {
                project: project@,
                namespace: namespace@,
            },
            Action::Doctor => ActionView::Doctor,
            Action::Plan => ActionView::Plan,
            Action::InspectConfig => ActionView::InspectConfig,
            Action::Inspect { sidecar, event, payload } => ActionView::Inspect {
                sidecar: sidecar@,
                event: event@,
                payload: crate::argv::opt_view(*payload),
            },
            Action::Start(t) => ActionView::Start(crate::argv::opt_view(*t)),
            Action::Stop(t) => ActionView::Stop(crate::argv::opt_view(*t)),
            Action::Restart(t) => ActionView::Restart(crate::argv::opt_view(*t)),
            Action::Status => ActionView::Status,
            Action::List => ActionView::List,
            Action::Reset => ActionView::Reset,
        }
    }
}

/// The message for command words beyond what `command` takes.
pub open spec fn unsupported(command: Seq<char>, extra: Seq<Seq<char>>) -> Seq<char> {
    "unsupported "@ + command + " arguments: "@ + join(extra, " "@)
}

/// Whether a command takes at most `expected` words.
pub open spec fn exact_of(c: Seq<Seq<char>>, expected: int, command: Seq<char>) -> Result<(), Seq<char>> {
    if c.len() > expected {
        Err(unsupported(command, c.skip(expected)))
    } else {
        Ok(())
    }
}

/// The optional target of a lifecycle command.
pub open spec fn target_of(c: Seq<Seq<char>>, command: Seq<char>) -> Result<Option<Seq<char>>, Seq<char>> {
    if c.len() <= 1 {
        Ok(None)
    } else if c.len() == 2 {
        Ok(Some(c[1]))
    } else {
        Err(unsupported(command, c.skip(2)))
    }
}

/// Attaches an action to an arity check.
pub open spec fn then_act(check: Result<(), Seq<char>>, a: ActionView) -> Result<ActionView, Seq<char>> {
    match check {
        Ok(_) => Ok(a),
        Err(e) => Err(e),
    }
}

/// What `runtime ...` asks for.
pub open spec fn runtime_of(c: Seq<Seq<char>>) -> Result<ActionView, Seq<char>> {
    if c.len() >= 4 && c[1] == "serve"@ {
        Ok(ActionView::Serve { project: c[2], namespace: c[3] })
    } else if c.len() >= 2 && c[1] == "serve"@ {
        Err("runtime serve requires <project> <namespace>"@)
    } else {
        Err("unknown runtime command; expected `runtime serve <project> <namespace>`"@)
    }
}

/// What `inspect ...` asks for.
pub open spec fn inspect_of(c: Seq<Seq<char>>) -> Result<ActionView, Seq<char>> {
    if c.len() <= 1 {
        Err("inspect requires `config` or `<sidecar> <event> [payload]`"@)
    } else if c[1] == "config"@ {
        then_act(exact_of(c, 2, "inspect config"@), ActionView::InspectConfig)
    } else if c.len() < 3 {
        Err("inspect <sidecar> <event> [payload] \u{2014} event is required"@)
    } else if c.len() > 4 {
        Err("unsupported inspect arguments: "@ + join(c.skip(4), " "@))
    } else {
        Ok(
            ActionView::Inspect {
                sidecar: c[1],
                event: c[2],
                payload: if c.len() == 4 {
                    Some(c[3])
                } else {
                    None
                },
            },
        )
    }
}

/// What the command words `c` ask for.
pub open spec fn route_of(c: Seq<Seq<char>>) -> Result<ActionView, Seq<char>> {
    if c.len() == 0 {
        Ok(ActionView::Usage)
    } else {
        let cmd = c[0];
        if cmd == "help"@ || cmd == "--help"@ || cmd == "-h"@ {
            Ok(ActionView::Help)
        } else if cmd == "version"@ || cmd == "--version"@ || cmd == "-V"@ {
            Ok(ActionView::Version)
        } else if cmd == "update"@ {
            then_act(exact_of(c, 1, "update"@), ActionView::Update)
        } else if cmd == "runtime"@ {
            runtime_of(c)
        } else if cmd == "doctor"@ {
            then_act(exact_of(c, 1, "doctor"@), ActionView::Doctor)
        } else if cmd == "plan"@ {
            then_act(exact_of(c, 1, "plan"@), ActionView::Plan)
        } else if cmd == "inspect"@ {
            inspect_of(c)
        } else if cmd == "start"@ || cmd == "stop"@ || cmd == "restart"@ {
            match target_of(c, cmd) {
                Ok(t) => Ok(
                    if cmd == "start"@ {
                        ActionView::Start(t)
                    } else if cmd == "stop"@ {
                        ActionView::Stop(t)
                    } else {
                        ActionView::Restart(t)
                    },
                ),
                Err(e) => Err(e),
            }
        } else if cmd == "status"@ {
            then_act(exact_of(c, 1, "status"@), ActionView::Status)
        } else if cmd == "list"@ {
            then_act(exact_of(c, 1, "list"@), ActionView::List)
        } else if cmd == "reset"@ {
            then_act(exact_of(c, 1, "reset"@), ActionView::Reset)
        } else {
            Err("unknown command: "@ + join(c, " "@) + "; run `sidecar help`"@)
        }
    }
}

/// Whether running the command words `c` first checks for a newer release.
pub open spec fn announces_of(c: Seq<Seq<char>>) -> bool {
    c.len() > 0 && !(c[0] == "help"@ || c[0] == "--help"@ || c[0] == "-h"@ || c[0] == "version"@
        || c[0] == "--version"@ || c[0] == "-V"@ || c[0] == "update"@ || c[0] == "runtime"@)
}

fn unsupported_message(command: &str, c: &Vec<String>, from: usize) -> (r: String)
    requires
        from <= c@.len(),
    ensures
        r@ == unsupported(command@, views(c@).skip(from as int)),
{
    let mut m = owned("unsupported ");
    push_str(&mut m, command);
    push_str(&mut m, " arguments: ");
    let rest = join_from(c, from, " ");
    push_str(&mut m, rest.as_str());
    m
}

/// Checks that a command takes at most `expected` words.
pub fn exact(c: &Vec<String>, expected: usize, command: &str) -> (r: Result<(), String>)
    ensures
        match exact_of(views(c@), expected as int, command@) {
            Ok(_) => r is Ok,
            Err(e) => r matches Err(m) && m@ == e,
        },
{
    if c.len() > expected {
        return Err(unsupported_message(command, c, expected));
    }
    Ok(())
}

/// The optional target of a lifecycle command.
pub fn target(c: &Vec<String>, command: &str) -> (r: Result<Option<String>, String>)
    ensures
        match target_of(views(c@), command@) {
            Ok(t) => r matches Ok(x) && crate::argv::opt_view(x) == t,
            Err(e) => r matches Err(m) && m@ == e,
        },
{
    if c.len() <= 1 {
        Ok(None)
    } else if c.len() == 2 {
        Ok(Some(c[1].clone()))
    } else {
        Err(unsupported_message(command, c, 2))
    }
}

/// Whether running the command words first checks for a newer release.
pub fn announces(c: &Vec<String>) -> (r: bool)
    ensures
        r == announces_of(views(c@)),
{
    if c.len() == 0 {
        return false;
    }
    let cmd = &c[0];
    !(eq_str(cmd, "help") || eq_str(cmd, "--help") || eq_str(cmd, "-h") || eq_str(cmd, "version")
        || eq_str(cmd, "--version") || eq_str(cmd, "-V") || eq_str(cmd, "update") || eq_str(
        cmd,
        "runtime",
    ))
}

fn runtime(c: &Vec<String>) -> (r: Result<Action, String>)
    requires
        c@.len() >= 1,
    ensures
        match runtime_of(views(c@)) {
            Ok(a) => r matches Ok(x) && x@ == a,
            Err(e) => r matches Err(m) && m@ == e,
        },
{
    if c.len() >= 2 && eq_str(&c[1], "serve") {
        if c.len() >= 4 {
            return Ok(Action::Serve { project: c[2].clone(), namespace: c[3].clone() });
        }
        return Err(owned("runtime serve requires <project> <namespace>"));
    }
    Err(owned("unknown runtime command; expected `runtime serve <project> <namespace>`"))
}

fn inspect(c: &Vec<String>) -> (r: Result<Action, String>)
    requires
        c@.len() >= 1,
    ensures
        match inspect_of(views(c@)) {
            Ok(a) => r matches Ok(x) && x@ == a,
            Err(e) => r matches Err(m) && m@ == e,
        },
{
    if c.len() <= 1 {
        return Err(owned("inspect requires `config` or `<sidecar> <event> [payload]`"));
    }
    if eq_str(&c[1], "config") {
        exact(c, 2, "inspect config")?;
        return Ok(Action::InspectConfig);
    }
    if c.len() < 3 {
        return Err(owned("inspect <sidecar> <event> [payload] \u{2014} event is required"));
    }
    if c.len() > 4 {
        let mut m = owned("unsupported inspect arguments: ");
        let rest = join_from(c, 4, " ");
        push_str(&mut m, rest.as_str());
        return Err(m);
    }
    let payload = if c.len() == 4 {
        Some(c[3].clone())
    } else {
        None
    };
    Ok(Action::Inspect { sidecar: c[1].clone(), event: c[2].clone(), payload })
}

fn checked(check: Result<(), String>, a: Action) -> (r: Result<Action, String>)
    ensures
        match check {
            Ok(_) => r == Ok::<Action, String>(a),
            Err(e) => r == Err::<Action, String>(e),
        },
{
    match check {
        Ok(_) => Ok(a),
        Err(e) => Err(e),
    }
}

/// What the command words of a parsed command line ask for, or why they
/// are refused.
pub fn route(parsed: &Args) -> (r: Result<Action, String>)
    ensures
        match route_of(parsed@.command) {
            Ok(a) => r matches Ok(x) && x@ == a,
            Err(e) => r matches Err(m) && m@ == e,
        },
{
    let c = &parsed.command;
    if c.len() == 0 {
        return Ok(Action::Usage);
    }
    let cmd = &c[0];
    if eq_str(cmd, "help") || eq_str(cmd, "--help") || eq_str(cmd, "-h") {
        Ok(Action::Help)
    } else if eq_str(cmd, "version") || eq_str(cmd, "--version") || eq_str(cmd, "-V") {
        Ok(Action::Version)
    } else if eq_str(cmd, "update") {
        checked(exact(c, 1, "update"), Action::Update)
    } else if eq_str(cmd, "runtime") {
        runtime(c)
    } else if eq_str(cmd, "doctor") {
        checked(exact(c, 1, "doctor"), Action::Doctor)
    } else if eq_str(cmd, "plan") {
        checked(exact(c, 1, "plan"), Action::Plan)
    } else if eq_str(cmd, "inspect") {
        inspect(c)
    } else if eq_str(cmd, "start") {
        Ok(Action::Start(target(c, "start")?))
    } else if eq_str(cmd, "stop") {
        Ok(Action::Stop(target(c, "stop")?))
    } else if eq_str(cmd, "restart") {
        Ok(Action::Restart(target(c, "restart")?))
    } else if eq_str(cmd, "status") {
        checked(exact(c, 1, "status"), Action::Status)
    } else if eq_str(cmd, "list") {
        checked(exact(c, 1, "list"), Action::List)
    } else if eq_str(cmd, "reset") {
        checked(exact(c, 1, "reset"), Action::Reset)
    } else {
        let mut m = owned("unknown command: ");
        let all = join_from(c, 0, " ");
        push_str(&mut m, all.as_str());
        push_str(&mut m, "; run `sidecar help`");
        assert(views(c@).skip(0) =~= views(c@));
        Err(m)
    }
}

/// The help text.
pub const HELP: &'static str = r#"sidecar

Product-neutral sidecar lifecycle and inspect IPC manager.
It owns manifest-closed lifecycle, appends stamp identity, discovers/stops
targets, and sends one-shot inspect events; consumers own product semantics.

Commands:
  doctor   [--config <path>] [--format text|json]
  plan     [--config <path>] [--format text|json]
  inspect  config [--config <path>] [--format text|json]
  inspect  <sidecar> <event> [<json-payload>] [--config <path>] [--format text|json] [--inspect-timeout <seconds>]
  start    [--config <path>] [<sidecar>]
  restart  [--config <path>] [<sidecar>]
  stop     [--config <path>] [--force] [<sidecar>]
  status   [--config <path>] [--format text|json]
  list     [--config <path>] [--format text|json]
  reset    [--config <path>] [--all] [--force]
  update
  help
  version

Global flags:
  --config <path>       explicit manifest path; when omitted, sidecar walks
                        ancestors of cwd for sidecar.toml
  -p, --project <name>  override [project].namespace, like docker compose -p
  --data-home <path>    override global state/update-cache root
  --format text|json    output format where the command supports it
  --inspect-timeout <s> inspect round-trip timeout in seconds (default: 5)
  --force               force-kill sidecar-owned pids after graceful stop waits

Model:
  Manifest: [project], optional [app], repeated [[sidecars]], ready/env/inspect
  fields, and optional [[inspect.endpoints]]. See README.md for the schema.
  Lifecycle: command/cwd/args/env/stamps/ready/inspect/stop/reset close in manifest.
  Stamps: --sidecar-stamp=v=1;a=<app>;n=<namespace>;m=<mode>;s=<source>;e=<endpoint>;
  values are percent-encoded; the stamp is the only sidecar launch metadata.
  Inspect: one SidecarRuntime event frame over unix:// sockets; TCP is fallback.
  State: <data-home>/state plus <data-home>/projects/<namespace>; see AGENTS.md.

Safety:
  stop/reset are signal-first and observe sidecar-owned pids; add --force to
  kill after graceful waits. reset removes project state; add --all to also
  remove global state.
  update delegates to the released manager. Dev builds cannot self-update.

Exit shape:
  0 on success. 1 on config, diagnostic, lifecycle, inspect, or update failure.

Project:
  Source:  https://github.com/PerishCode/sidecar
  Issues:  https://github.com/PerishCode/sidecar/issues
  Details: README.md for usage/schema; AGENTS.md for boundaries and PR workflow.
"#;

/// The help text.
pub fn help() -> (r: &'static str)
    ensures
        r@ == HELP@,
{
    HELP
}

/// The version a build reports: the one it was built as, when the build
/// names one, else `v` and the package version.
pub fn version(build: Option<&str>, package: &str) -> (r: String)
    ensures
        r@ == match build {
            Some(b) => b@,
            None => seq!['v'] + package@,
        },
{
    match build {
        Some(b) => owned(b),
        None => {
            let mut v = String::new();
            crate::text::push_char(&mut v, 'v');
            crate::text::push_str(&mut v, package);
            v
        },
    }
}

/// The release channel a build reports: the one it was built for, when
/// the build names one, else `dev`.
pub fn channel(build: Option<&str>) -> (r: String)
    ensures
        r@ == match build {
            Some(b) => b@,
            None => "dev"@,
        },
{
    match build {
        Some(b) => owned(b),
        None => owned("dev"),
    }
}

/// The parent of a directory path: what comes before its last `/`, or `/`
/// when that is the first character (or the path has no `/`).
pub open spec fn parent_dir(d: Seq<char>) -> Seq<char> {
    match last_slash(d) {
        Some(i) => if i == 0 {
            seq!['/']
        } else {
            d.take(i)
        },
        None => seq!['/'],
    }
}

/// A directory and its ancestors, nearest first (`Path::ancestors` for an
/// absolute path with no empty, `.` or trailing components, as the system
/// reports a working directory).
pub open spec fn ancestors(d: Seq<char>) -> Seq<Seq<char>>
    decreases d.len(),
{
    if d.len() <= 1 {
        seq![d]
    } else {
        proof {
            lemma_last_slash(d);
        }
        seq![d] + ancestors(parent_dir(d))
    }
}

/// The manifest files looked for from `cwd` upward, nearest first.
pub open spec fn candidates_of(cwd: Seq<char>) -> Seq<Seq<char>> {
    ancestors(cwd).map_values(|d: Seq<char>| joined(d, MANIFEST@))
}

/// The message when no manifest is found from `cwd` upward.
pub open spec fn missing_of(cwd: Seq<char>) -> Seq<char> {
    "no sidecar config found from "@ + cwd
        + " upward.\nHint: create sidecar.toml here or pass --config <path>.\nSearched:\n"@ + join(
        candidates_of(cwd).map_values(|p: Seq<char>| "- "@ + p),
        "\n"@,
    )
}

/// Whether `probe` answered `b` for the path `p`.
pub open spec fn said<F: Fn(&str) -> bool>(probe: F, p: Seq<char>, b: bool) -> bool {
    exists|s: &str| s@ == p && #[trigger] probe.ensures((s,), b)
}

/// The manifest files looked for from `cwd` upward, nearest first.
pub fn candidates(cwd: &str) -> (r: Vec<String>)
    ensures
        r@.map_values(|p: String| p@) == candidates_of(cwd@),
{
    let mut out: Vec<String> = Vec::new();
    let mut d = owned(cwd);
    let ghost all = ancestors(cwd@);
    assert(candidates_of(cwd@) =~= all.map_values(|x: Seq<char>| joined(x, MANIFEST@)));
    loop
        invariant
            all == ancestors(cwd@),
            out@.map_values(|p: String| p@) + ancestors(d@).map_values(
                |x: Seq<char>| joined(x, MANIFEST@),
            ) == all.map_values(|x: Seq<char>| joined(x, MANIFEST@)),
        decreases d@.len(),
    {
        let ghost before = out@.map_values(|p: String| p@);
        let ghost here = d@;
        out.push(crate::paths::join(d.as_str(), MANIFEST));
        let chars = chars_of(d.as_str());
        if chars.len() <= 1 {
            assert(ancestors(here) =~= seq![here]);
            assert(out@.map_values(|p: String| p@) =~= before.push(joined(here, MANIFEST@)));
            assert(ancestors(here).map_values(|x: Seq<char>| joined(x, MANIFEST@)) =~= seq![
                joined(here, MANIFEST@),
            ]);
            return out;
        }
        proof {
            lemma_last_slash(here);
        }
        let next = match last_slash_in(&chars) {
            Some(i) => if i == 0 {
                owned("/")
            } else {
                string_of(&crate::text::piece(&chars, 0, i))
            },
            None => owned("/"),
        };
        proof {
            reveal_strlit("/");
        }
        assert(next@ =~= parent_dir(here));
        assert(ancestors(here) == seq![here] + ancestors(parent_dir(here)));
        assert(ancestors(here).map_values(|x: Seq<char>| joined(x, MANIFEST@)) =~= seq![
            joined(here, MANIFEST@),
        ] + ancestors(next@).map_values(|x: Seq<char>| joined(x, MANIFEST@)));
        assert(out@.map_values(|p: String| p@) =~= before.push(joined(here, MANIFEST@)));
        d = next;
    }
}

/// The manifest to use: `explicit` when one is given (not discovered),
/// else the nearest `sidecar.toml` from `cwd` upward that `is_file` finds
/// (discovered), else the message that lists the places searched.
pub fn locate<F: Fn(&str) -> bool>(explicit: Option<&str>, cwd: &str, is_file: F) -> (r: Result<
    (String, bool),
    String,
>)
    requires
        forall|p: &str| #[trigger] is_file.requires((p,)),
    ensures
        match explicit {
            Some(e) => r matches Ok((p, d)) && p@ == e@ && !d,
            None => match r {
                Ok((p, d)) => d && exists|k: int|
                    0 <= k < candidates_of(cwd@).len() && p@ == #[trigger] candidates_of(cwd@)[k]
                        && said(is_file, candidates_of(cwd@)[k], true) && forall|j: int|
                        0 <= j < k ==> said(is_file, #[trigger] candidates_of(cwd@)[j], false),
                Err(m) => m@ == missing_of(cwd@) && forall|j: int|
                    0 <= j < candidates_of(cwd@).len() ==> said(
                        is_file,
                        #[trigger] candidates_of(cwd@)[j],
                        false,
                    ),
            },
        },
{
    if let Some(e) = explicit {
        return Ok((owned(e), false));
    }
    let cands = candidates(cwd);
    let ghost c = candidates_of(cwd@);
    let mut i: usize = 0;
    while i < cands.len()
        invariant
            forall|p: &str| #[trigger] is_file.requires((p,)),
            explicit is None,
            c == candidates_of(cwd@),
            cands@.map_values(|p: String| p@) == c,
            i <= cands@.len(),
            forall|j: int| 0 <= j < i ==> said(is_file, #[trigger] c[j], false),
        decreases cands@.len() - i,
    {
        assert(c[i as int] == cands@[i as int]@);
        let found = is_file(cands[i].as_str());
        assert(said(is_file, c[i as int], found));
        if found {
            return Ok((cands[i].clone(), true));
        }
        i = i + 1;
    }
    let mut lines: Vec<String> = Vec::new();
    let mut k: usize = 0;
    while k < cands.len()
        invariant
            c == candidates_of(cwd@),
            cands@.map_values(|p: String| p@) == c,
            k <= cands@.len(),
            lines@.map_values(|p: String| p@) == c.take(k as int).map_values(
                |p: Seq<char>| "- "@ + p,
            ),
        decreases cands@.len() - k,
    {
        let mut line = owned("- ");
        push_str(&mut line, cands[k].as_str());
        assert(c[k as int] == cands@[k as int]@);
        assert(line@ == "- "@ + c[k as int]);
        let ghost old_lines = lines@.map_values(|p: String| p@);
        lines.push(line);
        assert(lines@.map_values(|p: String| p@) =~= old_lines.push("- "@ + c[k as int]));
        assert(c.take(k + 1) =~= c.take(k as int).push(c[k as int]));
        assert(c.take(k + 1).map_values(|p: Seq<char>| "- "@ + p) =~= c.take(k as int).map_values(
            |p: Seq<char>| "- "@ + p,
        ).push("- "@ + c[k as int]));
        assert(lines@.map_values(|p: String| p@) =~= c.take(k + 1).map_values(
            |p: Seq<char>| "- "@ + p,
        ));
        k = k + 1;
    }
    assert(c.take(k as int) =~= c);
    let mut message = owned("no sidecar config found from ");
    push_str(&mut message, cwd);
    push_str(
        &mut message,
        " upward.\nHint: create sidecar.toml here or pass --config <path>.\nSearched:\n",
    );
    let body = join_from(&lines, 0, "\n");
    assert(lines@.map_values(|p: String| p@).skip(0) =~= lines@.map_values(|p: String| p@));
    push_str(&mut message, body.as_str());
    Err(message)
}

/// Each lifecycle verb routes to its own action, carrying the target word
/// when one is given: `start`, `stop` and `restart` never stand in for one
/// another.
pub proof fn lemma_route_lifecycle(c: Seq<Seq<char>>)
    requires
        1 <= c.len() <= 2,
    ensures
        c[0] == "start"@ ==> route_of(c) == Ok::<ActionView, Seq<char>>(
            ActionView::Start(if c.len() == 2 { Some(c[1]) } else { None }),
        ),
        c[0] == "stop"@ ==> route_of(c) == Ok::<ActionView, Seq<char>>(
            ActionView::Stop(if c.len() == 2 { Some(c[1]) } else { None }),
        ),
        c[0] == "restart"@ ==> route_of(c) == Ok::<ActionView, Seq<char>>(
            ActionView::Restart(if c.len() == 2 { Some(c[1]) } else { None }),
        ),
{
    reveal_strlit("help");
    reveal_strlit("--help");
    reveal_strlit("-h");
    reveal_strlit("version");
    reveal_strlit("--version");
    reveal_strlit("-V");
    reveal_strlit("update");
    reveal_strlit("runtime");
    reveal_strlit("doctor");
    reveal_strlit("plan");
    reveal_strlit("inspect");
    reveal_strlit("start");
    reveal_strlit("stop");
    reveal_strlit("restart");
    reveal_strlit("config");
    assert("help"@ =~= seq!['h', 'e', 'l', 'p']);
    assert("--help"@ =~= seq!['-', '-', 'h', 'e', 'l', 'p']);
    assert("-h"@ =~= seq!['-', 'h']);
    assert("version"@ =~= seq!['v', 'e', 'r', 's', 'i', 'o', 'n']);
    assert("--version"@ =~= seq!['-', '-', 'v', 'e', 'r', 's', 'i', 'o', 'n']);
    assert("-V"@ =~= seq!['-', 'V']);
    assert("update"@ =~= seq!['u', 'p', 'd', 'a', 't', 'e']);
    assert("runtime"@ =~= seq!['r', 'u', 'n', 't', 'i', 'm', 'e']);
    assert("doctor"@ =~= seq!['d', 'o', 'c', 't', 'o', 'r']);
    assert("plan"@ =~= seq!['p', 'l', 'a', 'n']);
    assert("inspect"@ =~= seq!['i', 'n', 's', 'p', 'e', 'c', 't']);
    assert("start"@ =~= seq!['s', 't', 'a', 'r', 't']);
    assert("stop"@ =~= seq!['s', 't', 'o', 'p']);
    assert("restart"@ =~= seq!['r', 'e', 's', 't', 'a', 'r', 't']);
    assert("config"@ =~= seq!['c', 'o', 'n', 'f', 'i', 'g']);
}

/// `inspect <sidecar> <event> [<payload>]` routes to an inspect of that
/// sidecar and event whose payload is the fourth word when there is one,
/// and none otherwise; adding a payload word to such a command keeps the
/// sidecar and event and carries that word.
pub proof fn lemma_route_inspect(c: Seq<Seq<char>>, payload: Seq<char>)
    requires
        c.len() == 3,
        c[0] == "inspect"@,
        c[1] != "config"@,
    ensures
        route_of(c) == Ok::<ActionView, Seq<char>>(
            ActionView::Inspect { sidecar: c[1], event: c[2], payload: None },
        ),
        route_of(c.push(payload)) == Ok::<ActionView, Seq<char>>(
            ActionView::Inspect { sidecar: c[1], event: c[2], payload: Some(payload) },
        ),
{
    reveal_strlit("help");
    reveal_strlit("--help");
    reveal_strlit("-h");
    reveal_strlit("version");
    reveal_strlit("--version");
    reveal_strlit("-V");
    reveal_strlit("update");
    reveal_strlit("runtime");
    reveal_strlit("doctor");
    reveal_strlit("plan");
    reveal_strlit("inspect");
    reveal_strlit("start");
    reveal_strlit("stop");
    reveal_strlit("restart");
    reveal_strlit("config");
    assert("help"@ =~= seq!['h', 'e', 'l', 'p']);
    assert("--help"@ =~= seq!['-', '-', 'h', 'e', 'l', 'p']);
    assert("-h"@ =~= seq!['-', 'h']);
    assert("version"@ =~= seq!['v', 'e', 'r', 's', 'i', 'o', 'n']);
    assert("--version"@ =~= seq!['-', '-', 'v', 'e', 'r', 's', 'i', 'o', 'n']);
    assert("-V"@ =~= seq!['-', 'V']);
    assert("update"@ =~= seq!['u', 'p', 'd', 'a', 't', 'e']);
    assert("runtime"@ =~= seq!['r', 'u', 'n', 't', 'i', 'm', 'e']);
    assert("doctor"@ =~= seq!['d', 'o', 'c', 't', 'o', 'r']);
    assert("plan"@ =~= seq!['p', 'l', 'a', 'n']);
    assert("inspect"@ =~= seq!['i', 'n', 's', 'p', 'e', 'c', 't']);
    assert("start"@ =~= seq!['s', 't', 'a', 'r', 't']);
    assert("stop"@ =~= seq!['s', 't', 'o', 'p']);
    assert("restart"@ =~= seq!['r', 'e', 's', 't', 'a', 'r', 't']);
    assert("config"@ =~= seq!['c', 'o', 'n', 'f', 'i', 'g']);
    let d = c.push(payload);
    assert(d[0] == c[0] && d[1] == c[1] && d[2] == c[2] && d[3] == payload);
}

} // verus!
