//! Where launched processes run and write: the broker runtime's command
//! line and log file, a target's working directory and log file, and its
//! health address.
use vstd::prelude::*;
use crate::broker::{identity_arg, Identity};
use crate::paths::{join, joined};
use crate::runtime::{sanitize, sanitized};
use crate::text::{
    chars_of, decimal, decimal_string, find_pat, find_str, owned, piece, push_str, replace,
    replace_all, string_of,
};

verus! {

/// The file name of the broker runtime's log for `project` and `namespace`.
pub open spec fn broker_log_of(project: Seq<char>, namespace: Seq<char>) -> Seq<char> {
    "sidecar-broker-"@ + sanitized(project) + seq!['-'] + sanitized(namespace) + ".log"@
}

/// The file name of the log of the broker runtime with identity `identity`
/// (the caller puts it in the temporary directory).
pub fn broker_log(identity: &Identity) -> (r: String)
    ensures
        r@ == broker_log_of(identity.project@, identity.namespace@),
{
    let mut name = owned("sidecar-broker-");
    let p = sanitize(identity.project.as_str());
    push_str(&mut name, p.as_str());
    push_str(&mut name, "-");
    let n = sanitize(identity.namespace.as_str());
    push_str(&mut name, n.as_str());
    push_str(&mut name, ".log");
    proof {
        reveal_strlit("-");
    }
    name
}

/// The arguments that start the broker runtime for `identity`:
/// `runtime serve <project> <namespace>` and the identity argument.
pub fn broker_args(identity: &Identity) -> (r: Vec<String>)
    ensures
        r@.map_values(|a: String| a@) == seq![
            "runtime"@,
            "serve"@,
            identity.project@,
            identity.namespace@,
            identity_arg(identity@),
        ],
{
    let mut out: Vec<String> = Vec::new();
    out.push(owned("runtime"));
    out.push(owned("serve"));
    out.push(identity.project.clone());
    out.push(identity.namespace.clone());
    let mut tail = identity.args();
    let arg = tail.pop().unwrap();
    out.push(arg);
    assert(out@.map_values(|a: String| a@) =~= seq![
        "runtime"@,
        "serve"@,
        identity.project@,
        identity.namespace@,
        identity_arg(identity@),
    ]);
    out
}

/// The index of the last `/` in `s`.
pub open spec fn last_slash(s: Seq<char>) -> Option<int>
    decreases s.len(),
{
    if s.len() == 0 {
        None
    } else if s.last() == '/' {
        Some(s.len() - 1)
    } else {
        last_slash(s.drop_last())
    }
}

/// The directory of a file path (`Path::parent` for a path that does not
/// end with `/`): what comes before its last `/` (`/` itself when that is
/// the first character), the empty path when it has no `/`, and none for
/// the empty path and `/`.
pub open spec fn parent_of(s: Seq<char>) -> Option<Seq<char>> {
    if s.len() == 0 || s == seq!['/'] {
        None
    } else {
        match last_slash(s) {
            None => Some(seq![]),
            Some(i) => if i == 0 {
                Some(seq!['/'])
            } else {
                Some(s.take(i))
            },
        }
    }
}

/// The directory a target with working directory `cwd` runs in, for a
/// manifest at `manifest`: `cwd` itself when it is absolute, else `cwd`
/// taken from the manifest's directory.
pub open spec fn work_dir_of(manifest: Seq<char>, cwd: Seq<char>) -> Seq<char> {
    if cwd.len() > 0 && cwd[0] == '/' {
        cwd
    } else {
        match parent_of(manifest) {
            Some(d) => joined(d, cwd),
            None => cwd,
        }
    }
}

/// The last `/` of a path, when there is one, lies within it.
pub proof fn lemma_last_slash(s: Seq<char>)
    ensures
        last_slash(s) matches Some(k) ==> 0 <= k < s.len() && s[k] == '/',
    decreases s.len(),
{
    if s.len() > 0 && s.last() != '/' {
        lemma_last_slash(s.drop_last());
    }
}

/// The index of the last `/` in `s`.
pub fn last_slash_in(s: &[char]) -> (r: Option<usize>)
    ensures
        match last_slash(s@) {
            Some(i) => r == Some(i as usize) && 0 <= i < s@.len(),
            None => r is None,
        },
{
    let mut i: usize = s.len();
    assert(s@.take(i as int) =~= s@);
    proof {
        lemma_last_slash(s@);
    }
    while i > 0
        invariant
            i <= s@.len(),
            last_slash(s@) == last_slash(s@.take(i as int)),
            last_slash(s@) matches Some(k) ==> 0 <= k < i,
        decreases i,
    {
        assert(s@.take(i as int).drop_last() =~= s@.take(i - 1));
        assert(s@.take(i as int).last() == s@[i - 1]);
        proof {
            lemma_last_slash(s@.take(i - 1));
        }
        if s[i - 1] == '/' {
            return Some(i - 1);
        }
        i = i - 1;
    }
    None
}

/// The directory a target with working directory `cwd` runs in, for the
/// manifest at `manifest` (a file path, so not ending with `/`).
pub fn work_dir(manifest: &str, cwd: &str) -> (r: String)
    ensures
        r@ == work_dir_of(manifest@, cwd@),
{
    let c = chars_of(cwd);
    if c.len() > 0 && c[0] == '/' {
        return owned(cwd);
    }
    let m = chars_of(manifest);
    if m.len() == 0 || (m.len() == 1 && m[0] == '/') {
        assert(m@.len() == 1 ==> m@ =~= seq!['/']);
        return owned(cwd);
    }
    assert(m@ != seq!['/']);
    proof {
        reveal_strlit("");
        reveal_strlit("/");
    }
    match last_slash_in(&m) {
        None => join("", cwd),
        Some(i) => {
            if i == 0 {
                join("/", cwd)
            } else {
                let part = piece(&m, 0, i);
                assert(part@ =~= m@.take(i as int));
                let d = string_of(&part);
                join(d.as_str(), cwd)
            }
        },
    }
}

/// The log file of target `name` in the project directory `project`.
pub open spec fn log_path_of(project: Seq<char>, name: Seq<char>) -> Seq<char> {
    joined(joined(project, "logs"@), name + ".log"@)
}

/// The log file of target `name` in the project directory `project`.
pub fn log_path(project: &str, name: &str) -> (r: String)
    ensures
        r@ == log_path_of(project@, name@),
{
    let logs = join(project, "logs");
    let mut file = owned(name);
    push_str(&mut file, ".log");
    join(logs.as_str(), file.as_str())
}

/// The health address of a target with health template `template`, whose
/// recorded port (if any) is `port`: the template itself when it has no
/// `{port}`, else the template with the port in place of each `{port}`.
pub open spec fn health_of(template: Option<Seq<char>>, port: Option<u64>) -> Option<Seq<char>> {
    match template {
        None => None,
        Some(t) => if find_pat(t, "{port}"@) is None {
            Some(t)
        } else {
            match port {
                Some(p) => Some(replace(t, "{port}"@, decimal(p as nat))),
                None => None,
            }
        },
    }
}

/// The health address of a target, from its health template and its
/// recorded port.
pub fn health_url(template: Option<&str>, port: Option<u64>) -> (r: Option<String>)
    ensures
        match health_of(crate::process::opt_str(template), port) {
            Some(h) => r matches Some(x) && x@ == h,
            None => r is None,
        },
{
    let t = match template {
        Some(t) => t,
        None => {
            return None;
        },
    };
    proof {
        reveal_strlit("{port}");
    }
    let text = chars_of(t);
    let pat = chars_of("{port}");
    if find_str(&text, &pat).is_none() {
        return Some(owned(t));
    }
    match port {
        Some(p) => {
            let digits = chars_of(decimal_string(p).as_str());
            Some(string_of(&replace_all(&text, &pat, &digits)))
        },
        None => None,
    }
}

} // verus!
