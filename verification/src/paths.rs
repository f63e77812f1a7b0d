//! Where sidecar keeps global state and per-namespace project data.
//!
//! Paths are `/`-separated strings; joining follows `Path::join` on Unix: an
//! absolute part replaces what it is joined to.
use vstd::prelude::*;
use crate::text::{chars_of, owned, push_char, push_str, replace, replace_all, starts_with, string_of};

verus! {

/// The directories of one project namespace.
#[derive(Clone, Debug, PartialEq, Eq)]
pub struct Paths {
    pub root: String,
    pub state: String,
    pub project: String,
}

/// `child` joined to `base`.
pub open spec fn joined(base: Seq<char>, child: Seq<char>) -> Seq<char> {
    if child.len() > 0 && child[0] == '/' {
        child
    } else if base.len() == 0 {
        child
    } else if base.last() == '/' {
        base + child
    } else {
        base + seq!['/'] + child
    }
}

/// The sidecar data home: the explicit one, else a non-empty
/// `SIDECAR_DATA_HOME`, else `<XDG_DATA_HOME>/sidecar` when that is
/// non-empty, else `<HOME>/.local/share/sidecar`, else `sidecar`.
pub open spec fn home_of(
    explicit: Option<Seq<char>>,
    data_home: Option<Seq<char>>,
    xdg: Option<Seq<char>>,
    user_home: Option<Seq<char>>,
) -> Seq<char> {
    match explicit {
        Some(p) => p,
        None => match data_home {
            Some(d) if d.len() > 0 => d,
            _ => match xdg {
                Some(x) if x.len() > 0 => joined(x, "sidecar"@),
                _ => match user_home {
                    Some(h) => joined(h, ".local/share/sidecar"@),
                    None => "sidecar"@,
                },
            },
        },
    }
}

/// The view of an optional string slice.
pub open spec fn opt_str(o: Option<&str>) -> Option<Seq<char>> {
    match o {
        Some(s) => Some(s@),
        None => None,
    }
}

/// `child` joined to `base`.
pub fn join(base: &str, child: &str) -> (r: String)
    ensures
        r@ == joined(base@, child@),
{
    let c = chars_of(child);
    let b = chars_of(base);
    if c.len() > 0 && c[0] == '/' {
        return owned(child);
    }
    if b.len() == 0 {
        return owned(child);
    }
    let mut out = owned(base);
    if b[b.len() - 1] != '/' {
        push_char(&mut out, '/');
    }
    push_str(&mut out, child);
    out
}

/// The sidecar data home from an explicit choice and the values of
/// `SIDECAR_DATA_HOME`, `XDG_DATA_HOME` and `HOME` (Unix rules).
pub fn data_home(
    explicit: Option<&str>,
    configured: Option<&str>,
    xdg: Option<&str>,
    user_home: Option<&str>,
) -> (r: String)
    ensures
        r@ == home_of(opt_str(explicit), opt_str(configured), opt_str(xdg), opt_str(user_home)),
{
    if let Some(p) = explicit {
        return owned(p);
    }
    if let Some(d) = configured {
        if chars_of(d).len() > 0 {
            return owned(d);
        }
    }
    if let Some(x) = xdg {
        if chars_of(x).len() > 0 {
            return join(x, "sidecar");
        }
    }
    match user_home {
        Some(h) => join(h, ".local/share/sidecar"),
        None => owned("sidecar"),
    }
}

/// The project data directory: the manifest's `data_dir` with
/// `{namespace}` filled in, else `<root>/projects/<namespace>`.
pub open spec fn project_dir(root: Seq<char>, namespace: Seq<char>, data: Option<Seq<char>>) -> Seq<char> {
    match data {
        Some(d) => replace(d, "{namespace}"@, namespace),
        None => joined(joined(root, "projects"@), namespace),
    }
}

impl Paths {
    /// The directories of `namespace` under the data home `root`, with the
    /// manifest's optional `data_dir`.
    pub fn resolve(namespace: &str, root: &str, data: Option<&str>) -> (r: Paths)
        ensures
            r.root@ == root@,
            r.state@ == joined(root@, "state"@),
            r.project@ == project_dir(root@, namespace@, opt_str(data)),
    {
        let state = join(root, "state");
        let project = match data {
            Some(value) => {
                proof {
                    reveal_strlit("{namespace}");
                }
                let v = chars_of(value);
                let p = chars_of("{namespace}");
                let n = chars_of(namespace);
                string_of(&replace_all(&v, &p, &n))
            },
            None => {
                let projects = join(root, "projects");
                join(projects.as_str(), namespace)
            },
        };
        Paths { root: owned(root), state, project }
    }
}

} // verus!
