//! The `sidecar.toml` manifest, as plain data.
use std::collections::BTreeMap;
use vstd::prelude::*;
use crate::stamp;
use crate::text::owned;

verus! {

/// A whole manifest.
#[derive(Clone, Debug, PartialEq, Eq)]
pub struct Manifest {
    pub project: Project,
    pub app: Option<App>,
    pub sidecars: Vec<Sidecar>,
    pub inspect: Inspect,
}

/// The `[project]` table.
#[derive(Clone, Debug, PartialEq, Eq)]
pub struct Project {
    pub name: String,
    pub namespace: String,
    pub root: String,
    pub data: Option<String>,
}

/// The optional foreground `[app]` target.
#[derive(Clone, Debug, PartialEq, Eq)]
pub struct App {
    pub name: String,
    pub command: String,
    pub args: Vec<String>,
    pub cwd: String,
    pub mode: String,
    pub env: BTreeMap<String, String>,
    pub inherits: Vec<Inherit>,
    pub socket: Option<String>,
    pub health: Option<String>,
    pub ready: Option<Ready>,
}

/// One `[[sidecars]]` background target.
#[derive(Clone, Debug, PartialEq, Eq)]
pub struct Sidecar {
    pub name: String,
    pub command: String,
    pub args: Vec<String>,
    pub cwd: String,
    pub mode: String,
    pub env: BTreeMap<String, String>,
    pub inherits: Vec<Inherit>,
    pub socket: Option<String>,
    pub health: Option<String>,
    pub ready: Option<Ready>,
}

/// A target's readiness rule.
#[derive(Clone, Debug, PartialEq, Eq)]
pub struct Ready {
    pub role: String,
    pub timeout: u64,
}

/// An environment variable taken from another target's readiness facts.
#[derive(Clone, Debug, PartialEq, Eq)]
pub struct Inherit {
    pub name: String,
    pub from: String,
}

/// The `[inspect]` table.
#[derive(Clone, Debug, PartialEq, Eq)]
pub struct Inspect {
    pub endpoints: Vec<Endpoint>,
}

/// One `[[inspect.endpoints]]` entry.
#[derive(Clone, Debug, PartialEq, Eq)]
pub struct Endpoint {
    pub name: String,
    pub kind: String,
    pub url: String,
}

/// The seconds a readiness rule waits when it names none.
pub const TIMEOUT: u64 = 120;

/// The directory a project or target runs in when it names none.
pub fn default_root() -> (r: String)
    ensures
        r@ == "."@,
{
    owned(".")
}

/// The namespace of a project that names none.
pub fn default_namespace() -> (r: String)
    ensures
        r@ == stamp::default::NAMESPACE@,
{
    owned(stamp::default::NAMESPACE)
}

/// The mode of a target that names none.
pub fn default_mode() -> (r: String)
    ensures
        r@ == stamp::default::MODE@,
{
    owned(stamp::default::MODE)
}

/// The readiness timeout, in seconds, of a rule that names none.
pub fn default_timeout() -> (r: u64)
    ensures
        r == TIMEOUT,
{
    TIMEOUT
}

impl Default for Inspect {
    fn default() -> (r: Inspect)
        ensures
            r.endpoints@.len() == 0,
    {
        Inspect { endpoints: Vec::new() }
    }
}

} // verus!
