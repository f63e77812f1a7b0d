//! Findings about a manifest, each tied to the field it concerns.
use vstd::prelude::*;

verus! {

/// How serious a finding is.
#[derive(Clone, Copy, Debug, PartialEq, Eq)]
pub enum Severity {
    Error,
    Warning,
}

/// One finding: its severity, the manifest path it concerns and a message.
#[derive(Clone, Debug, PartialEq, Eq)]
pub struct Diagnostic {
    pub severity: Severity,
    pub path: String,
    pub message: String,
}

impl View for Diagnostic {
    type V = (Severity, Seq<char>, Seq<char>);

    open spec fn view(&self) -> (Severity, Seq<char>, Seq<char>) {
        (self.severity, self.path@, self.message@)
    }
}

impl Diagnostic {
    /// An error about `path`.
    pub fn error(path: String, message: String) -> (r: Diagnostic)
        ensures
            r@ == (Severity::Error, path@, message@),
    {
        Diagnostic { severity: Severity::Error, path, message }
    }

    /// A warning about `path`.
    pub fn warning(path: String, message: String) -> (r: Diagnostic)
        ensures
            r@ == (Severity::Warning, path@, message@),
    {
        Diagnostic { severity: Severity::Warning, path, message }
    }
}

} // verus!
