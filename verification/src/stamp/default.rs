//! The values a manifest falls back to where it names none.
use vstd::prelude::*;

verus! {

/// The namespace of a project that names none.
pub const NAMESPACE: &'static str = "default";

/// The mode of a target that names none.
pub const MODE: &'static str = "dev";

/// The source recorded in every stamp that sidecar writes.
pub const SOURCE: &'static str = "tool:sidecar";

} // verus!
