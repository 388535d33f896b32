//! SCM (source control management) model types for the App Store Connect API.

use vstd::prelude::*;

verus! {

/// Attributes of an SCM git reference (branch or tag).
#[derive(Debug, Clone)]
pub struct ScmGitReferenceAttributes {
    /// The reference name (e.g., "main", "v1.0.0").
    pub name: Option<String>,
    /// The kind of reference (e.g., "BRANCH", "TAG").
    pub kind: Option<String>,
    /// Whether the reference has been deleted.
    pub is_deleted: Option<bool>,
}

} // verus!
