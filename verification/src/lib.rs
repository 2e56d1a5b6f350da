//! Audits dependency version declarations across a multi-package workspace
//! that shares a catalog of centrally pinned dependencies.
//!
//! The workspace root descriptor names package glob patterns and catalog
//! entries; each matched package manifest declares dependencies.  A catalog
//! entry declared with a literal version (one that does not defer to the
//! catalog through the `workspace:` marker) is a finding.  Check mode reports
//! findings; fix mode rewrites them to the catalog reference form.

pub mod deps;
pub mod fixer;
pub mod globs;
pub mod json;
pub mod manifest;
pub mod package;
pub mod reconcile;
pub mod scan;
pub mod strutil;
pub mod yaml;

use vstd::prelude::*;

verus! {

/// The version-specifier prefix that marks a catalog reference.
pub open spec fn catalog_marker() -> Seq<char> {
    "workspace:"@
}

/// A version specifier is compliant when it defers to the catalog,
/// which the `workspace:` prefix alone decides.
pub open spec fn is_catalog_ref(version: Seq<char>) -> bool {
    strutil::spec_starts_with(version, catalog_marker())
}

/// Decides whether a version specifier defers to the catalog.
pub fn version_is_catalog_ref(version: &str) -> (r: bool)
    ensures
        r == is_catalog_ref(version@),
{
    strutil::str_starts_with(version, "workspace:")
}

} // verus!
