//! The workspace manifest: the root descriptor that names the package glob
//! patterns and the catalog entries.

use vstd::prelude::*;
use vstd::string::StringExecFns;
use crate::reconcile::names_model;
use crate::yaml::{yaml_catalog_list, yaml_catalog_of, yaml_packages_list, yaml_packages_of,
    yaml_parses};

verus! {

/// Why a scan failed fatally.
pub enum ScanError {
    /// A required file was missing or unreadable.
    NotFound { message: String },
    /// Malformed structured text, or a schema mismatch such as a missing
    /// required field.
    ParseError { message: String },
    /// A package glob pattern that does not compile: the offending pattern,
    /// and why.
    InvalidPattern { pattern: String, message: String },
}

impl ScanError {
    /// The human-readable description the error carries.
    pub fn message(&self) -> (r: &String)
        ensures
            r@ == match self {
                ScanError::NotFound { message } => message@,
                ScanError::ParseError { message } => message@,
                ScanError::InvalidPattern { message, .. } => message@,
            },
    {
        match self {
            ScanError::NotFound { message } => message,
            ScanError::ParseError { message } => message,
            ScanError::InvalidPattern { message, .. } => message,
        }
    }
}

/// The workspace root descriptor: an ordered list of package glob patterns,
/// and the catalog entry names (possibly with duplicates, passed through).
pub struct WorkspaceManifest {
    pub packages: Vec<String>,
    pub catalog: Vec<String>,
}

impl WorkspaceManifest {
    /// Whether any catalog entry is declared.
    pub fn has_catalog_entries(&self) -> (r: bool)
        ensures
            r == (self.catalog@.len() != 0),
    {
        self.catalog.len() != 0
    }
}

/// The text is a well-formed workspace descriptor: valid YAML whose
/// `packages` key holds a sequence of strings and whose `catalog` key, if
/// present, holds one too.
pub open spec fn descriptor_wf(text: Seq<char>) -> bool {
    yaml_parses(text) && yaml_packages_of(text) is Some && yaml_catalog_of(text) is Some
}

/// Parse the workspace descriptor text.  Succeeds exactly on a well-formed
/// descriptor, yielding exactly its `packages` list and its `catalog` list
/// (empty when the key is absent); anything else is a `ParseError`, fatal
/// to the enclosing scan.
pub fn parse_workspace_manifest(text: &str) -> (r: Result<WorkspaceManifest, ScanError>)
    ensures
        r is Ok <==> descriptor_wf(text@),
        !descriptor_wf(text@) ==> (r matches Err(ScanError::ParseError { .. })),
        r matches Ok(m) ==> names_model(m.packages@) == yaml_packages_of(text@).unwrap()
            && names_model(m.catalog@) == yaml_catalog_of(text@).unwrap(),
{
    let packages = match yaml_packages_list(text) {
        Ok(Some(p)) => p,
        Ok(None) => {
            return Err(
                ScanError::ParseError {
                    message: "Failed to parse pnpm-workspace.yaml: missing or invalid packages field".to_owned(),
                },
            );
        },
        Err(e) => {
            return Err(
                ScanError::ParseError {
                    message: "Failed to parse pnpm-workspace.yaml: ".to_owned().concat(e.as_str()),
                },
            );
        },
    };
    let catalog = match yaml_catalog_list(text) {
        Ok(Some(c)) => c,
        Ok(None) => {
            return Err(
                ScanError::ParseError {
                    message: "Failed to parse pnpm-workspace.yaml: catalog is not a sequence of strings".to_owned(),
                },
            );
        },
        Err(e) => {
            // The packages extraction succeeded, so the text parses, and the
            // catalog extraction cannot fail to parse the same text.
            proof {
                assert(false);
            }
            return Err(
                ScanError::ParseError {
                    message: "Failed to parse pnpm-workspace.yaml: ".to_owned().concat(e.as_str()),
                },
            );
        },
    };
    Ok(WorkspaceManifest { packages, catalog })
}

/// Classify the attempted read of the workspace descriptor and parse what it
/// yielded.  A failed read is `NotFound`; text that is not a well-formed
/// descriptor is `ParseError`.  Both are fatal to the enclosing scan.
/// Success is owed exactly when the read succeeded and its text is a
/// well-formed descriptor, and then the manifest is exactly what the text
/// declares.
pub fn load_workspace_manifest(read: &Result<String, String>) -> (r: Result<
    WorkspaceManifest,
    ScanError,
>)
    ensures
        read is Err ==> (r matches Err(ScanError::NotFound { .. })),
        r is Ok <==> (read matches Ok(text) && descriptor_wf(text@)),
        (read matches Ok(text) && !descriptor_wf(text@)) ==> (r matches Err(
            ScanError::ParseError { .. },
        )),
        read matches Ok(text) ==> (r matches Ok(m) ==> names_model(m.packages@)
            == yaml_packages_of(text@).unwrap() && names_model(m.catalog@) == yaml_catalog_of(
            text@,
        ).unwrap()),
{
    match read {
        Ok(text) => parse_workspace_manifest(text.as_str()),
        Err(e) => Err(
            ScanError::NotFound {
                message: "Failed to read pnpm-workspace.yaml: ".to_owned().concat(e.as_str()),
            },
        ),
    }
}

} // verus!
