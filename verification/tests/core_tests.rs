//! Tests of the reconciler and fixer core on concrete values.

use catalog_audit::deps::DepMap;
use catalog_audit::fixer::apply_fix;
use catalog_audit::reconcile::reconcile;
use catalog_audit::version_is_catalog_ref;

fn dep_map(entries: &[(&str, &str)]) -> DepMap {
    let mut m = DepMap::new();
    for (name, version) in entries {
        m.insert(name.to_string(), version.to_string());
    }
    m
}

#[test]
fn catalog_ref_prefix_accepted() {
    assert!(version_is_catalog_ref("workspace:*"));
    assert!(version_is_catalog_ref("workspace:^1.0.0"));
}

#[test]
fn catalog_ref_bare_marker_accepted() {
    // Prefix match only: an empty suffix still counts as compliant.
    assert!(version_is_catalog_ref("workspace:"));
}

#[test]
fn literal_versions_rejected() {
    assert!(!version_is_catalog_ref("1.2.3"));
    assert!(!version_is_catalog_ref("^4.17.21"));
    assert!(!version_is_catalog_ref(""));
    assert!(!version_is_catalog_ref("workspace"));
    // Case-sensitive: a capitalised marker is not a reference.
    assert!(!version_is_catalog_ref("Workspace:*"));
}

#[test]
fn dep_map_lookup_finds_inserted_entries() {
    let m = dep_map(&[("lodash", "4.17.21"), ("react", "workspace:*")]);
    assert_eq!(m.len(), 2);
    assert_eq!(m.lookup(&"lodash".to_string()), Some(&"4.17.21".to_string()));
    assert_eq!(m.lookup(&"react".to_string()), Some(&"workspace:*".to_string()));
    assert_eq!(m.lookup(&"absent".to_string()), None);
    assert!(m.contains_name(&"lodash".to_string()));
    assert!(!m.contains_name(&"absent".to_string()));
}

#[test]
fn empty_catalog_yields_no_findings() {
    let m = dep_map(&[("lodash", "4.17.21"), ("react", "18.0.0")]);
    let catalog: Vec<String> = Vec::new();
    let path = "packages/a/package.json".to_string();
    let findings = reconcile(&path, &m, &catalog);
    assert_eq!(findings.len(), 0);
}

#[test]
fn empty_deps_yield_no_findings() {
    let m = DepMap::new();
    let catalog = vec!["lodash".to_string(), "react".to_string()];
    let path = "packages/a/package.json".to_string();
    let findings = reconcile(&path, &m, &catalog);
    assert_eq!(findings.len(), 0);
}

#[test]
fn compliant_entry_produces_no_finding() {
    let m = dep_map(&[("lodash", "workspace:*"), ("react", "workspace:^2")]);
    let catalog = vec!["lodash".to_string(), "react".to_string()];
    let path = "packages/a/package.json".to_string();
    let findings = reconcile(&path, &m, &catalog);
    assert_eq!(findings.len(), 0);
}

#[test]
fn literal_entry_produces_exactly_one_finding() {
    let m = dep_map(&[("lodash", "1.2.3"), ("react", "workspace:*")]);
    let catalog = vec!["lodash".to_string(), "react".to_string()];
    let path = "packages/a/package.json".to_string();
    let findings = reconcile(&path, &m, &catalog);
    assert_eq!(findings.len(), 1);
    assert_eq!(findings[0].package_path, "packages/a/package.json");
    assert_eq!(findings[0].dependency, "lodash");
    assert_eq!(findings[0].version, "1.2.3");
}

#[test]
fn findings_follow_catalog_order() {
    let m = dep_map(&[("a", "1.0.0"), ("b", "2.0.0"), ("c", "3.0.0")]);
    let catalog = vec!["c".to_string(), "a".to_string()];
    let path = "p".to_string();
    let findings = reconcile(&path, &m, &catalog);
    assert_eq!(findings.len(), 2);
    assert_eq!(findings[0].dependency, "c");
    assert_eq!(findings[0].version, "3.0.0");
    assert_eq!(findings[1].dependency, "a");
    assert_eq!(findings[1].version, "1.0.0");
}

#[test]
fn uncatalogued_dependencies_are_ignored() {
    let m = dep_map(&[("left-pad", "0.0.1")]);
    let catalog = vec!["lodash".to_string()];
    let path = "p".to_string();
    let findings = reconcile(&path, &m, &catalog);
    assert_eq!(findings.len(), 0);
}

#[test]
fn fix_rewrites_literal_versions_only() {
    let m = dep_map(&[
        ("lodash", "4.17.21"),
        ("react", "workspace:*"),
        ("left-pad", "0.0.1"),
    ]);
    let catalog = vec!["lodash".to_string(), "react".to_string()];
    let (fixed, modified) = apply_fix(&m, &catalog);
    assert!(modified);
    assert_eq!(fixed.len(), 3);
    // The non-compliant catalog entry is rewritten.
    assert_eq!(fixed.lookup(&"lodash".to_string()), Some(&"workspace:*".to_string()));
    // The compliant one is kept as declared.
    assert_eq!(fixed.lookup(&"react".to_string()), Some(&"workspace:*".to_string()));
    // A dependency outside the catalog is untouched.
    assert_eq!(fixed.lookup(&"left-pad".to_string()), Some(&"0.0.1".to_string()));
    // Order of entries is kept.
    assert_eq!(fixed.name_at(0).as_str(), "lodash");
    assert_eq!(fixed.name_at(1).as_str(), "react");
    assert_eq!(fixed.name_at(2).as_str(), "left-pad");
}

#[test]
fn fix_on_compliant_map_changes_nothing() {
    let m = dep_map(&[("lodash", "workspace:*"), ("left-pad", "0.0.1")]);
    let catalog = vec!["lodash".to_string()];
    let (fixed, modified) = apply_fix(&m, &catalog);
    assert!(!modified);
    assert_eq!(fixed.lookup(&"lodash".to_string()), Some(&"workspace:*".to_string()));
    assert_eq!(fixed.lookup(&"left-pad".to_string()), Some(&"0.0.1".to_string()));
}

#[test]
fn fix_then_check_yields_no_findings() {
    let m = dep_map(&[
        ("lodash", "4.17.21"),
        ("react", "18.2.0"),
        ("chalk", "workspace:~"),
    ]);
    let catalog = vec!["lodash".to_string(), "react".to_string(), "chalk".to_string()];
    let (fixed, modified) = apply_fix(&m, &catalog);
    assert!(modified);
    let path = "p".to_string();
    let findings = reconcile(&path, &fixed, &catalog);
    assert_eq!(findings.len(), 0);
}
