//! Tests of the manifest reader, package inspector, and workspace scanner.

use catalog_audit::manifest::{load_workspace_manifest, parse_workspace_manifest, ScanError};
use catalog_audit::package::parse_dependencies;
use catalog_audit::scan::{package_pattern, plan_scan, run_check, run_fix, PackageInput};

fn input(path: &str, text: &str) -> PackageInput {
    PackageInput { path: path.to_string(), read: Ok(text.to_string()) }
}

fn unreadable(path: &str, message: &str) -> PackageInput {
    PackageInput { path: path.to_string(), read: Err(message.to_string()) }
}

#[test]
fn workspace_manifest_parses_packages_and_catalog() {
    let text = "packages:\n  - packages/*\n  - apps/web\ncatalog:\n  - lodash\n  - react\n";
    let manifest = match parse_workspace_manifest(text) {
        Ok(m) => m,
        Err(e) => panic!("unexpected error: {}", e.message()),
    };
    assert_eq!(manifest.packages, vec!["packages/*".to_string(), "apps/web".to_string()]);
    assert_eq!(manifest.catalog, vec!["lodash".to_string(), "react".to_string()]);
    assert!(manifest.has_catalog_entries());
}

#[test]
fn workspace_manifest_catalog_defaults_to_empty() {
    let text = "packages:\n  - packages/*\n";
    let manifest = parse_workspace_manifest(text).map_err(|_| ()).unwrap();
    assert_eq!(manifest.packages, vec!["packages/*".to_string()]);
    assert!(manifest.catalog.is_empty());
    assert!(!manifest.has_catalog_entries());
}

#[test]
fn workspace_manifest_missing_packages_is_parse_error() {
    let text = "catalog:\n  - lodash\n";
    match parse_workspace_manifest(text) {
        Err(ScanError::ParseError { .. }) => (),
        _ => panic!("expected a parse error"),
    }
}

#[test]
fn workspace_manifest_invalid_yaml_is_parse_error() {
    let text = "packages: [\n";
    match parse_workspace_manifest(text) {
        Err(ScanError::ParseError { .. }) => (),
        _ => panic!("expected a parse error"),
    }
}

#[test]
fn workspace_manifest_non_string_package_is_parse_error() {
    let text = "packages:\n  - packages/*\n  - 7\n";
    match parse_workspace_manifest(text) {
        Err(ScanError::ParseError { .. }) => (),
        _ => panic!("expected a parse error"),
    }
}

#[test]
fn workspace_manifest_scalar_catalog_is_parse_error() {
    let text = "packages:\n  - packages/*\ncatalog: lodash\n";
    match parse_workspace_manifest(text) {
        Err(ScanError::ParseError { .. }) => (),
        _ => panic!("expected a parse error"),
    }
}

#[test]
fn package_dependencies_are_extracted() {
    let text = "{\"name\": \"a\", \"dependencies\": {\"lodash\": \"4.17.21\", \"react\": \"workspace:*\"}}";
    let deps = parse_dependencies(text).map_err(|_| ()).unwrap();
    assert_eq!(deps.len(), 2);
    assert_eq!(deps.lookup(&"lodash".to_string()), Some(&"4.17.21".to_string()));
    assert_eq!(deps.lookup(&"react".to_string()), Some(&"workspace:*".to_string()));
}

#[test]
fn package_without_dependencies_gives_empty_map() {
    let deps = parse_dependencies("{\"name\": \"a\"}").map_err(|_| ()).unwrap();
    assert_eq!(deps.len(), 0);
}

#[test]
fn package_non_object_dependencies_give_empty_map() {
    let deps = parse_dependencies("{\"dependencies\": [1, 2]}").map_err(|_| ()).unwrap();
    assert_eq!(deps.len(), 0);
}

#[test]
fn package_non_string_version_counts_as_undeclared() {
    let deps = parse_dependencies("{\"dependencies\": {\"lodash\": 7, \"react\": \"18.0.0\"}}")
        .map_err(|_| ())
        .unwrap();
    assert_eq!(deps.len(), 1);
    assert_eq!(deps.lookup(&"react".to_string()), Some(&"18.0.0".to_string()));
}

#[test]
fn package_invalid_json_is_parse_error() {
    match parse_dependencies("{\"dependencies\":") {
        Err(ScanError::ParseError { .. }) => (),
        _ => panic!("expected a parse error"),
    }
}

#[test]
fn package_pattern_joins_root_pattern_and_manifest_name() {
    let pattern = package_pattern("/ws", &"packages/*".to_string());
    assert_eq!(pattern, "/ws/packages/*/package.json");
}

#[test]
fn plan_scan_rejects_an_invalid_pattern() {
    let text = "packages:\n  - \"packages/[\"\ncatalog:\n  - lodash\n";
    let manifest = parse_workspace_manifest(text).map_err(|_| ()).unwrap();
    match plan_scan("/nonexistent-workspace-root", &manifest) {
        Err(ScanError::InvalidPattern { pattern, .. }) => {
            assert_eq!(pattern, "/nonexistent-workspace-root/packages/[/package.json");
        }
        _ => panic!("expected an invalid pattern error"),
    }
}

#[test]
fn split_entries_divides_paths_and_warnings() {
    let pattern = "ws/packages/*/package.json".to_string();
    let entries = vec![
        Ok("ws/packages/a/package.json".to_string()),
        Err("permission denied".to_string()),
        Ok("ws/packages/b/package.json".to_string()),
    ];
    let (paths, warnings) = catalog_audit::scan::split_entries(&pattern, &entries);
    assert_eq!(
        paths,
        vec!["ws/packages/a/package.json".to_string(), "ws/packages/b/package.json".to_string()]
    );
    assert_eq!(warnings.len(), 1);
    assert_eq!(warnings[0].path, "ws/packages/*/package.json");
    assert_eq!(warnings[0].message, "permission denied");
}

#[test]
fn plan_scan_accepts_valid_patterns() {
    let text = "packages:\n  - packages/*\ncatalog:\n  - lodash\n";
    let manifest = parse_workspace_manifest(text).map_err(|_| ()).unwrap();
    let plan = plan_scan("/nonexistent-workspace-root", &manifest).map_err(|_| ()).unwrap();
    assert_eq!(plan.catalog, vec!["lodash".to_string()]);
    assert!(plan.package_paths.is_empty());
    assert!(plan.warnings.is_empty());
}

#[test]
fn check_reports_one_finding_for_literal_version() {
    let catalog = vec!["lodash".to_string()];
    let files = vec![input(
        "packages/a/package.json",
        "{\"dependencies\": {\"lodash\": \"4.17.21\"}}",
    )];
    let report = run_check(&catalog, &files);
    assert_eq!(report.findings.len(), 1);
    assert_eq!(report.findings[0].package_path, "packages/a/package.json");
    assert_eq!(report.findings[0].dependency, "lodash");
    assert_eq!(report.findings[0].version, "4.17.21");
    assert!(report.warnings.is_empty());
}

#[test]
fn check_reports_nothing_for_catalog_reference() {
    let catalog = vec!["lodash".to_string()];
    let files = vec![input(
        "packages/a/package.json",
        "{\"dependencies\": {\"lodash\": \"workspace:*\"}}",
    )];
    let report = run_check(&catalog, &files);
    assert_eq!(report.findings.len(), 0);
    assert!(report.warnings.is_empty());
}

#[test]
fn check_with_empty_catalog_reports_nothing() {
    let catalog: Vec<String> = Vec::new();
    let files = vec![
        input("a", "{\"dependencies\": {\"lodash\": \"4.17.21\"}}"),
        input("b", "{\"dependencies\": {\"react\": \"18.0.0\"}}"),
    ];
    let report = run_check(&catalog, &files);
    assert_eq!(report.findings.len(), 0);
}

#[test]
fn check_warns_and_continues_past_bad_packages() {
    let catalog = vec!["lodash".to_string()];
    let files = vec![
        unreadable("packages/broken/package.json", "permission denied"),
        input("packages/bad/package.json", "not json at all"),
        input("packages/a/package.json", "{\"dependencies\": {\"lodash\": \"1.0.0\"}}"),
    ];
    let report = run_check(&catalog, &files);
    assert_eq!(report.findings.len(), 1);
    assert_eq!(report.findings[0].package_path, "packages/a/package.json");
    assert_eq!(report.warnings.len(), 2);
    assert_eq!(report.warnings[0].path, "packages/broken/package.json");
    assert_eq!(report.warnings[1].path, "packages/bad/package.json");
}

#[test]
fn check_total_is_independent_of_visit_order() {
    let catalog = vec!["lodash".to_string(), "react".to_string()];
    let a = input("a", "{\"dependencies\": {\"lodash\": \"1.0.0\", \"react\": \"2.0.0\"}}");
    let b = input("b", "{\"dependencies\": {\"react\": \"workspace:*\"}}");
    let c = input("c", "{\"dependencies\": {\"lodash\": \"3.0.0\"}}");
    let forward = run_check(&catalog, &vec![a, b, c]);
    let a = input("a", "{\"dependencies\": {\"lodash\": \"1.0.0\", \"react\": \"2.0.0\"}}");
    let b = input("b", "{\"dependencies\": {\"react\": \"workspace:*\"}}");
    let c = input("c", "{\"dependencies\": {\"lodash\": \"3.0.0\"}}");
    let backward = run_check(&catalog, &vec![c, b, a]);
    assert_eq!(forward.findings.len(), 3);
    assert_eq!(forward.findings.len(), backward.findings.len());
}

#[test]
fn fix_pass_rewrites_and_reports_modified_packages() {
    let catalog = vec!["lodash".to_string()];
    let files = vec![
        input("packages/a/package.json", "{\"dependencies\": {\"lodash\": \"4.17.21\"}}"),
        input("packages/b/package.json", "{\"dependencies\": {\"lodash\": \"workspace:*\"}}"),
        unreadable("packages/broken/package.json", "permission denied"),
    ];
    let report = run_fix(&catalog, &files);
    assert_eq!(report.packages.len(), 2);
    assert_eq!(report.packages[0].path, "packages/a/package.json");
    assert!(report.packages[0].modified);
    assert_eq!(
        report.packages[0].deps.lookup(&"lodash".to_string()),
        Some(&"workspace:*".to_string())
    );
    assert_eq!(report.packages[1].path, "packages/b/package.json");
    assert!(!report.packages[1].modified);
    assert_eq!(report.warnings.len(), 1);
}

#[test]
fn fix_then_check_round_trip_is_clean() {
    let catalog = vec!["lodash".to_string(), "react".to_string()];
    let files = vec![input(
        "packages/a/package.json",
        "{\"dependencies\": {\"lodash\": \"4.17.21\", \"react\": \"18.0.0\"}}",
    )];
    let fix_report = run_fix(&catalog, &files);
    assert_eq!(fix_report.packages.len(), 1);
    let fixed = &fix_report.packages[0].deps;
    let findings = catalog_audit::reconcile::reconcile(
        &"packages/a/package.json".to_string(),
        fixed,
        &catalog,
    );
    assert_eq!(findings.len(), 0);
}

#[test]
fn failed_descriptor_read_is_not_found() {
    let read: Result<String, String> = Err("no such file".to_string());
    match load_workspace_manifest(&read) {
        Err(ScanError::NotFound { .. }) => (),
        _ => panic!("expected a not-found error"),
    }
}

#[test]
fn successful_descriptor_read_is_parsed() {
    let read: Result<String, String> =
        Ok("packages:\n  - packages/*\ncatalog:\n  - lodash\n".to_string());
    let manifest = load_workspace_manifest(&read).map_err(|_| ()).unwrap();
    assert_eq!(manifest.packages, vec!["packages/*".to_string()]);
    assert_eq!(manifest.catalog, vec!["lodash".to_string()]);
}
