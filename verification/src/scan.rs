//! The workspace scanner: one linear pass that locates the package
//! manifests named by the workspace glob patterns, inspects each one, and
//! reconciles it against the catalog, aggregating findings and warnings.
//!
//! Reading files is left to the caller: the scanner plans which files to
//! read, and is then handed each file's text (or the read failure).  A
//! per-package read or parse failure becomes a warning and the scan
//! continues; only manifest loading and pattern compilation fail fatally.

use vstd::prelude::*;
use vstd::multiset::Multiset;
use vstd::seq_lib::{commutative_foldl, lemma_fold_left_permutation, lemma_multiset_commutative,
    to_multiset_len};
use vstd::string::StringExecFns;
use crate::deps::DepMap;
use crate::fixer;
use crate::fixer::spec_fix_entries;
use crate::globs;
use crate::globs::glob_pattern_ok;
use crate::json::json_parses;
use crate::manifest::{ScanError, WorkspaceManifest};
use crate::package::{parse_dependencies, spec_deps_of};
use crate::reconcile::{names_model, reconcile, spec_findings, Finding};
use crate::is_catalog_ref;

verus! {

/// A per-package failure that did not abort the scan.
pub struct Warning {
    /// The package path, or pattern, the failure belongs to.
    pub path: String,
    /// What went wrong.
    pub message: String,
}

/// The glob pattern that locates package manifests under one workspace
/// pattern: `<root>/<pattern>/package.json`.
pub open spec fn spec_package_pattern(root: Seq<char>, pattern: Seq<char>) -> Seq<char> {
    root + "/"@ + pattern + "/package.json"@
}

/// Build the package-manifest glob pattern for one workspace pattern.
pub fn package_pattern(root: &str, pattern: &String) -> (r: String)
    ensures
        r@ == spec_package_pattern(root@, pattern@),
{
    let mut out = root.to_owned();
    out.append("/");
    out.append(pattern.as_str());
    out.append("/package.json");
    out
}

/// The paths of the successful entries, in order.
pub open spec fn spec_entry_paths(entries: Seq<Result<String, String>>) -> Seq<Seq<char>>
    decreases entries.len(),
{
    if entries.len() == 0 {
        Seq::empty()
    } else {
        let head = spec_entry_paths(entries.drop_last());
        match entries.last() {
            Ok(path) => head.push(path@),
            Err(_) => head,
        }
    }
}

/// The messages of the failed entries, in order.
pub open spec fn spec_entry_messages(entries: Seq<Result<String, String>>) -> Seq<Seq<char>>
    decreases entries.len(),
{
    if entries.len() == 0 {
        Seq::empty()
    } else {
        let head = spec_entry_messages(entries.drop_last());
        match entries.last() {
            Ok(_) => head,
            Err(message) => head.push(message@),
        }
    }
}

/// Split one pattern's expansion results: successful entries become package
/// paths, in order; failed entries become warnings carrying the pattern and
/// the entry's message, in order.
pub fn split_entries(pattern: &String, entries: &Vec<Result<String, String>>) -> (r: (
    Vec<String>,
    Vec<Warning>,
))
    ensures
        r.0@.map_values(|p: String| p@) =~= spec_entry_paths(entries@),
        r.1@.map_values(|w: Warning| w.message@) =~= spec_entry_messages(entries@),
        forall|t: int| 0 <= t < r.1@.len() ==> (#[trigger] r.1@[t]).path@ == pattern@,
{
    let mut paths: Vec<String> = Vec::new();
    let mut warnings: Vec<Warning> = Vec::new();
    let m = entries.len();
    let mut k: usize = 0;
    while k < m
        invariant
            m == entries@.len(),
            0 <= k <= m,
            paths@.map_values(|p: String| p@) =~= spec_entry_paths(entries@.take(k as int)),
            warnings@.map_values(|w: Warning| w.message@) =~= spec_entry_messages(
                entries@.take(k as int),
            ),
            forall|t: int| 0 <= t < warnings@.len() ==> (#[trigger] warnings@[t]).path@ == pattern@,
        decreases m - k,
    {
        match &entries[k] {
            Ok(path) => paths.push(path.clone()),
            Err(message) => warnings.push(
                Warning { path: pattern.clone(), message: message.clone() },
            ),
        }
        proof {
            assert(entries@.take(k + 1).drop_last() =~= entries@.take(k as int));
            assert(entries@.take(k + 1).last() == entries@[k as int]);
            assert(paths@.map_values(|p: String| p@) =~= spec_entry_paths(entries@.take(k + 1)));
            assert(warnings@.map_values(|w: Warning| w.message@) =~= spec_entry_messages(
                entries@.take(k + 1),
            ));
        }
        k += 1;
    }
    proof {
        assert(entries@.take(m as int) =~= entries@);
    }
    (paths, warnings)
}

/// The package-manifest glob patterns of a workspace's pattern list, in
/// order.
pub open spec fn pattern_paths(root: Seq<char>, packages: Seq<String>) -> Seq<Seq<char>> {
    packages.map_values(|p: String| spec_package_pattern(root, p@))
}

/// What a scan will visit: the catalog, the package manifest paths that the
/// patterns matched, and warnings for entries that could not be listed.
pub struct ScanPlan {
    pub catalog: Vec<String>,
    pub package_paths: Vec<String>,
    pub warnings: Vec<Warning>,
}

/// Expand every package pattern of the manifest against the file system.
/// Fails exactly when some pattern does not compile, naming the first
/// offender; per-entry read failures become warnings, each carrying the
/// pattern it arose under.  What the patterns match depends on what is on
/// disk, so the paths themselves are not pinned; `split_entries` states
/// exactly how each expansion is divided.
pub fn plan_scan(root: &str, manifest: &WorkspaceManifest) -> (r: Result<ScanPlan, ScanError>)
    ensures
        r is Ok <==> (forall|i: int|
            0 <= i < manifest.packages@.len() ==> glob_pattern_ok(
                spec_package_pattern(root@, #[trigger] manifest.packages@[i]@),
            )),
        r matches Err(e) ==> (e matches ScanError::InvalidPattern { pattern, message } ==> exists|
            i: int,
        |
            0 <= i < manifest.packages@.len() && pattern@ == spec_package_pattern(
                root@,
                #[trigger] manifest.packages@[i]@,
            ) && !glob_pattern_ok(pattern@) && (forall|j: int|
                0 <= j < i ==> glob_pattern_ok(
                    spec_package_pattern(root@, #[trigger] manifest.packages@[j]@),
                ))),
        r matches Err(e) ==> (e matches ScanError::InvalidPattern { .. }),
        r matches Ok(plan) ==> plan.catalog@ == manifest.catalog@,
        r matches Ok(plan) ==> (forall|t: int|
            0 <= t < plan.warnings@.len() ==> pattern_paths(root@, manifest.packages@).contains(
                (#[trigger] plan.warnings@[t]).path@,
            )),
{
    let mut package_paths: Vec<String> = Vec::new();
    let mut warnings: Vec<Warning> = Vec::new();
    let n = manifest.packages.len();
    let mut i: usize = 0;
    while i < n
        invariant
            n == manifest.packages@.len(),
            0 <= i <= n,
            forall|j: int|
                0 <= j < i ==> glob_pattern_ok(
                    spec_package_pattern(root@, #[trigger] manifest.packages@[j]@),
                ),
            forall|t: int|
                0 <= t < warnings@.len() ==> pattern_paths(root@, manifest.packages@).contains(
                    (#[trigger] warnings@[t]).path@,
                ),
        decreases n - i,
    {
        let pattern = package_pattern(root, &manifest.packages[i]);
        match globs::expand_glob(pattern.as_str()) {
            Ok(entries) => {
                let (mut paths, mut pattern_warnings) = split_entries(&pattern, &entries);
                let ghost before = warnings@;
                let ghost fresh = pattern_warnings@;
                package_paths.append(&mut paths);
                warnings.append(&mut pattern_warnings);
                proof {
                    assert forall|t: int| 0 <= t < warnings@.len() implies pattern_paths(
                        root@,
                        manifest.packages@,
                    ).contains((#[trigger] warnings@[t]).path@) by {
                        if t < before.len() {
                            assert(warnings@[t] == before[t]);
                        } else {
                            assert(warnings@[t] == fresh[t - before.len()]);
                            assert(warnings@[t].path@ == pattern_paths(
                                root@,
                                manifest.packages@,
                            )[i as int]);
                        }
                    }
                }
            },
            Err(e) => {
                let mut message = "Invalid glob pattern ".to_owned();
                message.append(pattern.as_str());
                message.append(": ");
                message.append(e.as_str());
                return Err(ScanError::InvalidPattern { pattern, message });
            },
        }
        i += 1;
    }
    Ok(ScanPlan { catalog: manifest.catalog.clone(), package_paths, warnings })
}

/// One package manifest as read from disk: its path, and its text or the
/// message of the failed read.
pub struct PackageInput {
    pub path: String,
    pub read: Result<String, String>,
}

/// The paths of the package inputs, in order.
pub open spec fn input_paths(files: Seq<PackageInput>) -> Seq<Seq<char>> {
    files.map_values(|f: PackageInput| f.path@)
}

/// The file was read and its text is valid JSON: the scan can inspect it.
pub open spec fn spec_file_parses(file: PackageInput) -> bool {
    match file.read {
        Ok(text) => json_parses(text@),
        Err(_) => false,
    }
}

/// The findings one package input contributes, as (name, version) pairs: the
/// reconciliation of its declared dependencies where it can be inspected,
/// nothing where it cannot.
pub open spec fn spec_file_findings(catalog: Seq<Seq<char>>, file: PackageInput) -> Seq<
    (Seq<char>, Seq<char>),
>
{
    match file.read {
        Ok(text) => if json_parses(text@) {
            spec_findings(catalog, spec_deps_of(text@))
        } else {
            Seq::empty()
        },
        Err(_) => Seq::empty(),
    }
}

/// The findings of a whole check pass, as (path, name, version) triples: the
/// concatenation, in input order, of each package's findings under its path.
pub open spec fn spec_check_findings(catalog: Seq<Seq<char>>, files: Seq<PackageInput>) -> Seq<
    (Seq<char>, Seq<char>, Seq<char>),
>
    decreases files.len(),
{
    if files.len() == 0 {
        Seq::empty()
    } else {
        spec_check_findings(catalog, files.drop_last()) + spec_file_findings(
            catalog,
            files.last(),
        ).map_values(
            |p: (Seq<char>, Seq<char>)| (files.last().path@, p.0, p.1),
        )
    }
}

/// The paths of the package inputs that cannot be inspected (failed read or
/// invalid JSON), in order: each yields exactly one warning.
pub open spec fn spec_warning_paths(files: Seq<PackageInput>) -> Seq<Seq<char>>
    decreases files.len(),
{
    if files.len() == 0 {
        Seq::empty()
    } else {
        let head = spec_warning_paths(files.drop_last());
        if spec_file_parses(files.last()) {
            head
        } else {
            head.push(files.last().path@)
        }
    }
}

/// What a check-mode scan reports.
pub struct ScanReport {
    pub findings: Vec<Finding>,
    pub warnings: Vec<Warning>,
}

/// The view of a finding as a (path, name, version) triple.
pub open spec fn finding_triple(f: Finding) -> (Seq<char>, Seq<char>, Seq<char>) {
    (f.package_path@, f.dependency@, f.version@)
}

/// Check every package: parse each manifest that could be read and
/// reconcile it against the catalog.  The findings are exactly the
/// concatenation, in input order, of each inspectable package's
/// reconciliation under its path; each uninspectable package yields exactly
/// one warning carrying its path; with an empty catalog there are no
/// findings at all.
pub fn run_check(catalog: &Vec<String>, files: &Vec<PackageInput>) -> (report: ScanReport)
    ensures
        report.findings@.map_values(|f: Finding| finding_triple(f)) =~= spec_check_findings(
            names_model(catalog@),
            files@,
        ),
        report.warnings@.map_values(|w: Warning| w.path@) =~= spec_warning_paths(files@),
        catalog@.len() == 0 ==> report.findings@.len() == 0,
        forall|i: int|
            0 <= i < report.findings@.len() ==> {
                let f = #[trigger] report.findings@[i];
                &&& names_model(catalog@).contains(f.dependency@)
                &&& !is_catalog_ref(f.version@)
                &&& exists|j: int| 0 <= j < files@.len() && f.package_path@ == #[trigger] files@[j].path@
            },
{
    let mut findings: Vec<Finding> = Vec::new();
    let mut warnings: Vec<Warning> = Vec::new();
    let ghost cat = names_model(catalog@);
    let n = files.len();
    let mut i: usize = 0;
    while i < n
        invariant
            cat == names_model(catalog@),
            n == files@.len(),
            0 <= i <= n,
            findings@.map_values(|f: Finding| finding_triple(f)) =~= spec_check_findings(
                cat,
                files@.take(i as int),
            ),
            warnings@.map_values(|w: Warning| w.path@) =~= spec_warning_paths(
                files@.take(i as int),
            ),
            catalog@.len() == 0 ==> findings@.len() == 0,
            forall|t: int|
                0 <= t < findings@.len() ==> names_model(catalog@).contains(
                    (#[trigger] findings@[t]).dependency@,
                ),
            forall|t: int|
                0 <= t < findings@.len() ==> !is_catalog_ref((#[trigger] findings@[t]).version@),
            forall|t: int|
                0 <= t < findings@.len() ==> exists|j: int|
                    0 <= j < files@.len() && (#[trigger] findings@[t]).package_path@ == (
                    #[trigger] files@[j]).path@,
        decreases n - i,
    {
        let ghost t1 = files@.take(i + 1);
        proof {
            assert(t1.drop_last() =~= files@.take(i as int));
            assert(t1.last() == files@[i as int]);
        }
        let file = &files[i];
        match &file.read {
            Ok(text) => match parse_dependencies(text.as_str()) {
                Ok(deps) => {
                    let ghost before = findings@;
                    let mut package_findings = reconcile(&file.path, &deps, catalog);
                    let ghost fresh = package_findings@;
                    findings.append(&mut package_findings);
                    proof {
                        let sf = spec_file_findings(cat, files@[i as int]);
                        assert(sf == spec_findings(cat, spec_deps_of(text@)));
                        assert(fresh.map_values(|f: Finding| f.pair()) =~= sf);
                        assert(fresh.map_values(|f: Finding| finding_triple(f)) =~= sf.map_values(
                            |p: (Seq<char>, Seq<char>)| (files@[i as int].path@, p.0, p.1),
                        )) by {
                            assert forall|u: int|
                                0 <= u < fresh.len() implies finding_triple(fresh[u]) == (
                                files@[i as int].path@,
                                sf[u].0,
                                sf[u].1,
                            ) by {
                                assert(fresh.map_values(|f: Finding| f.pair())[u] == sf[u]);
                                assert(fresh[u].package_path@ == files@[i as int].path@);
                            }
                        }
                        assert(findings@.map_values(|f: Finding| finding_triple(f))
                            =~= before.map_values(|f: Finding| finding_triple(f))
                            + fresh.map_values(|f: Finding| finding_triple(f)));
                        assert(findings@.map_values(|f: Finding| finding_triple(f))
                            =~= spec_check_findings(cat, t1));
                        assert(spec_file_parses(files@[i as int]));
                        assert(warnings@.map_values(|w: Warning| w.path@) =~= spec_warning_paths(
                            t1,
                        ));
                        crate::reconcile::lemma_findings_sound(cat, deps@);
                        assert forall|t: int| 0 <= t < findings@.len() implies {
                            let f = #[trigger] findings@[t];
                            &&& names_model(catalog@).contains(f.dependency@)
                            &&& !is_catalog_ref(f.version@)
                            &&& exists|j: int|
                                0 <= j < files@.len() && f.package_path@ == #[trigger] files@[j].path@
                        } by {
                            if t < before.len() {
                                assert(findings@[t] == before[t]);
                            } else {
                                let u = t - before.len();
                                assert(findings@[t] == fresh[u]);
                                assert(fresh.map_values(|f: Finding| f.pair())[u] == spec_findings(
                                    cat,
                                    deps@,
                                )[u]);
                                assert(fresh[u].package_path@ == files@[i as int].path@);
                            }
                        }
                        if catalog@.len() == 0 {
                            assert(names_model(catalog@).len() == 0);
                            assert(fresh.map_values(|f: Finding| f.pair()).len() == 0);
                        }
                    }
                },
                Err(e) => {
                    warnings.push(
                        Warning { path: file.path.clone(), message: e.message().clone() },
                    );
                    proof {
                        assert(!spec_file_parses(files@[i as int]));
                        assert(warnings@.map_values(|w: Warning| w.path@) =~= spec_warning_paths(
                            t1,
                        ));
                        assert(spec_file_findings(cat, files@[i as int]) =~= Seq::<(
                            Seq<char>,
                            Seq<char>,
                        )>::empty());
                        assert(findings@.map_values(|f: Finding| finding_triple(f))
                            =~= spec_check_findings(cat, t1));
                    }
                },
            },
            Err(message) => {
                let mut full = "Failed to read ".to_owned();
                full.append(file.path.as_str());
                full.append(": ");
                full.append(message.as_str());
                warnings.push(Warning { path: file.path.clone(), message: full });
                proof {
                    assert(!spec_file_parses(files@[i as int]));
                    assert(warnings@.map_values(|w: Warning| w.path@) =~= spec_warning_paths(t1));
                    assert(spec_file_findings(cat, files@[i as int]) =~= Seq::<(
                        Seq<char>,
                        Seq<char>,
                    )>::empty());
                    assert(findings@.map_values(|f: Finding| finding_triple(f))
                        =~= spec_check_findings(cat, t1));
                }
            },
        }
        i += 1;
    }
    proof {
        assert(files@.take(n as int) =~= files@);
    }
    ScanReport { findings, warnings }
}

/// One package as fix mode leaves it: its path, the rewritten dependency
/// map, and whether the rewrite changed anything.
pub struct FixedPackage {
    pub path: String,
    pub deps: DepMap,
    pub modified: bool,
}

/// The view of a fixed package: its path, the model of its rewritten map,
/// and its modified flag.
pub open spec fn fixed_triple(p: FixedPackage) -> (Seq<char>, Seq<(Seq<char>, Seq<char>)>, bool) {
    (p.path@, p.deps@, p.modified)
}

/// What a fix pass makes of the package inputs, in input order: for each
/// inspectable package, its path, its dependency map rewritten to the
/// catalog reference form, and whether the original map had a finding;
/// uninspectable packages are left out (they warn instead).
pub open spec fn spec_fix_outcome(catalog: Seq<Seq<char>>, files: Seq<PackageInput>) -> Seq<
    (Seq<char>, Seq<(Seq<char>, Seq<char>)>, bool),
>
    decreases files.len(),
{
    if files.len() == 0 {
        Seq::empty()
    } else {
        let head = spec_fix_outcome(catalog, files.drop_last());
        match files.last().read {
            Ok(text) => if json_parses(text@) {
                head.push(
                    (
                        files.last().path@,
                        spec_fix_entries(catalog, spec_deps_of(text@)),
                        spec_findings(catalog, spec_deps_of(text@)).len() != 0,
                    ),
                )
            } else {
                head
            },
            Err(_) => head,
        }
    }
}

/// What a fix-mode pass reports.
pub struct FixReport {
    pub packages: Vec<FixedPackage>,
    pub warnings: Vec<Warning>,
}

/// Fix every package that could be read and parsed: rewrite non-compliant
/// declarations to the catalog reference form.  The reported packages are
/// exactly the inspectable inputs, in order, each with its rewritten map
/// and a modified flag that holds exactly when the original map had a
/// finding; each uninspectable input yields exactly one warning carrying
/// its path.  Checking any rewritten map yields no finding.
pub fn run_fix(catalog: &Vec<String>, files: &Vec<PackageInput>) -> (report: FixReport)
    ensures
        report.packages@.map_values(|p: FixedPackage| fixed_triple(p)) =~= spec_fix_outcome(
            names_model(catalog@),
            files@,
        ),
        report.warnings@.map_values(|w: Warning| w.path@) =~= spec_warning_paths(files@),
        forall|i: int|
            0 <= i < report.packages@.len() ==> (#[trigger] report.packages@[i]).deps.wf(),
        forall|i: int|
            0 <= i < report.packages@.len() ==> spec_findings(
                names_model(catalog@),
                (#[trigger] report.packages@[i]).deps@,
            ) =~= Seq::<(Seq<char>, Seq<char>)>::empty(),
        forall|i: int|
            0 <= i < report.packages@.len() ==> input_paths(files@).contains(
                (#[trigger] report.packages@[i]).path@,
            ),
{
    let mut packages: Vec<FixedPackage> = Vec::new();
    let mut warnings: Vec<Warning> = Vec::new();
    let ghost cat = names_model(catalog@);
    let n = files.len();
    let mut i: usize = 0;
    while i < n
        invariant
            cat == names_model(catalog@),
            n == files@.len(),
            0 <= i <= n,
            packages@.map_values(|p: FixedPackage| fixed_triple(p)) =~= spec_fix_outcome(
                cat,
                files@.take(i as int),
            ),
            warnings@.map_values(|w: Warning| w.path@) =~= spec_warning_paths(
                files@.take(i as int),
            ),
            forall|t: int|
                0 <= t < packages@.len() ==> (#[trigger] packages@[t]).deps.wf(),
            forall|t: int|
                0 <= t < packages@.len() ==> spec_findings(
                    names_model(catalog@),
                    (#[trigger] packages@[t]).deps@,
                ) =~= Seq::<(Seq<char>, Seq<char>)>::empty(),
            forall|t: int|
                0 <= t < packages@.len() ==> input_paths(files@).contains(
                    (#[trigger] packages@[t]).path@,
                ),
        decreases n - i,
    {
        let ghost t1 = files@.take(i + 1);
        proof {
            assert(t1.drop_last() =~= files@.take(i as int));
            assert(t1.last() == files@[i as int]);
        }
        let file = &files[i];
        match &file.read {
            Ok(text) => match parse_dependencies(text.as_str()) {
                Ok(deps) => {
                    let (fixed, modified) = fixer::apply_fix(&deps, catalog);
                    proof {
                        fixer::lemma_fix_then_check_clean(cat, deps@);
                    }
                    let ghost before = packages@;
                    packages.push(FixedPackage { path: file.path.clone(), deps: fixed, modified });
                    proof {
                        assert(spec_file_parses(files@[i as int]));
                        assert(fixed_triple(packages@.last()) == (
                            files@[i as int].path@,
                            spec_fix_entries(cat, spec_deps_of(text@)),
                            spec_findings(cat, spec_deps_of(text@)).len() != 0,
                        ));
                        assert(packages@.map_values(|p: FixedPackage| fixed_triple(p))
                            =~= spec_fix_outcome(cat, t1));
                        assert(warnings@.map_values(|w: Warning| w.path@) =~= spec_warning_paths(
                            t1,
                        ));
                        assert forall|t: int| 0 <= t < packages@.len() implies input_paths(
                            files@,
                        ).contains((#[trigger] packages@[t]).path@) by {
                            if t < before.len() {
                                assert(packages@[t] == before[t]);
                            } else {
                                assert(packages@[t].path@ == input_paths(files@)[i as int]);
                            }
                        }
                        assert forall|t: int| 0 <= t < packages@.len() implies (
                        #[trigger] packages@[t]).deps.wf() && spec_findings(
                            names_model(catalog@),
                            packages@[t].deps@,
                        ) =~= Seq::<(Seq<char>, Seq<char>)>::empty() by {
                            if t < before.len() {
                                assert(packages@[t] == before[t]);
                            } else {
                                assert(packages@[t].deps@ == fixed@);
                            }
                        }
                    }
                },
                Err(e) => {
                    warnings.push(
                        Warning { path: file.path.clone(), message: e.message().clone() },
                    );
                    proof {
                        assert(!spec_file_parses(files@[i as int]));
                        assert(warnings@.map_values(|w: Warning| w.path@) =~= spec_warning_paths(
                            t1,
                        ));
                        assert(packages@.map_values(|p: FixedPackage| fixed_triple(p))
                            =~= spec_fix_outcome(cat, t1));
                    }
                },
            },
            Err(message) => {
                let mut full = "Failed to read ".to_owned();
                full.append(file.path.as_str());
                full.append(": ");
                full.append(message.as_str());
                warnings.push(Warning { path: file.path.clone(), message: full });
                proof {
                    assert(!spec_file_parses(files@[i as int]));
                    assert(warnings@.map_values(|w: Warning| w.path@) =~= spec_warning_paths(t1));
                    assert(packages@.map_values(|p: FixedPackage| fixed_triple(p))
                        =~= spec_fix_outcome(cat, t1));
                }
            },
        }
        i += 1;
    }
    proof {
        assert(files@.take(n as int) =~= files@);
    }
    FixReport { packages, warnings }
}

/// The findings one package input contributes, as (path, name, version)
/// triples.
pub open spec fn spec_file_triples(catalog: Seq<Seq<char>>, file: PackageInput) -> Seq<
    (Seq<char>, Seq<char>, Seq<char>),
> {
    spec_file_findings(catalog, file).map_values(|p: (Seq<char>, Seq<char>)| (file.path@, p.0, p.1))
}

/// The findings of a check pass as a multiset: the per-package
/// contributions collected without regard to order.
pub open spec fn spec_check_multiset(catalog: Seq<Seq<char>>, files: Seq<PackageInput>) -> Multiset<
    (Seq<char>, Seq<char>, Seq<char>),
> {
    files.fold_left(
        Multiset::empty(),
        |acc: Multiset<(Seq<char>, Seq<char>, Seq<char>)>, file: PackageInput|
            acc.add(spec_file_triples(catalog, file).to_multiset()),
    )
}

/// A check pass yields, as a multiset, exactly the per-package
/// contributions.
pub proof fn lemma_check_findings_multiset(catalog: Seq<Seq<char>>, files: Seq<PackageInput>)
    ensures
        spec_check_findings(catalog, files).to_multiset() == spec_check_multiset(catalog, files),
    decreases files.len(),
{
    if files.len() == 0 {
        let found = spec_check_findings(catalog, files);
        found.to_multiset_ensures();
        vstd::multiset::lemma_multiset_empty_len(found.to_multiset());
    } else {
        lemma_check_findings_multiset(catalog, files.drop_last());
        lemma_multiset_commutative(
            spec_check_findings(catalog, files.drop_last()),
            spec_file_triples(catalog, files.last()),
        );
    }
}

/// The findings of a check pass do not depend on the order in which the
/// file system yields the matched package files: two passes over the same
/// package inputs in different orders report the same multiset of findings,
/// and so the same total count; only the report order may vary.
pub proof fn lemma_check_order_independent(
    catalog: Seq<Seq<char>>,
    visit_a: Seq<PackageInput>,
    visit_b: Seq<PackageInput>,
)
    requires
        visit_a.to_multiset() == visit_b.to_multiset(),
    ensures
        spec_check_findings(catalog, visit_a).to_multiset() == spec_check_findings(
            catalog,
            visit_b,
        ).to_multiset(),
        spec_check_findings(catalog, visit_a).len() == spec_check_findings(catalog, visit_b).len(),
{
    let f = |acc: Multiset<(Seq<char>, Seq<char>, Seq<char>)>, file: PackageInput|
        acc.add(spec_file_triples(catalog, file).to_multiset());
    assert(commutative_foldl(f)) by {
        assert forall|x: PackageInput, y: PackageInput, v: Multiset<
            (Seq<char>, Seq<char>, Seq<char>),
        >| #[trigger] f(f(v, x), y) == f(f(v, y), x) by {
            assert(f(f(v, x), y) =~= f(f(v, y), x));
        }
    }
    lemma_fold_left_permutation(visit_a, visit_b, f, Multiset::empty());
    lemma_check_findings_multiset(catalog, visit_a);
    lemma_check_findings_multiset(catalog, visit_b);
    to_multiset_len(spec_check_findings(catalog, visit_a));
    to_multiset_len(spec_check_findings(catalog, visit_b));
}

} // verus!
