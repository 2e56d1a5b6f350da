//! The catalog reconciler: cross-references one package's declared
//! dependencies against the workspace catalog and yields findings.

use vstd::prelude::*;
use vstd::seq_lib::group_seq_lib_default;
use crate::deps::{spec_lookup, DepMap};
use crate::is_catalog_ref;

verus! {

/// The character-level view of a list of names.
pub open spec fn names_model(names: Seq<String>) -> Seq<Seq<char>> {
    names.map_values(|s: String| s@)
}

/// One non-compliant dependency declaration: a catalog-listed name that a
/// package declares with a literal (non-catalog-reference) version.
pub struct Finding {
    /// Path of the package manifest that owns the declaration.
    pub package_path: String,
    /// The catalog-listed dependency name.
    pub dependency: String,
    /// The literal version specifier that was declared.
    pub version: String,
}

impl Finding {
    /// The (name, version) pair of the finding.
    pub open spec fn pair(&self) -> (Seq<char>, Seq<char>) {
        (self.dependency@, self.version@)
    }
}

/// The findings that reconciling `deps` against `catalog` yields, in catalog
/// order, as (name, version) pairs: one for each catalog entry that `deps`
/// declares with a version that does not bear the catalog-reference prefix.
pub open spec fn spec_findings(
    catalog: Seq<Seq<char>>,
    deps: Seq<(Seq<char>, Seq<char>)>,
) -> Seq<(Seq<char>, Seq<char>)>
    decreases catalog.len(),
{
    if catalog.len() == 0 {
        Seq::empty()
    } else {
        let head = spec_findings(catalog.drop_last(), deps);
        match spec_lookup(deps, catalog.last()) {
            Some(v) => if !is_catalog_ref(v) {
                head.push((catalog.last(), v))
            } else {
                head
            },
            None => head,
        }
    }
}

/// Reconcile one package's dependency map against the catalog entry list.
/// Findings come in catalog-entry order and all carry `path`.
pub fn reconcile(path: &String, deps: &DepMap, catalog: &Vec<String>) -> (findings: Vec<Finding>)
    requires
        deps.wf(),
    ensures
        findings@.map_values(|f: Finding| f.pair()) =~= spec_findings(names_model(catalog@), deps@),
        forall|i: int|
            0 <= i < findings@.len() ==> #[trigger] findings@[i].package_path@ == path@,
{
    let mut findings: Vec<Finding> = Vec::new();
    let n = catalog.len();
    let mut i: usize = 0;
    while i < n
        invariant
            deps.wf(),
            n == catalog@.len(),
            0 <= i <= n,
            findings@.map_values(|f: Finding| f.pair()) =~= spec_findings(
                names_model(catalog@).take(i as int),
                deps@,
            ),
            forall|k: int|
                0 <= k < findings@.len() ==> #[trigger] findings@[k].package_path@ == path@,
        decreases n - i,
    {
        let ghost cat = names_model(catalog@);
        let ghost before = findings@;
        let entry = &catalog[i];
        match deps.lookup(entry) {
            Some(version) => {
                if !crate::version_is_catalog_ref(version.as_str()) {
                    findings.push(
                        Finding {
                            package_path: path.clone(),
                            dependency: entry.clone(),
                            version: version.clone(),
                        },
                    );
                }
            },
            None => (),
        }
        proof {
            assert(cat.take(i + 1).drop_last() =~= cat.take(i as int));
            assert(cat.take(i + 1).last() == cat[i as int]);
            assert(findings@.map_values(|f: Finding| f.pair()) =~= spec_findings(
                cat.take(i + 1),
                deps@,
            )) by {
                assert(before.map_values(|f: Finding| f.pair()) =~= spec_findings(
                    cat.take(i as int),
                    deps@,
                ));
            }
        }
        i += 1;
    }
    proof {
        assert(names_model(catalog@).take(n as int) =~= names_model(catalog@));
    }
    findings
}

/// With an empty catalog no finding is produced, whatever the package declares.
pub proof fn lemma_empty_catalog_no_findings(deps: Seq<(Seq<char>, Seq<char>)>)
    ensures
        spec_findings(Seq::empty(), deps) =~= Seq::<(Seq<char>, Seq<char>)>::empty(),
{
}

/// A package that declares no dependencies yields no finding.
pub proof fn lemma_empty_deps_no_findings(catalog: Seq<Seq<char>>)
    ensures
        spec_findings(catalog, Seq::empty()) =~= Seq::<(Seq<char>, Seq<char>)>::empty(),
    decreases catalog.len(),
{
    if catalog.len() > 0 {
        lemma_empty_deps_no_findings(catalog.drop_last());
    }
}

/// Every finding names a catalog entry, declared by the package with exactly
/// the version the finding carries, and that version is not a catalog
/// reference.
pub proof fn lemma_findings_sound(catalog: Seq<Seq<char>>, deps: Seq<(Seq<char>, Seq<char>)>)
    ensures
        forall|i: int|
            0 <= i < spec_findings(catalog, deps).len() ==> {
                let f = #[trigger] spec_findings(catalog, deps)[i];
                catalog.contains(f.0) && spec_lookup(deps, f.0) == Some(f.1) && !is_catalog_ref(f.1)
            },
    decreases catalog.len(),
{
    if catalog.len() > 0 {
        lemma_findings_sound(catalog.drop_last(), deps);
        assert(forall|j: int|
            0 <= j < catalog.drop_last().len() ==> catalog.drop_last()[j] == catalog[j]);
    }
}

/// A catalog entry declared with a catalog-reference version (the
/// `workspace:` prefix) produces no finding for that entry.
pub proof fn lemma_compliant_entry_no_finding(
    catalog: Seq<Seq<char>>,
    deps: Seq<(Seq<char>, Seq<char>)>,
    name: Seq<char>,
    version: Seq<char>,
)
    requires
        spec_lookup(deps, name) == Some(version),
        is_catalog_ref(version),
    ensures
        forall|i: int|
            0 <= i < spec_findings(catalog, deps).len() ==> (#[trigger] spec_findings(
                catalog,
                deps,
            )[i]).0 != name,
    decreases catalog.len(),
{
    if catalog.len() > 0 {
        lemma_compliant_entry_no_finding(catalog.drop_last(), deps, name, version);
        let fs = spec_findings(catalog, deps);
        let head = spec_findings(catalog.drop_last(), deps);
        assert forall|i: int| 0 <= i < fs.len() implies (#[trigger] fs[i]).0 != name by {
            if i < head.len() {
                assert(fs[i] == head[i]);
            } else {
                assert(fs[i].0 == catalog.last());
                assert(catalog.last() != name);
            }
        }
    }
}

/// A catalog entry `name`, listed exactly once, that the package declares
/// with a literal version produces exactly one finding: (name, version).
pub proof fn lemma_literal_entry_one_finding(
    catalog: Seq<Seq<char>>,
    deps: Seq<(Seq<char>, Seq<char>)>,
    name: Seq<char>,
    version: Seq<char>,
)
    requires
        catalog.filter(|c: Seq<char>| c == name).len() == 1,
        spec_lookup(deps, name) == Some(version),
        !is_catalog_ref(version),
    ensures
        spec_findings(catalog, deps).filter(|p: (Seq<char>, Seq<char>)| p.0 == name) =~= seq![
            (name, version),
        ],
    decreases catalog.len(),
{
    broadcast use group_seq_lib_default;

    reveal(Seq::filter);
    let fs = spec_findings(catalog, deps);
    let fpred = |p: (Seq<char>, Seq<char>)| p.0 == name;
    if catalog.len() > 0 {
        let rest = catalog.drop_last();
        let head = spec_findings(rest, deps);
        if catalog.last() == name {
            assert(rest.filter(|c: Seq<char>| c == name).len() == 0);
            lemma_no_occurrence_no_finding(rest, deps, name);
            lemma_filter_none(head, name);
            assert(fs == head.push((name, version)));
            assert(fs.drop_last() =~= head);
            assert(fs.filter(fpred) =~= head.filter(fpred).push((name, version)));
        } else {
            assert(rest.filter(|c: Seq<char>| c == name).len() == 1);
            lemma_literal_entry_one_finding(rest, deps, name, version);
            if fs.len() == head.len() + 1 {
                assert(fs == head.push((catalog.last(), spec_lookup(deps, catalog.last())->0)));
                assert(fs.drop_last() =~= head);
                assert(!fpred(fs.last()));
                assert(fs.filter(fpred) =~= head.filter(fpred));
            } else {
                assert(fs == head);
            }
        }
    }
}

/// A name that the catalog does not list produces no finding.
pub proof fn lemma_no_occurrence_no_finding(
    catalog: Seq<Seq<char>>,
    deps: Seq<(Seq<char>, Seq<char>)>,
    name: Seq<char>,
)
    requires
        catalog.filter(|c: Seq<char>| c == name).len() == 0,
    ensures
        forall|i: int|
            0 <= i < spec_findings(catalog, deps).len() ==> (#[trigger] spec_findings(
                catalog,
                deps,
            )[i]).0 != name,
    decreases catalog.len(),
{
    reveal(Seq::filter);
    if catalog.len() > 0 {
        assert(catalog.drop_last().filter(|c: Seq<char>| c == name).len() == 0);
        assert(catalog.last() != name);
        lemma_no_occurrence_no_finding(catalog.drop_last(), deps, name);
        let fs = spec_findings(catalog, deps);
        let head = spec_findings(catalog.drop_last(), deps);
        assert forall|i: int| 0 <= i < fs.len() implies (#[trigger] fs[i]).0 != name by {
            if i < head.len() {
                assert(fs[i] == head[i]);
            } else {
                assert(fs[i].0 == catalog.last());
            }
        }
    }
}

/// Filtering for a name that no pair bears yields the empty sequence.
proof fn lemma_filter_none(pairs: Seq<(Seq<char>, Seq<char>)>, name: Seq<char>)
    requires
        forall|i: int| 0 <= i < pairs.len() ==> (#[trigger] pairs[i]).0 != name,
    ensures
        pairs.filter(|p: (Seq<char>, Seq<char>)| p.0 == name) =~= Seq::<(
            Seq<char>,
            Seq<char>,
        )>::empty(),
    decreases pairs.len(),
{
    reveal(Seq::filter);
    if pairs.len() > 0 {
        lemma_filter_none(pairs.drop_last(), name);
    }
}

} // verus!
