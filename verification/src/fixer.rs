//! Fix mode: rewrite non-compliant dependency declarations to the catalog
//! reference form `workspace:*`.

use vstd::prelude::*;
use crate::deps::{lemma_lookup_missing, spec_lookup, DepMap};
use crate::reconcile::{names_model, reconcile, spec_findings};
use crate::is_catalog_ref;
use crate::strutil;

verus! {

/// The catalog reference token that fix mode writes.
pub open spec fn fix_token() -> Seq<char> {
    "workspace:*"@
}

/// What fix mode makes of one entry list: every catalog-listed name declared
/// with a literal version is rewritten to the `workspace:*` token; every
/// other entry, and the order of all of them, is kept.
pub open spec fn spec_fix_entries(
    catalog: Seq<Seq<char>>,
    deps: Seq<(Seq<char>, Seq<char>)>,
) -> Seq<(Seq<char>, Seq<char>)> {
    deps.map_values(
        |p: (Seq<char>, Seq<char>)|
            if catalog.contains(p.0) && !is_catalog_ref(p.1) {
                (p.0, fix_token())
            } else {
                p
            },
    )
}

/// Whether the catalog lists `name`.
pub fn catalog_contains(catalog: &Vec<String>, name: &String) -> (r: bool)
    ensures
        r == names_model(catalog@).contains(name@),
{
    let n = catalog.len();
    let mut i: usize = 0;
    while i < n
        invariant
            n == catalog@.len(),
            0 <= i <= n,
            forall|j: int| 0 <= j < i ==> names_model(catalog@)[j] != name@,
        decreases n - i,
    {
        if strutil::str_eq(&catalog[i], name) {
            assert(names_model(catalog@)[i as int] == name@);
            return true;
        }
        i += 1;
    }
    assert(forall|j: int| 0 <= j < catalog@.len() ==> names_model(catalog@)[j] != name@);
    false
}

/// Rewrite a package's dependency map per the fix contract.  Returns the
/// rewritten map and whether anything changed, which holds exactly when the
/// check on the original map yields a finding.
pub fn apply_fix(deps: &DepMap, catalog: &Vec<String>) -> (r: (DepMap, bool))
    requires
        deps.wf(),
    ensures
        r.0@ =~= spec_fix_entries(names_model(catalog@), deps@),
        r.0.wf(),
        r.1 == (spec_findings(names_model(catalog@), deps@).len() != 0),
{
    let ghost cat = names_model(catalog@);
    let empty_path = String::new();
    let findings = reconcile(&empty_path, deps, catalog);
    let modified = findings.len() != 0;

    let mut fixed = DepMap::new();
    let n = deps.len();
    let mut i: usize = 0;
    while i < n
        invariant
            deps.wf(),
            cat == names_model(catalog@),
            n == deps@.len(),
            0 <= i <= n,
            fixed@ =~= spec_fix_entries(cat, deps@.take(i as int)),
            fixed.wf(),
        decreases n - i,
    {
        let name = deps.name_at(i).clone();
        let version = deps.version_at(i).clone();
        proof {
            assert(name@ == deps@[i as int].0);
            assert(version@ == deps@[i as int].1);
            assert forall|j: int| 0 <= j < fixed@.len() implies fixed@[j].0 != name@ by {
                assert(fixed@[j].0 == deps@.take(i as int)[j].0);
            }
            lemma_lookup_missing(fixed@, name@);
        }
        if catalog_contains(catalog, &name) && !crate::version_is_catalog_ref(version.as_str()) {
            let token = "workspace:*".to_owned();
            fixed.insert(name, token);
        } else {
            fixed.insert(name, version);
        }
        proof {
            assert(fixed@ =~= spec_fix_entries(cat, deps@.take(i + 1))) by {
                assert(deps@.take(i + 1) =~= deps@.take(i as int).push(deps@[i as int]));
            }
        }
        i += 1;
    }
    proof {
        assert(deps@.take(n as int) =~= deps@);
    }
    (fixed, modified)
}

/// Fixing does not touch names or order: the rewritten map declares exactly
/// the names the original did, in the same places.
pub proof fn lemma_fix_keeps_names(catalog: Seq<Seq<char>>, deps: Seq<(Seq<char>, Seq<char>)>)
    ensures
        spec_fix_entries(catalog, deps).len() == deps.len(),
        forall|i: int|
            0 <= i < deps.len() ==> (#[trigger] spec_fix_entries(catalog, deps)[i]).0 == deps[i].0,
{
}

/// Looking a name up in the rewritten map finds the rewritten form of what
/// the original declared, and nothing where the original declared nothing.
pub proof fn lemma_lookup_fix(
    catalog: Seq<Seq<char>>,
    deps: Seq<(Seq<char>, Seq<char>)>,
    name: Seq<char>,
)
    ensures
        spec_lookup(spec_fix_entries(catalog, deps), name) == match spec_lookup(deps, name) {
            Some(v) => Some(
                if catalog.contains(name) && !is_catalog_ref(v) {
                    fix_token()
                } else {
                    v
                },
            ),
            None => None::<Seq<char>>,
        },
    decreases deps.len(),
{
    if deps.len() > 0 {
        lemma_lookup_fix(catalog, deps.drop_first(), name);
        assert(spec_fix_entries(catalog, deps).drop_first() =~= spec_fix_entries(
            catalog,
            deps.drop_first(),
        ));
    }
}

/// The token fix mode writes is itself a catalog reference.
pub proof fn lemma_fix_token_is_catalog_ref()
    ensures
        is_catalog_ref(fix_token()),
{
    reveal_strlit("workspace:*");
    reveal_strlit("workspace:");
    assert(fix_token().subrange(0, crate::catalog_marker().len() as int) =~= crate::catalog_marker());
}

/// Idempotence of fix: checking a rewritten map yields no finding.
pub proof fn lemma_fix_then_check_clean(catalog: Seq<Seq<char>>, deps: Seq<(Seq<char>, Seq<char>)>)
    ensures
        spec_findings(catalog, spec_fix_entries(catalog, deps)) =~= Seq::<(
            Seq<char>,
            Seq<char>,
        )>::empty(),
{
    lemma_findings_on_refined(catalog, catalog, deps);
}

/// Checking the map rewritten for a larger catalog yields no finding for a
/// smaller catalog either, as long as the larger lists every entry of the
/// smaller: every declared version the smaller catalog inspects is already
/// compliant or was rewritten.
proof fn lemma_findings_on_refined(
    small: Seq<Seq<char>>,
    large: Seq<Seq<char>>,
    deps: Seq<(Seq<char>, Seq<char>)>,
)
    requires
        forall|i: int| 0 <= i < small.len() ==> large.contains(#[trigger] small[i]),
    ensures
        spec_findings(small, spec_fix_entries(large, deps)) =~= Seq::<(
            Seq<char>,
            Seq<char>,
        )>::empty(),
    decreases small.len(),
{
    if small.len() > 0 {
        assert forall|i: int| 0 <= i < small.drop_last().len() implies large.contains(
            #[trigger] small.drop_last()[i],
        ) by {
            assert(small.drop_last()[i] == small[i]);
        }
        lemma_findings_on_refined(small.drop_last(), large, deps);
        let last = small.last();
        assert(large.contains(last));
        lemma_lookup_fix(large, deps, last);
        lemma_fix_token_is_catalog_ref();
    }
}

} // verus!
