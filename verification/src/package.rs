//! The package inspector: extracts the declared dependency map from one
//! package manifest document.

use vstd::prelude::*;
use vstd::string::StringExecFns;
use crate::deps::{lemma_lookup_missing, DepMap};
use crate::json::{
    json_dependencies_object, json_deps_entries_of, json_map_entries, json_map_get_str,
    json_map_keys, json_parses, spec_entries_lookup,
};
use crate::manifest::ScanError;

verus! {

/// The string-valued dependencies among the entries, in order: entries whose
/// value is not a JSON string count as undeclared and are left out.
pub open spec fn spec_string_entries(entries: Seq<(Seq<char>, Option<Seq<char>>)>) -> Seq<
    (Seq<char>, Seq<char>),
>
    decreases entries.len(),
{
    if entries.len() == 0 {
        Seq::empty()
    } else {
        let head = spec_string_entries(entries.drop_last());
        match entries.last().1 {
            Some(v) => head.push((entries.last().0, v)),
            None => head,
        }
    }
}

/// The dependency map a package manifest text declares: the string-valued
/// entries of its `dependencies` object.
pub open spec fn spec_deps_of(text: Seq<char>) -> Seq<(Seq<char>, Seq<char>)> {
    spec_string_entries(json_deps_entries_of(text))
}

/// Parse one package manifest and extract its `dependencies` object as a
/// dependency map.  Succeeds exactly on valid JSON, and the result is
/// exactly the string-valued dependency entries of the text: an absent
/// `dependencies` field, one that is not an object, and any entry whose
/// value is not a string count as undeclared.
pub fn parse_dependencies(text: &str) -> (r: Result<DepMap, ScanError>)
    ensures
        r is Ok <==> json_parses(text@),
        !json_parses(text@) ==> (r matches Err(ScanError::ParseError { .. })),
        r matches Ok(dm) ==> dm@ =~= spec_deps_of(text@) && dm.wf(),
{
    let object = match json_dependencies_object(text) {
        Ok(Some(m)) => m,
        Ok(None) => {
            let deps = DepMap::new();
            return Ok(deps);
        },
        Err(e) => {
            return Err(
                ScanError::ParseError {
                    message: "Failed to parse package manifest: ".to_owned().concat(e.as_str()),
                },
            );
        },
    };
    let ghost entries = json_map_entries(object);
    let keys = json_map_keys(&object);
    let mut deps = DepMap::new();
    let n = keys.len();
    let mut i: usize = 0;
    while i < n
        invariant
            entries == json_map_entries(object),
            n == keys@.len(),
            0 <= i <= n,
            keys@.map_values(|k: String| k@) =~= entries.map_values(
                |p: (Seq<char>, Option<Seq<char>>)| p.0,
            ),
            forall|i2: int, j2: int| 0 <= i2 < j2 < keys@.len() ==> keys@[i2]@ != keys@[j2]@,
            deps.wf(),
            deps@ =~= spec_string_entries(entries.take(i as int)),
        decreases n - i,
    {
        let key = &keys[i];
        proof {
            assert(keys@.map_values(|k: String| k@).len() == n);
            assert(entries.map_values(|p: (Seq<char>, Option<Seq<char>>)| p.0).len()
                == entries.len());
            assert(entries.len() == n);
            assert(key@ == entries[i as int].0) by {
                assert(keys@.map_values(|k: String| k@)[i as int] == keys@[i as int]@);
                assert(entries.map_values(|p: (Seq<char>, Option<Seq<char>>)| p.0)[i as int]
                    == entries[i as int].0);
                assert(keys@.map_values(|k: String| k@)[i as int] == entries.map_values(
                    |p: (Seq<char>, Option<Seq<char>>)| p.0,
                )[i as int]);
            }
            assert forall|i2: int, j2: int|
                0 <= i2 < j2 < entries.len() implies entries[i2].0 != entries[j2].0 by {
                assert(keys@[i2]@ == entries[i2].0 && keys@[j2]@ == entries[j2].0) by {
                    assert(keys@.map_values(|k: String| k@)[i2] == entries.map_values(
                        |p: (Seq<char>, Option<Seq<char>>)| p.0,
                    )[i2]);
                    assert(keys@.map_values(|k: String| k@)[j2] == entries.map_values(
                        |p: (Seq<char>, Option<Seq<char>>)| p.0,
                    )[j2]);
                }
            }
            lemma_entries_lookup_at(entries, i as int);
        }
        match json_map_get_str(&object, key) {
            Some(version) => {
                proof {
                    lemma_string_entries_keys(entries.take(i as int));
                    assert forall|t: int| 0 <= t < deps@.len() implies deps@[t].0 != key@ by {
                        let j = choose|j: int|
                            0 <= j < entries.take(i as int).len() && #[trigger] deps@[t].0
                                == entries.take(i as int)[j].0;
                        assert(entries.take(i as int)[j] == entries[j]);
                    }
                    lemma_lookup_missing(deps@, key@);
                }
                deps.insert(key.clone(), version);
            },
            None => (),
        }
        proof {
            assert(entries.take(i + 1).drop_last() =~= entries.take(i as int));
            assert(entries.take(i + 1).last() == entries[i as int]);
            assert(deps@ =~= spec_string_entries(entries.take(i + 1)));
        }
        i += 1;
    }
    proof {
        assert(entries.take(n as int) =~= entries);
    }
    Ok(deps)
}

/// With pairwise-distinct entry keys, looking up the key of entry `i` finds
/// exactly that entry's value.
proof fn lemma_entries_lookup_at(entries: Seq<(Seq<char>, Option<Seq<char>>)>, i: int)
    requires
        0 <= i < entries.len(),
        forall|i2: int, j2: int| 0 <= i2 < j2 < entries.len() ==> entries[i2].0 != entries[j2].0,
    ensures
        spec_entries_lookup(entries, entries[i].0) == entries[i].1,
    decreases i,
{
    if i > 0 {
        let rest = entries.drop_first();
        assert forall|i2: int, j2: int|
            0 <= i2 < j2 < rest.len() implies rest[i2].0 != rest[j2].0 by {
            assert(rest[i2] == entries[i2 + 1] && rest[j2] == entries[j2 + 1]);
        }
        assert(rest[i - 1] == entries[i]);
        lemma_entries_lookup_at(rest, i - 1);
    }
}

/// Every key of the string-valued entries is a key of the full entries.
proof fn lemma_string_entries_keys(entries: Seq<(Seq<char>, Option<Seq<char>>)>)
    ensures
        forall|t: int|
            0 <= t < spec_string_entries(entries).len() ==> exists|j: int|
                0 <= j < entries.len() && #[trigger] spec_string_entries(entries)[t].0
                    == entries[j].0,
    decreases entries.len(),
{
    if entries.len() > 0 {
        lemma_string_entries_keys(entries.drop_last());
        let full = spec_string_entries(entries);
        let head = spec_string_entries(entries.drop_last());
        assert forall|t: int| 0 <= t < full.len() implies exists|j: int|
            0 <= j < entries.len() && #[trigger] full[t].0 == entries[j].0 by {
            if t < head.len() {
                assert(full[t] == head[t]);
                let j = choose|j: int|
                    0 <= j < entries.drop_last().len() && #[trigger] head[t].0
                        == entries.drop_last()[j].0;
                assert(full[t].0 == entries[j].0);
            } else {
                assert(full[t].0 == entries[entries.len() - 1].0);
            }
        }
    }
}

} // verus!
