//! The declared-dependency map of one package: dependency names mapped to
//! version specifiers, with unique names.

use vstd::prelude::*;
use crate::strutil;

verus! {

/// The character-level view of a list of named entries.
pub open spec fn entries_model(entries: Seq<(String, String)>) -> Seq<(Seq<char>, Seq<char>)> {
    entries.map_values(|p: (String, String)| (p.0@, p.1@))
}

/// First-match lookup of `name` in an entry list.
pub open spec fn spec_lookup(entries: Seq<(Seq<char>, Seq<char>)>, name: Seq<char>) -> Option<
    Seq<char>,
>
    decreases entries.len(),
{
    if entries.len() == 0 {
        None
    } else if entries[0].0 == name {
        Some(entries[0].1)
    } else {
        spec_lookup(entries.drop_first(), name)
    }
}

/// Entry names are pairwise distinct.
pub open spec fn unique_names(entries: Seq<(Seq<char>, Seq<char>)>) -> bool {
    forall|i: int, j: int|
        0 <= i < j < entries.len() ==> entries[i].0 != entries[j].0
}

/// A package's declared dependencies: a mapping from dependency name to
/// version specifier.  Names are unique; versions are arbitrary text.
pub struct DepMap {
    entries: Vec<(String, String)>,
}

impl View for DepMap {
    type V = Seq<(Seq<char>, Seq<char>)>;

    closed spec fn view(&self) -> Seq<(Seq<char>, Seq<char>)> {
        entries_model(self.entries@)
    }
}

impl DepMap {
    /// The map is well formed: no dependency name occurs twice.
    pub open spec fn wf(&self) -> bool {
        unique_names(self@)
    }

    /// An empty dependency map.
    pub fn new() -> (r: DepMap)
        ensures
            r@ =~= Seq::<(Seq<char>, Seq<char>)>::empty(),
            r.wf(),
    {
        DepMap { entries: Vec::new() }
    }

    pub fn len(&self) -> (r: usize)
        ensures
            r == self@.len(),
    {
        self.entries.len()
    }

    pub fn name_at(&self, i: usize) -> (r: &String)
        requires
            i < self@.len(),
        ensures
            r@ == self@[i as int].0,
    {
        &self.entries[i].0
    }

    pub fn version_at(&self, i: usize) -> (r: &String)
        requires
            i < self@.len(),
        ensures
            r@ == self@[i as int].1,
    {
        &self.entries[i].1
    }

    /// Whether `name` is declared.
    pub fn contains_name(&self, name: &String) -> (r: bool)
        ensures
            r == (spec_lookup(self@, name@) is Some),
    {
        let n = self.entries.len();
        let mut i: usize = 0;
        while i < n
            invariant
                n == self@.len(),
                0 <= i <= n,
                forall|j: int| 0 <= j < i ==> self@[j].0 != name@,
            decreases n - i,
        {
            if strutil::str_eq(&self.entries[i].0, name) {
                proof {
                    lemma_lookup_found(self@, name@, i as int);
                }
                return true;
            }
            i += 1;
        }
        proof {
            lemma_lookup_missing(self@, name@);
        }
        false
    }

    /// Look `name` up, returning its version specifier if declared.
    pub fn lookup(&self, name: &String) -> (r: Option<&String>)
        requires
            self.wf(),
        ensures
            match r {
                Some(v) => spec_lookup(self@, name@) == Some(v@),
                None => spec_lookup(self@, name@) is None,
            },
    {
        let n = self.entries.len();
        let mut i: usize = 0;
        while i < n
            invariant
                n == self@.len(),
                0 <= i <= n,
                forall|j: int| 0 <= j < i ==> self@[j].0 != name@,
            decreases n - i,
        {
            if strutil::str_eq(&self.entries[i].0, name) {
                proof {
                    lemma_lookup_found(self@, name@, i as int);
                }
                return Some(&self.entries[i].1);
            }
            i += 1;
        }
        proof {
            lemma_lookup_missing(self@, name@);
        }
        None
    }

    /// Add an entry whose name is not yet declared.
    pub fn insert(&mut self, name: String, version: String)
        requires
            old(self).wf(),
            spec_lookup(old(self)@, name@) is None,
        ensures
            final(self)@ =~= old(self)@.push((name@, version@)),
            final(self).wf(),
    {
        proof {
            lemma_missing_no_index(old(self)@, name@);
        }
        let ghost n = name@;
        self.entries.push((name, version));
        proof {
            let s0 = old(self)@;
            let s1 = self@;
            assert(s1 =~= s0.push((n, version@)));
            assert forall|i: int, j: int| 0 <= i < j < s1.len() implies s1[i].0 != s1[j].0 by {
                if j == s1.len() - 1 {
                    assert(s1[i] == s0[i]);
                } else {
                    assert(s1[i] == s0[i] && s1[j] == s0[j]);
                }
            }
        }
    }
}

/// A name that matches at index `i`, with no earlier match, is what lookup finds.
proof fn lemma_lookup_found(entries: Seq<(Seq<char>, Seq<char>)>, name: Seq<char>, i: int)
    requires
        0 <= i < entries.len(),
        entries[i].0 == name,
        forall|j: int| 0 <= j < i ==> entries[j].0 != name,
    ensures
        spec_lookup(entries, name) == Some(entries[i].1),
    decreases i,
{
    if i > 0 {
        lemma_lookup_found(entries.drop_first(), name, i - 1);
    }
}

/// A name that matches at no index is not found.
pub proof fn lemma_lookup_missing(entries: Seq<(Seq<char>, Seq<char>)>, name: Seq<char>)
    requires
        forall|j: int| 0 <= j < entries.len() ==> entries[j].0 != name,
    ensures
        spec_lookup(entries, name) is None,
    decreases entries.len(),
{
    if entries.len() > 0 {
        lemma_lookup_missing(entries.drop_first(), name);
    }
}

/// A name that is not found matches at no index.
pub proof fn lemma_missing_no_index(entries: Seq<(Seq<char>, Seq<char>)>, name: Seq<char>)
    requires
        spec_lookup(entries, name) is None,
    ensures
        forall|j: int| 0 <= j < entries.len() ==> entries[j].0 != name,
    decreases entries.len(),
{
    if entries.len() > 0 {
        lemma_missing_no_index(entries.drop_first(), name);
        assert forall|j: int| 0 <= j < entries.len() implies entries[j].0 != name by {
            if j > 0 {
                assert(entries.drop_first()[j - 1] == entries[j]);
            }
        }
    }
}

} // verus!
