//! Manifests: which file of a mirror directory has which digest.
//!
//! A manifest is a list of `(path, digest)` entries in which no path occurs
//! twice, every path stays below the mirror root and every digest has the
//! shape of a digest. What it says is the map from path to digest; the order
//! of the entries only decides in which order files are asked for.

use crate::digest::{is_digest, is_valid_digest};
use crate::path::{is_relative_path, is_valid_path};
use crate::text::same_text;
use vstd::prelude::*;

verus! {

/// Whether some entry of `pairs` has the path `path`.
pub open spec fn has_path(pairs: Seq<(Seq<char>, Seq<char>)>, path: Seq<char>) -> bool {
    exists|i: int| 0 <= i < pairs.len() && (#[trigger] pairs[i]).0 == path
}

/// The place of an entry of `pairs` with the path `path`.
pub open spec fn index_of(pairs: Seq<(Seq<char>, Seq<char>)>, path: Seq<char>) -> int {
    choose|i: int| 0 <= i < pairs.len() && (#[trigger] pairs[i]).0 == path
}

/// The map from path to digest that the entries describe.
pub open spec fn map_of(pairs: Seq<(Seq<char>, Seq<char>)>) -> Map<Seq<char>, Seq<char>> {
    Map::new(|p: Seq<char>| has_path(pairs, p), |p: Seq<char>| pairs[index_of(pairs, p)].1)
}

/// Whether no path occurs in two entries.
pub open spec fn distinct_paths(pairs: Seq<(Seq<char>, Seq<char>)>) -> bool {
    forall|i: int, j: int|
        0 <= i < j < pairs.len() ==> (#[trigger] pairs[i]).0 != (#[trigger] pairs[j]).0
}

/// Whether an entry may stand in a manifest.
pub open spec fn entry_ok(e: (Seq<char>, Seq<char>)) -> bool {
    is_relative_path(e.0) && is_digest(e.1)
}

/// Whether the entries form a manifest.
pub open spec fn pairs_ok(pairs: Seq<(Seq<char>, Seq<char>)>) -> bool {
    &&& distinct_paths(pairs)
    &&& forall|i: int| 0 <= i < pairs.len() ==> entry_ok(#[trigger] pairs[i])
}

/// The entries of a list of strings, as characters.
pub open spec fn pairs_view(list: Seq<(String, String)>) -> Seq<(Seq<char>, Seq<char>)> {
    Seq::new(list.len(), |i: int| (list[i].0@, list[i].1@))
}

/// With distinct paths, the map gives each entry's digest at its path.
pub proof fn lemma_map_of_entry(pairs: Seq<(Seq<char>, Seq<char>)>, i: int)
    requires
        distinct_paths(pairs),
        0 <= i < pairs.len(),
    ensures
        map_of(pairs).contains_key(pairs[i].0),
        map_of(pairs)[pairs[i].0] == pairs[i].1,
{
}

/// Adding an entry with a new path adds that path to the map and changes
/// nothing else.
pub proof fn lemma_map_of_push(pairs: Seq<(Seq<char>, Seq<char>)>, e: (Seq<char>, Seq<char>))
    requires
        distinct_paths(pairs),
        !has_path(pairs, e.0),
    ensures
        distinct_paths(pairs.push(e)),
        map_of(pairs.push(e)) == map_of(pairs).insert(e.0, e.1),
{
    let more = pairs.push(e);
    let a = map_of(more);
    let b = map_of(pairs).insert(e.0, e.1);
    assert forall|p: Seq<char>| a.contains_key(p) == b.contains_key(p) by {
        if has_path(pairs, p) {
            let i = index_of(pairs, p);
            assert(more[i].0 == p);
        }
        if p == e.0 {
            assert(more[pairs.len() as int].0 == p);
        }
    }
    assert forall|p: Seq<char>| a.contains_key(p) implies a[p] == b[p] by {
        let i = index_of(more, p);
        if i < pairs.len() {
        }
    }
}

/// The file list of one mirror directory.
#[derive(Clone, Debug)]
pub struct Manifest {
    entries: Vec<(String, String)>,
}

impl View for Manifest {
    type V = Map<Seq<char>, Seq<char>>;

    /// The map from path to digest.
    open spec fn view(&self) -> Map<Seq<char>, Seq<char>> {
        map_of(self.pairs())
    }
}

impl Manifest {
    /// The entries in the order in which they were added.
    pub closed spec fn pairs(&self) -> Seq<(Seq<char>, Seq<char>)> {
        pairs_view(self.entries@)
    }

    /// The invariant of the type: the entries form a manifest.
    pub open spec fn wf(&self) -> bool {
        pairs_ok(self.pairs())
    }

    /// A manifest without entries.
    pub fn new() -> (m: Manifest)
        ensures
            m.wf(),
            m.pairs() == Seq::<(Seq<char>, Seq<char>)>::empty(),
            m@ == Map::<Seq<char>, Seq<char>>::empty(),
    {
        let m = Manifest { entries: Vec::new() };
        m
    }

    /// The number of entries.
    pub fn len(&self) -> (n: usize)
        ensures
            n == self.pairs().len(),
    {
        self.entries.len()
    }

    /// Whether the manifest has no entry.
    pub fn is_empty(&self) -> (empty: bool)
        ensures
            empty == (self.pairs().len() == 0),
    {
        self.entries.len() == 0
    }

    /// The path of the entry at place `i`.
    pub fn path_at(&self, i: usize) -> (path: &String)
        requires
            i < self.pairs().len(),
        ensures
            path@ == self.pairs()[i as int].0,
    {
        &self.entries[i].0
    }

    /// The digest of the entry at place `i`.
    pub fn digest_at(&self, i: usize) -> (digest: &String)
        requires
            i < self.pairs().len(),
        ensures
            digest@ == self.pairs()[i as int].1,
    {
        &self.entries[i].1
    }

    /// The place of the first entry for `path`, if there is one.
    pub fn position(&self, path: &str) -> (place: Option<usize>)
        ensures
            match place {
                Some(i) => {
                    &&& i < self.pairs().len()
                    &&& self.pairs()[i as int].0 == path@
                    &&& forall|k: int| 0 <= k < i ==> (#[trigger] self.pairs()[k]).0 != path@
                },
                None => !has_path(self.pairs(), path@),
            },
    {
        let mut i: usize = 0;
        while i < self.entries.len()
            invariant
                i <= self.entries.len(),
                forall|k: int| 0 <= k < i ==> (#[trigger] self.pairs()[k]).0 != path@,
            decreases self.entries.len() - i,
        {
            if same_text(self.entries[i].0.as_str(), path) {
                return Some(i);
            }
            i = i + 1;
        }
        None
    }

    /// Whether the manifest lists `path`.
    pub fn contains(&self, path: &str) -> (found: bool)
        ensures
            found == self@.contains_key(path@),
    {
        self.position(path).is_some()
    }

    /// The digest listed for `path`, if the manifest lists it.
    pub fn get(&self, path: &str) -> (digest: Option<&String>)
        requires
            self.wf(),
        ensures
            match digest {
                Some(d) => self@.contains_key(path@) && d@ == self@[path@],
                None => !self@.contains_key(path@),
            },
    {
        match self.position(path) {
            Some(i) => {
                proof {
                }
                Some(&self.entries[i].1)
            },
            None => None,
        }
    }

    /// Adds the entry `(path, digest)` at the end, unless the path leaves the
    /// mirror root, the digest has not the shape of one, or the path is
    /// listed already; the manifest is then left as it was.
    pub fn insert(&mut self, path: String, digest: String) -> (added: bool)
        requires
            old(self).wf(),
        ensures
            final(self).wf(),
            added == (entry_ok((path@, digest@)) && !old(self)@.contains_key(path@)),
            added ==> final(self).pairs() == old(self).pairs().push((path@, digest@)),
            added ==> final(self)@ == old(self)@.insert(path@, digest@),
            !added ==> final(self).pairs() == old(self).pairs(),
    {
        if !is_valid_path(path.as_str()) || !is_valid_digest(digest.as_str()) {
            return false;
        }
        if self.position(path.as_str()).is_some() {
            return false;
        }
        proof {
            lemma_map_of_push(self.pairs(), (path@, digest@));
        }
        let ghost before = self.pairs();
        self.entries.push((path, digest));
        assert(self.pairs() =~= before.push((path@, digest@)));
        true
    }

    /// The manifest with exactly the entries of `list`, in that order, if
    /// they form a manifest.
    pub fn from_pairs(list: Vec<(String, String)>) -> (made: Option<Manifest>)
        ensures
            made is Some == pairs_ok(pairs_view(list@)),
            made matches Some(m) ==> m.wf() && m.pairs() == pairs_view(list@),
    {
        let ghost pairs = pairs_view(list@);
        let mut i: usize = 0;
        while i < list.len()
            invariant
                i <= list.len(),
                pairs == pairs_view(list@),
                pairs_ok(pairs.take(i as int)),
            decreases list.len() - i,
        {
            let ghost done = pairs.take(i as int);
            let ghost e = pairs[i as int];
            if !is_valid_path(list[i].0.as_str()) || !is_valid_digest(list[i].1.as_str()) {
                return None;
            }
            let mut j: usize = 0;
            while j < i
                invariant
                    j <= i < list.len(),
                    pairs == pairs_view(list@),
                    forall|k: int| 0 <= k < j ==> (#[trigger] pairs[k]).0 != pairs[i as int].0,
                decreases i - j,
            {
                if same_text(list[j].0.as_str(), list[i].0.as_str()) {
                    assert(pairs[j as int].0 == pairs[i as int].0);
                    return None;
                }
                j = j + 1;
            }
            proof {
            }
            i = i + 1;
        }
        assert(pairs.take(list@.len() as int) =~= pairs);
        Some(Manifest { entries: list })
    }

    /// A copy of the entries, in order.
    pub fn to_pairs(&self) -> (list: Vec<(String, String)>)
        ensures
            pairs_view(list@) == self.pairs(),
    {
        let mut list: Vec<(String, String)> = Vec::new();
        let mut i: usize = 0;
        while i < self.entries.len()
            invariant
                i <= self.entries.len(),
                pairs_view(list@) == self.pairs().take(i as int),
            decreases self.entries.len() - i,
        {
            list.push((self.entries[i].0.clone(), self.entries[i].1.clone()));
            assert(self.pairs().take(i as int + 1) =~= self.pairs().take(i as int).push(
                self.pairs()[i as int],
            ));
            i = i + 1;
        }
        list
    }

    /// Whether both manifests list the same paths with the same digests.
    pub fn same_as(&self, other: &Manifest) -> (same: bool)
        requires
            self.wf(),
            other.wf(),
        ensures
            same == (self@ == other@),
    {
        let mut i: usize = 0;
        while i < self.entries.len()
            invariant
                i <= self.entries.len(),
                self.wf(),
                other.wf(),
                forall|k: int|
                    0 <= k < i ==> other@.contains_key((#[trigger] self.pairs()[k]).0) && other@[self.pairs()[k].0]
                        == self.pairs()[k].1,
            decreases self.entries.len() - i,
        {
            proof {
                lemma_map_of_entry(self.pairs(), i as int);
            }
            match other.get(self.entries[i].0.as_str()) {
                Some(d) => {
                    if !same_text(d.as_str(), self.entries[i].1.as_str()) {
                        return false;
                    }
                },
                None => {
                    return false;
                },
            }
            i = i + 1;
        }
        let mut j: usize = 0;
        while j < other.entries.len()
            invariant
                j <= other.entries.len(),
                self.wf(),
                other.wf(),
                forall|k: int| 0 <= k < j ==> self@.contains_key((#[trigger] other.pairs()[k]).0),
            decreases other.entries.len() - j,
        {
            proof {
                lemma_map_of_entry(other.pairs(), j as int);
            }
            if !self.contains(other.entries[j].0.as_str()) {
                return false;
            }
            j = j + 1;
        }
        proof {
            assert forall|p: Seq<char>| self@.contains_key(p) implies other@.contains_key(p)
                && other@[p] == self@[p] by {
                let k = index_of(self.pairs(), p);
            }
            assert(self@ =~= other@);
        }
        true
    }
}

} // verus!
