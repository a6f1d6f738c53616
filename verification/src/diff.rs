//! The difference of two manifests: which files the receiving side has to
//! fetch and which it has to delete so that its directory matches the
//! sender's.
//!
//! Only digests are compared: neither time stamps nor sizes play a part.

use crate::manifest::{distinct_paths, has_path, index_of, map_of, Manifest};
use crate::text::{same_text, texts};
use vstd::prelude::*;

verus! {

/// The paths to fetch: those that `remote` lists and that `local` lacks or
/// lists with another digest.
pub open spec fn fetch_set(
    local: Map<Seq<char>, Seq<char>>,
    remote: Map<Seq<char>, Seq<char>>,
) -> Set<Seq<char>> {
    Set::new(
        |p: Seq<char>| remote.contains_key(p) && (!local.contains_key(p) || local[p] != remote[p]),
    )
}

/// The paths to delete: those that `local` lists and `remote` does not.
pub open spec fn delete_set(
    local: Map<Seq<char>, Seq<char>>,
    remote: Map<Seq<char>, Seq<char>>,
) -> Set<Seq<char>> {
    Set::new(|p: Seq<char>| local.contains_key(p) && !remote.contains_key(p))
}

/// The manifest of the tree that `local` describes, once the files at the
/// paths in `fetch` have been replaced by the sender's and the files at the
/// paths in `delete` removed.
pub open spec fn reconcile(
    local: Map<Seq<char>, Seq<char>>,
    remote: Map<Seq<char>, Seq<char>>,
    fetch: Set<Seq<char>>,
    delete: Set<Seq<char>>,
) -> Map<Seq<char>, Seq<char>> {
    local.remove_keys(delete).union_prefer_right(remote.restrict(fetch))
}

/// Whether the entry `e` of the sender's manifest has to be fetched.
pub open spec fn needs_fetch(local: Map<Seq<char>, Seq<char>>, e: (Seq<char>, Seq<char>)) -> bool {
    !local.contains_key(e.0) || local[e.0] != e.1
}

/// The paths to fetch, in the order of the sender's entries.
pub open spec fn fetch_list(
    local: Map<Seq<char>, Seq<char>>,
    remote: Seq<(Seq<char>, Seq<char>)>,
) -> Seq<Seq<char>>
    decreases remote.len(),
{
    if remote.len() == 0 {
        Seq::empty()
    } else if needs_fetch(local, remote.last()) {
        fetch_list(local, remote.drop_last()).push(remote.last().0)
    } else {
        fetch_list(local, remote.drop_last())
    }
}

/// The paths to delete, in the order of the receiver's entries.
pub open spec fn delete_list(
    local: Seq<(Seq<char>, Seq<char>)>,
    remote: Map<Seq<char>, Seq<char>>,
) -> Seq<Seq<char>>
    decreases local.len(),
{
    if local.len() == 0 {
        Seq::empty()
    } else if !remote.contains_key(local.last().0) {
        delete_list(local.drop_last(), remote).push(local.last().0)
    } else {
        delete_list(local.drop_last(), remote)
    }
}

/// The fetch list holds exactly the paths of the fetch set, each once.
pub proof fn lemma_fetch_list(
    local: Map<Seq<char>, Seq<char>>,
    remote: Seq<(Seq<char>, Seq<char>)>,
)
    requires
        distinct_paths(remote),
    ensures
        fetch_list(local, remote).no_duplicates(),
        forall|p: Seq<char>|
            fetch_list(local, remote).contains(p) <==> fetch_set(local, map_of(remote)).contains(p),
    decreases remote.len(),
{
    let list = fetch_list(local, remote);
    if remote.len() > 0 {
        let rest = remote.drop_last();
        let e = remote.last();
        let n = rest.len() as int;
        lemma_fetch_list(local, rest);
        let before = fetch_list(local, rest);
        assert(!before.contains(e.0));
        assert forall|p: Seq<char>|
            list.contains(p) <==> fetch_set(local, map_of(remote)).contains(p) by {
            if p == e.0 {
                if needs_fetch(local, e) {
                    assert(list[list.len() - 1] == p);
                }
            } else {
                if has_path(rest, p) {
                    let k = index_of(rest, p);
                }
                if has_path(remote, p) {
                    let k = index_of(remote, p);
                    assert(rest[k].0 == p);
                }
                if before.contains(p) {
                    let k = choose|k: int| 0 <= k < before.len() && before[k] == p;
                    assert(list[k] == p);
                }
            }
        }
    }
}

/// The delete list holds exactly the paths of the delete set, each once.
pub proof fn lemma_delete_list(
    local: Seq<(Seq<char>, Seq<char>)>,
    remote: Map<Seq<char>, Seq<char>>,
)
    requires
        distinct_paths(local),
    ensures
        delete_list(local, remote).no_duplicates(),
        forall|p: Seq<char>|
            delete_list(local, remote).contains(p) <==> delete_set(map_of(local), remote).contains(
                p,
            ),
    decreases local.len(),
{
    let list = delete_list(local, remote);
    if local.len() > 0 {
        let rest = local.drop_last();
        let e = local.last();
        lemma_delete_list(rest, remote);
        let before = delete_list(rest, remote);
        assert(!before.contains(e.0));
        assert forall|p: Seq<char>|
            list.contains(p) <==> delete_set(map_of(local), remote).contains(p) by {
            if p == e.0 {
                if !remote.contains_key(e.0) {
                    assert(list[list.len() - 1] == p);
                }
            } else {
                if has_path(local, p) {
                    let k = index_of(local, p);
                    assert(rest[k].0 == p);
                }
                if before.contains(p) {
                    let k = choose|k: int| 0 <= k < before.len() && before[k] == p;
                    assert(list[k] == p);
                }
            }
        }
    }
}

/// Fetching the fetch set and deleting the delete set turns the tree that
/// `local` describes into one that `remote` describes.
pub proof fn diff_reconciles(local: Map<Seq<char>, Seq<char>>, remote: Map<Seq<char>, Seq<char>>)
    ensures
        reconcile(local, remote, fetch_set(local, remote), delete_set(local, remote)) == remote,
{
}

/// Two manifests differ in nothing exactly if they are the same: against a
/// directory that matches already, nothing is fetched and nothing deleted.
pub proof fn diff_is_empty_iff_equal(
    local: Map<Seq<char>, Seq<char>>,
    remote: Map<Seq<char>, Seq<char>>,
)
    ensures
        (fetch_set(local, remote) == Set::<Seq<char>>::empty() && delete_set(local, remote)
            == Set::<Seq<char>>::empty()) <==> local == remote,
{
    let fetch = fetch_set(local, remote);
    let delete = delete_set(local, remote);
    if local == remote {
        assert(fetch =~= Set::empty());
        assert(delete =~= Set::empty());
    }
    if fetch == Set::<Seq<char>>::empty() && delete == Set::<Seq<char>>::empty() {
        assert forall|p: Seq<char>| local.contains_key(p) == remote.contains_key(p) by {
            assert(!delete.contains(p));
        }
        assert forall|p: Seq<char>| local.contains_key(p) implies local[p] == remote[p] by {
            assert(!fetch.contains(p));
        }
        assert(local =~= remote);
    }
}

/// No path that the sender lists is ever in the delete set, and none that
/// is in the delete set is also in the fetch set.
pub proof fn delete_spares_remote(
    local: Map<Seq<char>, Seq<char>>,
    remote: Map<Seq<char>, Seq<char>>,
)
    ensures
        forall|p: Seq<char>| remote.contains_key(p) ==> !delete_set(local, remote).contains(p),
        delete_set(local, remote).disjoint(fetch_set(local, remote)),
{
}

/// What the receiving side has to do to match the sender.
#[derive(Debug, PartialEq, Eq)]
pub struct Diff {
    /// The paths to fetch from the sender, in the order of its manifest.
    pub fetch: Vec<String>,
    /// The paths to delete, in the order of the receiver's manifest.
    pub delete: Vec<String>,
}

/// Compares the receiver's manifest `local` with the sender's manifest
/// `remote`.
pub fn diff(local: &Manifest, remote: &Manifest) -> (d: Diff)
    requires
        local.wf(),
        remote.wf(),
    ensures
        texts(d.fetch@) == fetch_list(local@, remote.pairs()),
        texts(d.delete@) == delete_list(local.pairs(), remote@),
        texts(d.fetch@).to_set() == fetch_set(local@, remote@),
        texts(d.delete@).to_set() == delete_set(local@, remote@),
        texts(d.fetch@).no_duplicates(),
        texts(d.delete@).no_duplicates(),
{
    let mut fetch: Vec<String> = Vec::new();
    let mut i: usize = 0;
    while i < remote.len()
        invariant
            i <= remote.pairs().len(),
            local.wf(),
            texts(fetch@) == fetch_list(local@, remote.pairs().take(i as int)),
        decreases remote.pairs().len() - i,
    {
        let path = remote.path_at(i);
        let wanted = match local.get(path.as_str()) {
            Some(d) => !same_text(d.as_str(), remote.digest_at(i).as_str()),
            None => true,
        };
        if wanted {
            fetch.push(path.clone());
        }
        proof {
            let next = remote.pairs().take(i as int + 1);
            assert(next.drop_last() =~= remote.pairs().take(i as int));
        }
        i = i + 1;
    }
    let mut delete: Vec<String> = Vec::new();
    let mut j: usize = 0;
    while j < local.len()
        invariant
            j <= local.pairs().len(),
            texts(delete@) == delete_list(local.pairs().take(j as int), remote@),
        decreases local.pairs().len() - j,
    {
        let path = local.path_at(j);
        let unwanted = !remote.contains(path.as_str());
        if unwanted {
            delete.push(path.clone());
        }
        proof {
            let next = local.pairs().take(j as int + 1);
            assert(next.drop_last() =~= local.pairs().take(j as int));
        }
        j = j + 1;
    }
    proof {
        assert(remote.pairs().take(remote.pairs().len() as int) =~= remote.pairs());
        assert(local.pairs().take(local.pairs().len() as int) =~= local.pairs());
        lemma_fetch_list(local@, remote.pairs());
        lemma_delete_list(local.pairs(), remote@);
    }
    Diff { fetch, delete }
}

} // verus!
