//! Building the manifest of a directory from what a walk of it found.
//!
//! Only regular files are listed; directories, symbolic links and anything
//! else are passed over. A file is listed under its whole path below the
//! root. The result is all or nothing: one path that leaves the root, or
//! one that occurs twice, and there is no manifest.

use crate::digest::{digest_of, hash};
use crate::error::SyncError;
use crate::manifest::{has_path, index_of, map_of, Manifest};
use crate::path::is_relative_path;
use vstd::prelude::*;

verus! {

/// What kind of thing a walk found at a path.
#[derive(Clone, Copy, Debug, PartialEq, Eq, Structural)]
pub enum EntryKind {
    /// A regular file.
    File,
    /// A directory.
    Directory,
    /// A symbolic link, whatever it points to.
    Symlink,
    /// Anything else: a socket, a pipe, a device.
    Other,
}

/// One thing that a walk found.
#[derive(Clone, Debug, PartialEq, Eq)]
pub struct WalkEntry {
    /// The path below the root, segments separated by `/`.
    pub path: String,
    /// What was found there.
    pub kind: EntryKind,
    /// The bytes of the file, if it is a regular file.
    pub content: Vec<u8>,
}

/// One thing that a walk found, as plain values.
pub struct WalkEntryView {
    pub path: Seq<char>,
    pub kind: EntryKind,
    pub content: Seq<u8>,
}

impl View for WalkEntry {
    type V = WalkEntryView;

    open spec fn view(&self) -> WalkEntryView {
        WalkEntryView { path: self.path@, kind: self.kind, content: self.content@ }
    }
}

/// The entries of a list, as plain values.
pub open spec fn entry_views(entries: Seq<WalkEntry>) -> Seq<WalkEntryView> {
    Seq::new(entries.len(), |i: int| entries[i]@)
}

/// The regular files among the entries, each with its path and content, in
/// the order of the walk.
pub open spec fn listed(entries: Seq<WalkEntryView>) -> Seq<(Seq<char>, Seq<u8>)>
    decreases entries.len(),
{
    if entries.len() == 0 {
        Seq::empty()
    } else if entries.last().kind == EntryKind::File {
        listed(entries.drop_last()).push((entries.last().path, entries.last().content))
    } else {
        listed(entries.drop_last())
    }
}

/// Whether the files can be listed in one manifest: every path stays below
/// the root and no path occurs twice.
pub open spec fn listing_ok(files: Seq<(Seq<char>, Seq<u8>)>) -> bool {
    &&& forall|i: int| 0 <= i < files.len() ==> is_relative_path((#[trigger] files[i]).0)
    &&& forall|i: int, j: int|
        0 <= i < j < files.len() ==> (#[trigger] files[i]).0 != (#[trigger] files[j]).0
}

/// The manifest entries for the files: each path with the digest of the
/// content.
pub open spec fn listing_pairs(files: Seq<(Seq<char>, Seq<u8>)>) -> Seq<(Seq<char>, Seq<char>)> {
    Seq::new(files.len(), |i: int| (files[i].0, digest_of(files[i].1)))
}

/// The manifest of a directory that holds the files, if there is one.
pub open spec fn build_result(files: Seq<(Seq<char>, Seq<u8>)>) -> Option<
    Map<Seq<char>, Seq<char>>,
> {
    if listing_ok(files) {
        Some(map_of(listing_pairs(files)))
    } else {
        None
    }
}

/// The files found in the first part of a walk are the first of the files
/// found in all of it.
pub proof fn lemma_listed_prefix(entries: Seq<WalkEntryView>, i: int)
    requires
        0 <= i <= entries.len(),
    ensures
        listed(entries.take(i)).len() <= listed(entries).len(),
        listed(entries.take(i)) == listed(entries).take(listed(entries.take(i)).len() as int),
    decreases entries.len(),
{
    if i == entries.len() {
        assert(entries.take(i) =~= entries);
    } else {
        let rest = entries.drop_last();
        assert(entries.take(i) =~= rest.take(i));
        lemma_listed_prefix(rest, i);
    }
}

/// The same files in another order have the same members.
proof fn lemma_same_members(
    a: Seq<(Seq<char>, Seq<u8>)>,
    b: Seq<(Seq<char>, Seq<u8>)>,
    x: (Seq<char>, Seq<u8>),
)
    requires
        a.to_multiset() == b.to_multiset(),
    ensures
        a.contains(x) == b.contains(x),
{
    vstd::seq_lib::to_multiset_contains(a, x);
    vstd::seq_lib::to_multiset_contains(b, x);
}

/// The same files in another order can be listed exactly if these can.
proof fn lemma_listing_ok_permuted(a: Seq<(Seq<char>, Seq<u8>)>, b: Seq<(Seq<char>, Seq<u8>)>)
    requires
        a.to_multiset() == b.to_multiset(),
        listing_ok(a),
    ensures
        listing_ok(b),
{
    assert forall|j: int| 0 <= j < b.len() implies is_relative_path((#[trigger] b[j]).0) by {
        lemma_same_members(a, b, b[j]);
    }
    a.lemma_multiset_has_no_duplicates();
    b.lemma_multiset_has_no_duplicates_conv();
    assert forall|i: int, j: int| 0 <= i < j < b.len() implies (#[trigger] b[i]).0 != (
    #[trigger] b[j]).0 by {
        lemma_same_members(a, b, b[i]);
        lemma_same_members(a, b, b[j]);
    }
}

/// The manifest of a directory does not depend on the order in which a
/// walk comes upon its files: the same files in any order give the same
/// map from path to digest, or in every order none.
pub proof fn build_ignores_order(a: Seq<(Seq<char>, Seq<u8>)>, b: Seq<(Seq<char>, Seq<u8>)>)
    requires
        a.to_multiset() == b.to_multiset(),
    ensures
        build_result(a) == build_result(b),
{
    if listing_ok(a) {
        lemma_listing_ok_permuted(a, b);
    }
    if listing_ok(b) {
        lemma_listing_ok_permuted(b, a);
    }
    if listing_ok(a) {
        let pa = listing_pairs(a);
        let pb = listing_pairs(b);
        let ma = map_of(pa);
        let mb = map_of(pb);
        assert forall|p: Seq<char>| ma.contains_key(p) == mb.contains_key(p) by {
            if ma.contains_key(p) {
                let i = index_of(pa, p);
                lemma_same_members(a, b, a[i]);
                let j = choose|j: int| 0 <= j < b.len() && b[j] == a[i];
                assert(pb[j].0 == p);
            }
            if mb.contains_key(p) {
                let j = index_of(pb, p);
                lemma_same_members(a, b, b[j]);
                let i = choose|i: int| 0 <= i < a.len() && a[i] == b[j];
                assert(pa[i].0 == p);
            }
        }
        assert forall|p: Seq<char>| ma.contains_key(p) implies ma[p] == mb[p] by {
            let i = index_of(pa, p);
            lemma_same_members(a, b, a[i]);
            let j = choose|j: int| 0 <= j < b.len() && b[j] == a[i];
        }
    }
}

/// A file occurs among the listed files as often as the walk found it as a
/// regular file.
proof fn lemma_listed_count(entries: Seq<WalkEntryView>, file: (Seq<char>, Seq<u8>))
    ensures
        listed(entries).to_multiset().count(file) == entries.to_multiset().count(
            WalkEntryView { path: file.0, kind: EntryKind::File, content: file.1 },
        ),
    decreases entries.len(),
{
    broadcast use vstd::multiset::group_multiset_axioms;

    let found = WalkEntryView { path: file.0, kind: EntryKind::File, content: file.1 };
    if entries.len() == 0 {
        vstd::seq_lib::to_multiset_contains(listed(entries), file);
        vstd::seq_lib::to_multiset_contains(entries, found);
    } else {
        let rest = entries.drop_last();
        let e = entries.last();
        lemma_listed_count(rest, file);
        assert(entries =~= rest.push(e));
        vstd::seq_lib::to_multiset_build(rest, e);
        if e.kind == EntryKind::File {
            vstd::seq_lib::to_multiset_build(listed(rest), (e.path, e.content));
        }
    }
}

/// The manifest of a directory does not depend on the order in which a
/// walk comes upon its entries.
pub proof fn build_ignores_walk_order(a: Seq<WalkEntryView>, b: Seq<WalkEntryView>)
    requires
        a.to_multiset() == b.to_multiset(),
    ensures
        build_result(listed(a)) == build_result(listed(b)),
{
    assert forall|file: (Seq<char>, Seq<u8>)|
        listed(a).to_multiset().count(file) == listed(b).to_multiset().count(file) by {
        lemma_listed_count(a, file);
        lemma_listed_count(b, file);
    }
    assert(listed(a).to_multiset() =~= listed(b).to_multiset());
    build_ignores_order(listed(a), listed(b));
}

/// Lists one thing that a walk found at `path`: a regular file is added
/// with the digest of `content`, anything else is passed over. It fails
/// with `IoError`, and leaves the manifest as it was, where the path of a
/// file leaves the root or is listed already.
pub fn add_entry(manifest: &mut Manifest, path: String, kind: EntryKind, content: &[u8]) -> (r:
    Result<(), SyncError>)
    requires
        old(manifest).wf(),
    ensures
        final(manifest).wf(),
        r is Ok == (kind != EntryKind::File || (is_relative_path(path@) && !has_path(
            old(manifest).pairs(),
            path@,
        ))),
        r is Ok && kind == EntryKind::File ==> final(manifest).pairs() == old(manifest).pairs().push(
            (path@, digest_of(content@)),
        ),
        r is Err || kind != EntryKind::File ==> final(manifest).pairs() == old(manifest).pairs(),
        r matches Err(e) ==> e == SyncError::IoError,
{
    match kind {
        EntryKind::File => {
            let digest = hash(content);
            if manifest.insert(path, digest) {
                Ok(())
            } else {
                Err(SyncError::IoError)
            }
        },
        _ => Ok(()),
    }
}

/// The manifest of a directory in which a walk found `entries`. It fails
/// with `IoError` where the path of a regular file leaves the root or
/// occurs twice; there is then no manifest at all.
pub fn build(entries: &Vec<WalkEntry>) -> (r: Result<Manifest, SyncError>)
    ensures
        match build_result(listed(entry_views(entries@))) {
            Some(map) => r matches Ok(m) && m.wf() && m@ == map && m.pairs() == listing_pairs(
                listed(entry_views(entries@)),
            ),
            None => r matches Err(e) && e == SyncError::IoError,
        },
{
    let ghost all = entry_views(entries@);
    let mut manifest = Manifest::new();
    let mut i: usize = 0;
    while i < entries.len()
        invariant
            i <= entries.len(),
            all == entry_views(entries@),
            manifest.wf(),
            listing_ok(listed(all.take(i as int))),
            manifest.pairs() == listing_pairs(listed(all.take(i as int))),
        decreases entries.len() - i,
    {
        let entry = &entries[i];
        let ghost before = listed(all.take(i as int));
        let ghost after = listed(all.take(i as int + 1));
        proof {
            assert(all.take(i as int + 1).drop_last() =~= all.take(i as int));
        }
        match add_entry(&mut manifest, entry.path.clone(), entry.kind, entry.content.as_slice()) {
            Ok(()) => {
                proof {
                    if entry.kind == EntryKind::File {
                        assert forall|a: int, b: int| 0 <= a < b < after.len() implies (
                        #[trigger] after[a]).0 != (#[trigger] after[b]).0 by {
                            if b == before.len() {
                                assert(listing_pairs(before)[a].0 == before[a].0);
                            }
                        }
                    }
                }
            },
            Err(e) => {
                proof {
                    let whole = listed(all);
                    lemma_listed_prefix(all, i as int + 1);
                    if listing_ok(whole) {
                        let n = before.len() as int;
                        let k = index_of(listing_pairs(before), entry@.path);
                        assert(after[k].0 != after[n].0);
                    }
                }
                return Err(e);
            },
        }
        i = i + 1;
    }
    proof {
        assert(all.take(entries@.len() as int) =~= all);
    }
    Ok(manifest)
}

} // verus!
