//! Which mirror directories a session is working on.
//!
//! Two sessions for the same pair of local and remote alias would write
//! and delete in the same directory. A session therefore takes the lock of
//! its pair before it begins and gives it back when it has ended; while
//! one holds it, no other gets it.

use crate::text::same_text;
use vstd::prelude::*;

verus! {

/// The pairs of the entries of a list, as characters.
pub open spec fn held_pairs(list: Seq<(String, String)>) -> Seq<(Seq<char>, Seq<char>)> {
    Seq::new(list.len(), |i: int| (list[i].0@, list[i].1@))
}

/// The pairs of local and remote alias whose mirror directory is in use.
#[derive(Debug)]
pub struct MirrorLocks {
    held: Vec<(String, String)>,
}

impl View for MirrorLocks {
    type V = Set<(Seq<char>, Seq<char>)>;

    /// The pairs that are locked.
    closed spec fn view(&self) -> Set<(Seq<char>, Seq<char>)> {
        held_pairs(self.held@).to_set()
    }
}

impl MirrorLocks {
    /// The invariant of the type: no pair is held twice.
    pub closed spec fn wf(&self) -> bool {
        held_pairs(self.held@).no_duplicates()
    }

    /// No pair is locked.
    pub fn new() -> (locks: MirrorLocks)
        ensures
            locks.wf(),
            locks@ == Set::<(Seq<char>, Seq<char>)>::empty(),
    {
        let locks = MirrorLocks { held: Vec::new() };
        locks
    }

    fn position(&self, local: &str, remote: &str) -> (place: Option<usize>)
        ensures
            match place {
                Some(i) => i < self.held@.len() && held_pairs(self.held@)[i as int] == (
                    local@,
                    remote@,
                ),
                None => !self@.contains((local@, remote@)),
            },
    {
        let mut i: usize = 0;
        while i < self.held.len()
            invariant
                i <= self.held@.len(),
                forall|k: int| 0 <= k < i ==> held_pairs(self.held@)[k] != (local@, remote@),
            decreases self.held@.len() - i,
        {
            if same_text(self.held[i].0.as_str(), local) && same_text(
                self.held[i].1.as_str(),
                remote,
            ) {
                return Some(i);
            }
            i = i + 1;
        }
        None
    }

    /// Whether the pair is locked.
    pub fn is_locked(&self, local: &str, remote: &str) -> (locked: bool)
        ensures
            locked == self@.contains((local@, remote@)),
    {
        match self.position(local, remote) {
            Some(i) => {
                true
            },
            None => false,
        }
    }

    /// Locks the pair, unless it is locked already: the answer says
    /// whether the caller now holds the lock.
    pub fn try_lock(&mut self, local: &str, remote: &str) -> (taken: bool)
        requires
            old(self).wf(),
        ensures
            final(self).wf(),
            taken == !old(self)@.contains((local@, remote@)),
            final(self)@ == old(self)@.insert((local@, remote@)),
    {
        let ghost before = held_pairs(self.held@);
        match self.position(local, remote) {
            Some(_) => false,
            None => {
                self.held.push((String::from_str(local), String::from_str(remote)));
                proof {
                    let after = held_pairs(self.held@);
                    assert(after =~= before.push((local@, remote@)));
                    assert forall|x: (Seq<char>, Seq<char>)|
                        after.contains(x) == (before.contains(x) || x == (local@, remote@)) by {
                        if before.contains(x) {
                            let k = choose|k: int| 0 <= k < before.len() && before[k] == x;
                            assert(after[k] == x);
                        }
                        if x == (local@, remote@) {
                            assert(after[before.len() as int] == x);
                        }
                    }
                }
                true
            },
        }
    }

    /// Gives the lock of the pair back. A pair that is not locked stays so.
    pub fn unlock(&mut self, local: &str, remote: &str)
        requires
            old(self).wf(),
        ensures
            final(self).wf(),
            final(self)@ == old(self)@.remove((local@, remote@)),
    {
        let ghost before = held_pairs(self.held@);
        match self.position(local, remote) {
            Some(i) => {
                self.held.remove(i);
                proof {
                    let after = held_pairs(self.held@);
                    assert forall|a: int, b: int|
                        0 <= a < after.len() && 0 <= b < after.len() && a != b implies after[a]
                        != after[b] by {
                        let a0 = if a < i { a } else { a + 1 };
                        let b0 = if b < i { b } else { b + 1 };
                        assert(after[a] == before[a0] && after[b] == before[b0]);
                    }
                    assert forall|x: (Seq<char>, Seq<char>)|
                        after.contains(x) == (before.contains(x) && x != (local@, remote@)) by {
                        if after.contains(x) {
                            let k = choose|k: int| 0 <= k < after.len() && after[k] == x;
                            let k0 = if k < i { k } else { k + 1 };
                            assert(before[k0] == x);
                        }
                        if before.contains(x) && x != (local@, remote@) {
                            let k = choose|k: int| 0 <= k < before.len() && before[k] == x;
                            let k1 = if k < i { k } else { k - 1 };
                            assert(after[k1] == x);
                        }
                    }
                }
            },
            None => {},
        }
    }
}

} // verus!
