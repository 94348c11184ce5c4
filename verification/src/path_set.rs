//! The set of files whose groups are collapsed.

use vstd::prelude::*;
use crate::location::ProjectPath;

verus! {

/// A finite set of files. Each file is held once, so the number of files is
/// the length of the backing vector.
pub struct PathSet {
    paths: Vec<ProjectPath>,
}

impl PathSet {
    /// The files in the set.
    pub closed spec fn view(&self) -> Set<ProjectPath> {
        self.paths@.to_set()
    }

    /// No file is held twice.
    pub closed spec fn wf(&self) -> bool {
        self.paths@.no_duplicates()
    }

    proof fn lemma_len(&self)
        requires
            self.wf(),
        ensures
            self@.len() == self.paths@.len(),
            self@.finite(),
    {
        self.paths@.unique_seq_to_set();
    }

    /// The empty set.
    pub fn new() -> (s: Self)
        ensures
            s.wf(),
            s@ == Set::<ProjectPath>::empty(),
    {
        let s = PathSet { paths: Vec::new() };
        assert(s@ =~= Set::<ProjectPath>::empty());
        s
    }

    /// Where `path` is held in the backing vector, if it is in the set.
    fn position(&self, path: &ProjectPath) -> (r: Option<usize>)
        ensures
            match r {
                Some(i) => i < self.paths@.len() && self.paths@[i as int] == *path,
                None => !self@.contains(*path),
            },
    {
        let mut i: usize = 0;
        while i < self.paths.len()
            invariant
                i <= self.paths@.len(),
                forall|k: int| 0 <= k < i ==> self.paths@[k] != *path,
            decreases self.paths@.len() - i,
        {
            if self.paths[i] == *path {
                return Some(i);
            }
            i += 1;
        }
        proof {
            if self.paths@.to_set().contains(*path) {
                let k = choose|k: int| 0 <= k < self.paths@.len() && self.paths@[k] == *path;
                assert(self.paths@[k] != *path);
            }
        }
        None
    }

    /// Whether `path` is in the set.
    pub fn contains(&self, path: &ProjectPath) -> (r: bool)
        ensures
            r == self@.contains(*path),
    {
        match self.position(path) {
            Some(i) => {
                assert(self.paths@.contains(*path));
                true
            },
            None => false,
        }
    }

    /// Adds `path`; returns whether it was not in the set before.
    pub fn insert(&mut self, path: ProjectPath) -> (added: bool)
        requires
            old(self).wf(),
        ensures
            final(self).wf(),
            final(self)@ == old(self)@.insert(path),
            added == !old(self)@.contains(path),
    {
        if self.contains(&path) {
            assert(self@.insert(path) =~= self@);
            false
        } else {
            let ghost before = self.paths@;
            self.paths.push(path);
            proof {
                assert(self.paths@ == before.push(path));
                assert forall|i: int, j: int|
                    0 <= i < self.paths@.len() && 0 <= j < self.paths@.len() && i != j
                        implies self.paths@[i] != self.paths@[j] by {
                    if i == before.len() as int {
                        assert(before.contains(self.paths@[j]));
                    } else if j == before.len() as int {
                        assert(before.contains(self.paths@[i]));
                    }
                }
                assert(self.paths@.to_set() =~= before.to_set().insert(path)) by {
                    assert forall|p: ProjectPath| #[trigger] self.paths@.to_set().contains(p)
                        implies before.to_set().insert(path).contains(p) by {
                        let k = choose|k: int| 0 <= k < self.paths@.len() && self.paths@[k] == p;
                        if k < before.len() {
                            assert(before[k] == p);
                        }
                    }
                    assert forall|p: ProjectPath| #[trigger] before.to_set().insert(path).contains(p)
                        implies self.paths@.to_set().contains(p) by {
                        if p == path {
                            assert(self.paths@[before.len() as int] == p);
                        } else {
                            let k = choose|k: int| 0 <= k < before.len() && before[k] == p;
                            assert(self.paths@[k] == p);
                        }
                    }
                }
            }
            true
        }
    }

    /// Removes `path`; returns whether it was in the set.
    pub fn remove(&mut self, path: &ProjectPath) -> (removed: bool)
        requires
            old(self).wf(),
        ensures
            final(self).wf(),
            final(self)@ == old(self)@.remove(*path),
            removed == old(self)@.contains(*path),
    {
        match self.position(path) {
            None => {
                assert(self@.remove(*path) =~= self@);
                false
            },
            Some(i) => {
                let ghost before = self.paths@;
                self.paths.remove(i);
                proof {
                    assert(self.paths@ == before.remove(i as int));
                    assert forall|a: int, b: int|
                        0 <= a < self.paths@.len() && 0 <= b < self.paths@.len() && a != b
                            implies self.paths@[a] != self.paths@[b] by {
                        let a0 = if a < i { a } else { a + 1 };
                        let b0 = if b < i { b } else { b + 1 };
                        assert(self.paths@[a] == before[a0]);
                        assert(self.paths@[b] == before[b0]);
                    }
                    assert(self.paths@.to_set() =~= before.to_set().remove(*path)) by {
                        assert forall|p: ProjectPath| #[trigger] self.paths@.to_set().contains(p)
                            implies before.to_set().remove(*path).contains(p) by {
                            let k = choose|k: int| 0 <= k < self.paths@.len() && self.paths@[k] == p;
                            let k0 = if k < i { k } else { k + 1 };
                            assert(before[k0] == p);
                            assert(k0 != i as int);
                            assert(before[i as int] == *path);
                        }
                        assert forall|p: ProjectPath| #[trigger] before.to_set().remove(*path).contains(p)
                            implies self.paths@.to_set().contains(p) by {
                            let k = choose|k: int| 0 <= k < before.len() && before[k] == p;
                            assert(k != i as int);
                            let k1 = if k < i { k } else { k - 1 };
                            assert(self.paths@[k1] == p);
                        }
                    }
                    assert(before.to_set().contains(*path)) by {
                        assert(before[i as int] == *path);
                    }
                }
                true
            },
        }
    }

    /// Empties the set.
    pub fn clear(&mut self)
        ensures
            final(self).wf(),
            final(self)@ == Set::<ProjectPath>::empty(),
    {
        self.paths.clear();
        assert(self@ =~= Set::<ProjectPath>::empty());
    }

    /// The number of files in the set.
    pub fn len(&self) -> (n: usize)
        requires
            self.wf(),
        ensures
            n == self@.len(),
    {
        proof {
            self.lemma_len();
        }
        self.paths.len()
    }
}

} // verus!
