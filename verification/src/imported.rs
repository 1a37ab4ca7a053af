//! The set of key files that are imported, or that some import has reserved.

use crate::path::{Component, KeyPath};
use vstd::prelude::*;

verus! {

/// The lock of the set of imported key files cannot be taken: a thread panicked while it held it.
#[derive(Debug)]
pub struct LockPoisoned {}

/// A set of key file paths.
///
/// It has an entry for a file from the moment its import begins. No path has two entries.
#[derive(Debug)]
pub struct ImportedKeyFiles {
    entries: Vec<KeyPath>,
}

/// Whether some entry is the path.
spec fn has_entry(entries: Seq<KeyPath>, path: Seq<Component>) -> bool {
    exists|i: int| 0 <= i < entries.len() && (#[trigger] entries[i])@ == path
}

impl View for ImportedKeyFiles {
    type V = Set<Seq<Component>>;

    closed spec fn view(&self) -> Set<Seq<Component>> {
        Set::new(|path: Seq<Component>| has_entry(self.entries@, path))
    }
}

impl ImportedKeyFiles {
    /// No path has two entries.
    #[verifier::type_invariant]
    closed spec fn distinct_entries(&self) -> bool {
        forall|i: int, j: int|
            0 <= i < j < self.entries@.len() ==> (#[trigger] self.entries@[i])@ != (
            #[trigger] self.entries@[j])@
    }

    /// The empty set.
    pub fn new() -> (files: ImportedKeyFiles)
        ensures
            files@ == Set::<Seq<Component>>::empty(),
    {
        let files = ImportedKeyFiles { entries: Vec::new() };
        assert(files@ =~= Set::<Seq<Component>>::empty());
        files
    }

    /// The position of a path among the entries.
    fn find(&self, path: &KeyPath) -> (at: Option<usize>)
        ensures
            match at {
                Some(at) => at < self.entries@.len() && self.entries@[at as int]@ == path@,
                None => forall|i: int|
                    0 <= i < self.entries@.len() ==> (#[trigger] self.entries@[i])@ != path@,
            },
    {
        for i in 0..self.entries.len()
            invariant
                forall|j: int| 0 <= j < i ==> (#[trigger] self.entries@[j])@ != path@,
        {
            if self.entries[i].same(path) {
                return Some(i);
            }
        }
        None
    }

    /// Adds a path. Returns whether it was not there before.
    pub fn insert(&mut self, path: KeyPath) -> (added: bool)
        ensures
            added == !old(self)@.contains(path@),
            final(self)@ == old(self)@.insert(path@),
    {
        proof {
            use_type_invariant(&*self);
        }
        if let Some(at) = self.find(&path) {
            assert(self@.contains(path@)) by {
                assert(self.entries@[at as int]@ == path@);
            }
            assert(self@ =~= self@.insert(path@));
            return false;
        }
        let ghost before = self.entries@;
        let mut entries: Vec<KeyPath> = Vec::new();
        std::mem::swap(&mut entries, &mut self.entries);
        let ghost added = path@;
        entries.push(path);
        proof {
            assert(entries@[before.len() as int]@ == added);
            assert forall|other: Seq<Component>|
                has_entry(entries@, other) == (has_entry(before, other) || other == added) by {
                if has_entry(before, other) {
                    let i = choose|i: int|
                        0 <= i < before.len() && (#[trigger] before[i])@ == other;
                    assert(entries@[i] == before[i]);
                }
                if has_entry(entries@, other) && other != added {
                    let i = choose|i: int|
                        0 <= i < entries@.len() && (#[trigger] entries@[i])@ == other;
                    assert(before[i] == entries@[i]);
                }
            }
        }
        self.entries = entries;
        assert(self@ =~= old(self)@.insert(added));
        true
    }

    /// Removes a path, if it is there.
    pub fn remove(&mut self, path: &KeyPath)
        ensures
            final(self)@ == old(self)@.remove(path@),
    {
        proof {
            use_type_invariant(&*self);
        }
        match self.find(path) {
            None => {
                assert(self@ =~= self@.remove(path@));
            },
            Some(at) => {
                let ghost before = self.entries@;
                let mut entries: Vec<KeyPath> = Vec::new();
                std::mem::swap(&mut entries, &mut self.entries);
                let _ = entries.remove(at);
                proof {
                    assert forall|i: int| 0 <= i < entries@.len() implies #[trigger] entries@[i]
                        == before[if i < at { i } else { i + 1 }] by {}
                    assert forall|other: Seq<Component>|
                        has_entry(entries@, other) == (has_entry(before, other) && other != path@) by {
                        if has_entry(before, other) && other != path@ {
                            let i = choose|i: int|
                                0 <= i < before.len() && (#[trigger] before[i])@ == other;
                            let k = if i < at { i } else { i - 1 };
                            assert(entries@[k] == before[i]);
                        }
                        if has_entry(entries@, other) {
                            let k = choose|k: int|
                                0 <= k < entries@.len() && (#[trigger] entries@[k])@ == other;
                            let i = if k < at { k } else { k + 1 };
                            assert(before[i] == entries@[k]);
                            assert(before[at as int]@ == path@);
                        }
                    }
                }
                self.entries = entries;
                assert(self@ =~= old(self)@.remove(path@));
            },
        }
    }
}

} // verus!
