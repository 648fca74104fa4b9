//! Process Registry and Cancellation Set: the two small shared tables
//! every worker consults. The registry maps a job key to the process id
//! of its running subprocess; the cancellation set holds the keys of
//! jobs asked to stop.
//!
//! The application wraps values of these types in its locks; each method
//! here is one short read or write, as the locking policy asks.

use vstd::prelude::*;

verus! {

/// The map a sequence of `(key, pid)` entries denotes; later entries
/// would win, though the registry keeps keys unique.
pub open spec fn entries_map(entries: Seq<(String, u32)>) -> Map<Seq<char>, u32>
    decreases entries.len(),
{
    if entries.len() == 0 {
        Map::empty()
    } else {
        entries_map(entries.drop_last()).insert(entries.last().0@, entries.last().1)
    }
}

/// No two entries share a key.
pub open spec fn entries_unique(entries: Seq<(String, u32)>) -> bool {
    forall|i: int, j: int|
        0 <= i < j < entries.len() ==> (#[trigger] entries[i]).0@ != (#[trigger] entries[j]).0@
}

proof fn lemma_entries_map(entries: Seq<(String, u32)>)
    ensures
        forall|k: Seq<char>|
            entries_map(entries).contains_key(k) <==> exists|i: int|
                0 <= i < entries.len() && (#[trigger] entries[i]).0@ == k,
        entries_unique(entries) ==> forall|i: int|
            0 <= i < entries.len() ==> entries_map(entries)[(#[trigger] entries[i]).0@]
                == entries[i].1,
    decreases entries.len(),
{
    if entries.len() > 0 {
        lemma_entries_map(entries.drop_last());
        assert forall|k: Seq<char>| entries_map(entries).contains_key(k) implies exists|i: int|
            0 <= i < entries.len() && (#[trigger] entries[i]).0@ == k by {
            if k == entries.last().0@ {
                assert((entries[entries.len() - 1]).0@ == k);
            } else {
                assert(entries_map(entries.drop_last()).contains_key(k));
                let i = choose|i: int|
                    0 <= i < entries.drop_last().len() && (#[trigger] entries.drop_last()[i]).0@
                        == k;
                assert(entries.drop_last()[i] == entries[i]);
                assert((entries[i]).0@ == k);
            }
        }
        assert forall|k: Seq<char>|
            (exists|i: int| 0 <= i < entries.len() && (#[trigger] entries[i]).0@ == k) implies
            entries_map(entries).contains_key(k) by {
            let i = choose|i: int| 0 <= i < entries.len() && (#[trigger] entries[i]).0@ == k;
            if i < entries.len() - 1 {
                assert((entries.drop_last()[i]).0@ == k);
                assert(entries_map(entries.drop_last()).contains_key(k));
            }
        }
        if entries_unique(entries) {
            assert(entries_unique(entries.drop_last()));
            assert forall|i: int| 0 <= i < entries.len() implies entries_map(entries)[(
            #[trigger] entries[i]).0@] == entries[i].1 by {
                if i < entries.len() - 1 {
                    assert((entries.drop_last()[i]).0@ == entries[i].0@);
                    assert(entries[i].0@ != entries.last().0@);
                }
            }
        }
    }
}

/// Maps an in-flight job key to the OS process id of its running
/// subprocess.
pub struct ProcessRegistry {
    entries: Vec<(String, u32)>,
}

impl ProcessRegistry {
    /// The map of keys to process ids this registry holds.
    pub closed spec fn view(self) -> Map<Seq<char>, u32> {
        entries_map(self.entries@)
    }

    /// The registry's internal invariant.
    pub closed spec fn wf(self) -> bool {
        entries_unique(self.entries@)
    }

    /// An empty registry.
    pub fn new() -> (r: ProcessRegistry)
        ensures
            r.wf(),
            r@ == Map::<Seq<char>, u32>::empty(),
    {
        ProcessRegistry { entries: Vec::new() }
    }

    fn position(&self, key: &String) -> (r: Option<usize>)
        ensures
            match r {
                Some(i) => i < self.entries@.len() && self.entries@[i as int].0@ == key@,
                None => forall|i: int|
                    0 <= i < self.entries@.len() ==> (#[trigger] self.entries@[i]).0@ != key@,
            },
    {
        let mut i: usize = 0;
        while i < self.entries.len()
            invariant
                i <= self.entries@.len(),
                forall|j: int| 0 <= j < i ==> (#[trigger] self.entries@[j]).0@ != key@,
            decreases self.entries@.len() - i,
        {
            if self.entries[i].0 == *key {
                return Some(i);
            }
            i += 1;
        }
        None
    }

    /// Record the subprocess of a job, replacing any earlier record
    /// under the same key.
    pub fn insert(&mut self, key: &String, pid: u32)
        requires
            old(self).wf(),
        ensures
            final(self).wf(),
            final(self)@ == old(self)@.insert(key@, pid),
    {
        proof {
            lemma_entries_map(self.entries@);
        }
        match self.position(key) {
            Some(i) => {
                let ghost prev = self.entries@;
                let k = self.entries[i].0.clone();
                self.entries.set(i, (k, pid));
                proof {
                    assert(self.entries@[i as int].0@ == key@);
                    lemma_entries_map(self.entries@);
                    assert forall|q: Seq<char>| #![auto] entries_map(self.entries@).contains_key(q) == old(self)@.insert(key@, pid).contains_key(q) by {
                        assert forall|j: int|
                            0 <= j < prev.len() && j != i implies (#[trigger] self.entries@[j])
                            == prev[j] by {}
                        if q == key@ {
                        } else {
                            if exists|j: int| 0 <= j < prev.len() && (#[trigger] prev[j]).0@ == q {
                                let j = choose|j: int|
                                    0 <= j < prev.len() && (#[trigger] prev[j]).0@ == q;
                                assert((self.entries@[j]).0@ == q);
                            }
                            if exists|j: int|
                                0 <= j < self.entries@.len() && (#[trigger] self.entries@[j]).0@
                                    == q {
                                let j = choose|j: int|
                                    0 <= j < self.entries@.len() && (
                                    #[trigger] self.entries@[j]).0@ == q;
                                assert((prev[j]).0@ == q);
                            }
                        }
                    }
                    assert forall|q: Seq<char>|
                        entries_map(self.entries@).contains_key(q) implies #[trigger] entries_map(
                        self.entries@,
                    )[q] == old(self)@.insert(key@, pid)[q] by {
                        let j = choose|j: int|
                            0 <= j < self.entries@.len() && (#[trigger] self.entries@[j]).0@ == q;
                        if q == key@ {
                            assert(self.entries@[i as int].1 == pid);
                        } else {
                            assert((prev[j]).0@ == q && prev[j].1 == self.entries@[j].1);
                        }
                    }
                    assert(entries_map(self.entries@) =~= old(self)@.insert(key@, pid));
                }
            },
            None => {
                let ghost prev = self.entries@;
                self.entries.push((key.clone(), pid));
                proof {
                    assert(self.entries@.drop_last() =~= prev);
                    assert(self.entries@.last().0@ == key@);
                    assert(entries_map(self.entries@) =~= old(self)@.insert(key@, pid));
                }
            },
        }
    }

    /// Forget the subprocess of a job; absent keys are left alone.
    pub fn remove(&mut self, key: &String)
        requires
            old(self).wf(),
        ensures
            final(self).wf(),
            final(self)@ == old(self)@.remove(key@),
    {
        proof {
            lemma_entries_map(self.entries@);
        }
        match self.position(key) {
            Some(i) => {
                let ghost prev = self.entries@;
                self.entries.remove(i);
                proof {
                    lemma_entries_map(self.entries@);
                    assert forall|q: Seq<char>| #![auto] entries_map(self.entries@).contains_key(q) == old(self)@.remove(key@).contains_key(q) by {
                        if q != key@ {
                            if exists|j: int| 0 <= j < prev.len() && (#[trigger] prev[j]).0@ == q {
                                let j = choose|j: int|
                                    0 <= j < prev.len() && (#[trigger] prev[j]).0@ == q;
                                if j < i {
                                    assert((self.entries@[j]).0@ == q);
                                } else {
                                    assert(j != i);
                                    assert((self.entries@[j - 1]).0@ == q);
                                }
                            }
                            if exists|j: int|
                                0 <= j < self.entries@.len() && (#[trigger] self.entries@[j]).0@
                                    == q {
                                let j = choose|j: int|
                                    0 <= j < self.entries@.len() && (
                                    #[trigger] self.entries@[j]).0@ == q;
                                if j < i {
                                    assert((prev[j]).0@ == q);
                                } else {
                                    assert((prev[j + 1]).0@ == q);
                                }
                            }
                        } else {
                            if exists|j: int|
                                0 <= j < self.entries@.len() && (#[trigger] self.entries@[j]).0@
                                    == q {
                                let j = choose|j: int|
                                    0 <= j < self.entries@.len() && (
                                    #[trigger] self.entries@[j]).0@ == q;
                                if j < i {
                                    assert((prev[j]).0@ == q);
                                    assert(false);
                                } else {
                                    assert((prev[j + 1]).0@ == q);
                                    assert(false);
                                }
                            }
                        }
                    }
                    assert forall|q: Seq<char>|
                        entries_map(self.entries@).contains_key(q) implies #[trigger] entries_map(
                        self.entries@,
                    )[q] == old(self)@.remove(key@)[q] by {
                        let j = choose|j: int|
                            0 <= j < self.entries@.len() && (#[trigger] self.entries@[j]).0@ == q;
                        if j < i {
                            assert((prev[j]).0@ == q && prev[j].1 == self.entries@[j].1);
                        } else {
                            assert((prev[j + 1]).0@ == q && prev[j + 1].1 == self.entries@[j].1);
                        }
                    }
                    assert(entries_map(self.entries@) =~= old(self)@.remove(key@));
                }
            },
            None => {
                proof {
                    assert(!old(self)@.contains_key(key@));
                    assert(entries_map(self.entries@) =~= old(self)@.remove(key@));
                }
            },
        }
    }

    /// The process id recorded for a job, if any.
    pub fn get(&self, key: &String) -> (r: Option<u32>)
        requires
            self.wf(),
        ensures
            match r {
                Some(pid) => self@.contains_key(key@) && self@[key@] == pid,
                None => !self@.contains_key(key@),
            },
    {
        proof {
            lemma_entries_map(self.entries@);
        }
        match self.position(key) {
            Some(i) => Some(self.entries[i].1),
            None => None,
        }
    }
}

/// The set of keys a sequence of entries denotes.
pub open spec fn keys_set(entries: Seq<String>) -> Set<Seq<char>> {
    Set::new(|k: Seq<char>| exists|i: int| 0 <= i < entries.len() && (#[trigger] entries[i])@ == k)
}

/// The job keys marked for cancellation. Marking a key twice is the
/// same as marking it once, and unmarking an absent key changes
/// nothing.
pub struct CancelSet {
    keys: Vec<String>,
}

impl CancelSet {
    /// The set of keys held.
    pub closed spec fn view(self) -> Set<Seq<char>> {
        keys_set(self.keys@)
    }

    /// The set's internal invariant: each key is held once.
    pub closed spec fn wf(self) -> bool {
        forall|i: int, j: int|
            0 <= i < j < self.keys@.len() ==> (#[trigger] self.keys@[i])@ != (
            #[trigger] self.keys@[j])@
    }

    /// An empty set.
    pub fn new() -> (r: CancelSet)
        ensures
            r.wf(),
            r@ == Set::<Seq<char>>::empty(),
    {
        let r = CancelSet { keys: Vec::new() };
        proof {
            assert(r@ =~= Set::<Seq<char>>::empty());
        }
        r
    }

    fn position(&self, key: &String) -> (r: Option<usize>)
        ensures
            match r {
                Some(i) => i < self.keys@.len() && self.keys@[i as int]@ == key@,
                None => forall|i: int|
                    0 <= i < self.keys@.len() ==> (#[trigger] self.keys@[i])@ != key@,
            },
    {
        let mut i: usize = 0;
        while i < self.keys.len()
            invariant
                i <= self.keys@.len(),
                forall|j: int| 0 <= j < i ==> (#[trigger] self.keys@[j])@ != key@,
            decreases self.keys@.len() - i,
        {
            if self.keys[i] == *key {
                return Some(i);
            }
            i += 1;
        }
        None
    }

    /// Whether a job is marked for cancellation.
    pub fn contains(&self, key: &String) -> (r: bool)
        ensures
            r == self@.contains(key@),
    {
        self.position(key).is_some()
    }

    /// Mark a job for cancellation; marking again is a no-op.
    pub fn insert(&mut self, key: &String)
        requires
            old(self).wf(),
        ensures
            final(self).wf(),
            final(self)@ == old(self)@.insert(key@),
    {
        match self.position(key) {
            Some(_) => {
                proof {
                    assert(keys_set(self.keys@) =~= old(self)@.insert(key@));
                }
            },
            None => {
                let ghost prev = self.keys@;
                self.keys.push(key.clone());
                proof {
                    assert forall|k: Seq<char>| #![auto] keys_set(self.keys@).contains(k) == old(self)@.insert(key@).contains(k) by {
                        if k == key@ {
                            assert((self.keys@[prev.len() as int])@ == key@);
                        }
                        if exists|i: int| 0 <= i < prev.len() && (#[trigger] prev[i])@ == k {
                            let i = choose|i: int|
                                0 <= i < prev.len() && (#[trigger] prev[i])@ == k;
                            assert((self.keys@[i])@ == k);
                        }
                        if exists|i: int|
                            0 <= i < self.keys@.len() && (#[trigger] self.keys@[i])@ == k {
                            let i = choose|i: int|
                                0 <= i < self.keys@.len() && (#[trigger] self.keys@[i])@ == k;
                            if i < prev.len() {
                                assert((prev[i])@ == k);
                            }
                        }
                    }
                    assert(keys_set(self.keys@) =~= old(self)@.insert(key@));
                }
            },
        }
    }

    /// Unmark a job; unmarking an absent key is a no-op. Returns whether
    /// the key was marked.
    pub fn remove(&mut self, key: &String) -> (r: bool)
        requires
            old(self).wf(),
        ensures
            final(self).wf(),
            final(self)@ == old(self)@.remove(key@),
            r == old(self)@.contains(key@),
    {
        match self.position(key) {
            Some(i) => {
                let ghost prev = self.keys@;
                self.keys.remove(i);
                proof {
                    assert((prev[i as int])@ == key@);
                    assert forall|k: Seq<char>| #![auto] keys_set(self.keys@).contains(k) == old(self)@.remove(key@).contains(k) by {
                        if k != key@ {
                            if exists|j: int| 0 <= j < prev.len() && (#[trigger] prev[j])@ == k {
                                let j = choose|j: int|
                                    0 <= j < prev.len() && (#[trigger] prev[j])@ == k;
                                if j < i {
                                    assert((self.keys@[j])@ == k);
                                } else {
                                    assert(j != i);
                                    assert((self.keys@[j - 1])@ == k);
                                }
                            }
                            if exists|j: int|
                                0 <= j < self.keys@.len() && (#[trigger] self.keys@[j])@ == k {
                                let j = choose|j: int|
                                    0 <= j < self.keys@.len() && (#[trigger] self.keys@[j])@ == k;
                                if j < i {
                                    assert((prev[j])@ == k);
                                } else {
                                    assert((prev[j + 1])@ == k);
                                }
                            }
                        } else {
                            if exists|j: int|
                                0 <= j < self.keys@.len() && (#[trigger] self.keys@[j])@ == k {
                                let j = choose|j: int|
                                    0 <= j < self.keys@.len() && (#[trigger] self.keys@[j])@ == k;
                                if j < i {
                                    assert((prev[j])@ == key@ && (prev[i as int])@ == key@);
                                    assert(false);
                                } else {
                                    assert((prev[j + 1])@ == key@ && (prev[i as int])@ == key@);
                                    assert(false);
                                }
                            }
                        }
                    }
                    assert(keys_set(self.keys@) =~= old(self)@.remove(key@));
                }
                true
            },
            None => {
                proof {
                    assert(!old(self)@.contains(key@));
                    assert(keys_set(self.keys@) =~= old(self)@.remove(key@));
                }
                false
            },
        }
    }

    /// Unmark every job.
    pub fn clear(&mut self)
        ensures
            final(self).wf(),
            final(self)@ == Set::<Seq<char>>::empty(),
    {
        self.keys.clear();
        proof {
            assert(keys_set(self.keys@) =~= Set::<Seq<char>>::empty());
        }
    }
}

} // verus!
