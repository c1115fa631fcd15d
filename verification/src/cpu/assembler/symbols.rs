//! The labels an assembly source defines and the values they stand for.
use vstd::prelude::*;

verus! {

/// A table from label names to values, each name at most once.
pub struct SymbolTable<'a> {
    entries: Vec<(&'a [u8], usize)>,
}

impl<'a> SymbolTable<'a> {
    #[verifier::type_invariant]
    spec fn names_unique(self) -> bool {
        forall|i: int, j: int|
            0 <= i < j < self.entries@.len() ==> self.entries@[i].0@ != self.entries@[j].0@
    }

    spec fn holds(self, name: Seq<u8>) -> bool {
        exists|i: int| 0 <= i < self.entries@.len() && self.entries@[i].0@ == name
    }

    /// The names defined and their values.
    pub closed spec fn view(&self) -> Map<Seq<u8>, usize> {
        Map::new(
            |name: Seq<u8>| self.holds(name),
            |name: Seq<u8>|
                self.entries@[choose|i: int| 0 <= i < self.entries@.len() && self.entries@[i].0@ == name].1,
        )
    }

    proof fn lemma_entry(self, i: int)
        requires
            self.names_unique(),
            0 <= i < self.entries@.len(),
        ensures
            self@.contains_key(self.entries@[i].0@),
            self@[self.entries@[i].0@] == self.entries@[i].1,
    {
        let name = self.entries@[i].0@;
        assert(self.holds(name));
        let j = choose|j: int| 0 <= j < self.entries@.len() && self.entries@[j].0@ == name;
        if j != i {
            if j < i {
                assert(self.entries@[j].0@ != self.entries@[i].0@);
            } else {
                assert(self.entries@[i].0@ != self.entries@[j].0@);
            }
        }
    }

    pub fn new() -> (t: Self)
        ensures
            t@ == Map::<Seq<u8>, usize>::empty(),
    {
        let t = SymbolTable { entries: Vec::new() };
        assert(t@ =~= Map::<Seq<u8>, usize>::empty());
        t
    }

    /// Where `name` stands in the table.
    fn position_of(&self, name: &[u8]) -> (r: Option<usize>)
        ensures
            match r {
                Some(i) => i < self.entries@.len() && self.entries@[i as int].0@ == name@,
                None => !self.holds(name@),
            },
    {
        let mut i: usize = 0;
        while i < self.entries.len()
            invariant
                0 <= i <= self.entries@.len(),
                forall|k: int| 0 <= k < i ==> self.entries@[k].0@ != name@,
            decreases self.entries@.len() - i,
        {
            if same_bytes(self.entries[i].0, name) {
                return Some(i);
            }
            i = i + 1;
        }
        None
    }

    pub fn contains_key(&self, name: &[u8]) -> (r: bool)
        ensures
            r == self@.contains_key(name@),
    {
        self.position_of(name).is_some()
    }

    pub fn get(&self, name: &[u8]) -> (r: Option<usize>)
        ensures
            r == (if self@.contains_key(name@) {
                Some(self@[name@])
            } else {
                None::<usize>
            }),
    {
        proof {
            use_type_invariant(self);
        }
        match self.position_of(name) {
            Some(i) => {
                proof {
                    self.lemma_entry(i as int);
                }
                Some(self.entries[i].1)
            },
            None => None,
        }
    }

    /// Adds a name that is not yet defined.
    pub fn insert(&mut self, name: &'a [u8], value: usize)
        requires
            !old(self)@.contains_key(name@),
        ensures
            final(self)@ == old(self)@.insert(name@, value),
    {
        proof {
            use_type_invariant(&*self);
        }
        let ghost before = *self;
        let mut entries: Vec<(&'a [u8], usize)> = Vec::new();
        std::mem::swap(&mut entries, &mut self.entries);
        entries.push((name, value));
        proof {
            assert forall|i: int, j: int| 0 <= i < j < entries@.len() implies entries@[i].0@ != entries@[j].0@ by {
                if j == before.entries@.len() {
                    assert(before.entries@[i].0@ != name@) by {
                        if before.entries@[i].0@ == name@ {
                            before.lemma_entry(i);
                        }
                    }
                }
            }
        }
        self.entries = entries;
        proof {
            let after = *self;
            assert forall|k: Seq<u8>| #[trigger] after.holds(k) == before@.insert(name@, value).contains_key(k) by {
                if after.holds(k) && k != name@ {
                    let i = choose|i: int| 0 <= i < after.entries@.len() && after.entries@[i].0@ == k;
                    assert(before.entries@[i].0@ == k);
                }
                if before.holds(k) {
                    let i = choose|i: int| 0 <= i < before.entries@.len() && before.entries@[i].0@ == k;
                    assert(after.entries@[i].0@ == k);
                }
                if k == name@ {
                    assert(after.entries@[before.entries@.len() as int].0@ == k);
                }
            }
            assert forall|k: Seq<u8>| after.holds(k) implies #[trigger] after@[k] == before@.insert(name@, value)[k] by {
                let i = choose|i: int| 0 <= i < after.entries@.len() && after.entries@[i].0@ == k;
                after.lemma_entry(i);
                if k != name@ {
                    assert(before.entries@[i].0@ == k);
                    before.lemma_entry(i);
                }
            }
            assert(after@ =~= before@.insert(name@, value));
        }
    }
}

/// Whether two byte strings are equal.
pub fn same_bytes(a: &[u8], b: &[u8]) -> (r: bool)
    ensures
        r == (a@ == b@),
{
    if a.len() != b.len() {
        return false;
    }
    let mut i: usize = 0;
    while i < a.len()
        invariant
            a@.len() == b@.len(),
            0 <= i <= a@.len(),
            forall|j: int| 0 <= j < i ==> a@[j] == b@[j],
        decreases a@.len() - i,
    {
        if a[i] != b[i] {
            return false;
        }
        i = i + 1;
    }
    assert(a@ =~= b@);
    true
}

} // verus!
