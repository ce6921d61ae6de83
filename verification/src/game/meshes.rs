//! The registry of mesh paths a simulation knows of, each with whether its
//! mesh has been loaded.
use vstd::prelude::*;

verus! {

/// Whether entry `i` of `entries` is the one for `key`.
pub open spec fn entry_has_key(entries: Seq<(String, bool)>, i: int, key: Seq<char>) -> bool {
    0 <= i < entries.len() && entries[i].0@ == key
}

/// The position of `key` among `entries`, if it is there.
fn position_in(entries: &Vec<(String, bool)>, key: &String) -> (res: Option<usize>)
    ensures
        match res {
            Some(i) => entry_has_key(entries@, i as int, key@),
            None => forall|i: int| !entry_has_key(entries@, i, key@),
        },
{
    let mut i: usize = 0;
    while i < entries.len()
        invariant
            i <= entries@.len(),
            forall|j: int| 0 <= j < i ==> !entry_has_key(entries@, j, key@),
        decreases entries@.len() - i,
    {
        if entries[i].0 == *key {
            return Some(i);
        }
        i = i + 1;
    }
    None
}

/// Mesh paths, each at most once, mapped to whether the mesh is loaded.
pub struct MeshRegistry {
    entries: Vec<(String, bool)>,
}

impl MeshRegistry {
    /// No path occurs twice.
    #[verifier::type_invariant]
    closed spec fn keys_distinct(&self) -> bool {
        forall|i: int, j: int|
            0 <= i < j < self.entries@.len() ==> #[trigger] self.entries@[i].0@
                != #[trigger] self.entries@[j].0@
    }
}

impl View for MeshRegistry {
    type V = Map<Seq<char>, bool>;

    closed spec fn view(&self) -> Map<Seq<char>, bool> {
        Map::new(
            |k: Seq<char>| exists|i: int| entry_has_key(self.entries@, i, k),
            |k: Seq<char>| self.entries@[choose|i: int| entry_has_key(self.entries@, i, k)].1,
        )
    }
}

impl MeshRegistry {
    /// An empty registry.
    pub fn new() -> (res: Self)
        ensures
            res@ == Map::<Seq<char>, bool>::empty(),
    {
        let res = MeshRegistry { entries: Vec::new() };
        assert(res@ =~= Map::<Seq<char>, bool>::empty());
        res
    }

    /// The position of `key` among the entries.
    fn position(&self, key: &String) -> (res: Option<usize>)
        ensures
            match res {
                Some(i) => entry_has_key(self.entries@, i as int, key@),
                None => forall|i: int| !entry_has_key(self.entries@, i, key@),
            },
    {
        position_in(&self.entries, key)
    }

    proof fn lemma_lookup_at(&self, i: int)
        requires
            self.keys_distinct(),
            0 <= i < self.entries@.len(),
        ensures
            self@.contains_key(self.entries@[i].0@),
            self@[self.entries@[i].0@] == self.entries@[i].1,
    {
        let k = self.entries@[i].0@;
        assert(entry_has_key(self.entries@, i, k));
        let j = choose|j: int| entry_has_key(self.entries@, j, k);
        if j < i {
            assert(self.entries@[j].0@ != self.entries@[i].0@);
        } else if i < j {
            assert(self.entries@[i].0@ != self.entries@[j].0@);
        }
    }

    /// Whether `key` is registered.
    pub fn contains_key(&self, key: &String) -> (res: bool)
        ensures
            res == self@.contains_key(key@),
    {
        match self.position(key) {
            Some(i) => {
                proof {
                    use_type_invariant(self);
                    self.lemma_lookup_at(i as int);
                }
                true
            },
            None => false,
        }
    }

    /// Whether the mesh of `key` is loaded, if `key` is registered.
    pub fn get(&self, key: &String) -> (res: Option<bool>)
        ensures
            res == (if self@.contains_key(key@) {
                Some(self@[key@])
            } else {
                None::<bool>
            }),
    {
        match self.position(key) {
            Some(i) => {
                proof {
                    use_type_invariant(self);
                    self.lemma_lookup_at(i as int);
                }
                Some(self.entries[i].1)
            },
            None => None,
        }
    }

    /// Registers `key` with the given loaded flag, replacing what it had.
    pub fn insert(&mut self, key: String, loaded: bool)
        ensures
            final(self)@ == old(self)@.insert(key@, loaded),
    {
        proof {
            use_type_invariant(&*self);
        }
        let ghost k = key@;
        let ghost old_entries = self.entries@;
        let ghost old_reg = *self;
        let mut entries: Vec<(String, bool)> = Vec::new();
        std::mem::swap(&mut entries, &mut self.entries);
        let ghost mut p: int = 0;
        match position_in(&entries, &key) {
            Some(i) => {
                proof {
                    p = i as int;
                }
                entries.set(i, (key, loaded));
            },
            None => {
                proof {
                    p = old_entries.len() as int;
                }
                entries.push((key, loaded));
            },
        }
        proof {
            assert(entries@[p].0@ == k && entries@[p].1 == loaded);
            assert forall|a: int, b: int|
                0 <= a < b < entries@.len() implies #[trigger] entries@[a].0@
                != #[trigger] entries@[b].0@ by {
                if b < old_entries.len() {
                    assert(old_entries[a].0@ != old_entries[b].0@);
                } else {
                    assert(!entry_has_key(old_entries, a, k));
                }
                if a < old_entries.len() && b < old_entries.len() {
                    assert(old_entries[a].0@ != old_entries[b].0@);
                }
            }
        }
        self.entries = entries;
        proof {
            use_type_invariant(&*self);
            assert(self@ =~= old(self)@.insert(k, loaded)) by {
                assert forall|x: Seq<char>| #[trigger] self@.contains_key(x) <==> old(self)@.insert(k, loaded).contains_key(x) by {
                    if self@.contains_key(x) {
                        let j = choose|j: int| entry_has_key(self.entries@, j, x);
                        if x != k {
                            assert(entry_has_key(old_entries, j, x));
                        }
                    }
                    if old(self)@.contains_key(x) && x != k {
                        let j = choose|j: int| entry_has_key(old_entries, j, x);
                        assert(entry_has_key(self.entries@, j, x));
                    }
                    if x == k {
                        assert(entry_has_key(self.entries@, p, x));
                    }
                }
                assert forall|x: Seq<char>| #[trigger] self@.contains_key(x) implies self@[x] == old(self)@.insert(k, loaded)[x] by {
                    let j = choose|j: int| entry_has_key(self.entries@, j, x);
                    self.lemma_lookup_at(j);
                    if x == k && j != p {
                        if j < p {
                            assert(self.entries@[j].0@ != self.entries@[p].0@);
                        } else {
                            assert(self.entries@[p].0@ != self.entries@[j].0@);
                        }
                    }
                    if x != k {
                        assert(entry_has_key(old_entries, j, x));
                        old_reg.lemma_lookup_at(j);
                    }
                }
            }
        }
    }
}

/// A lookup gives back what the last insertion of that path wrote, and an
/// insertion leaves every other path as it was.
pub proof fn law_mesh_registry_read_after_write(
    before: MeshRegistry,
    after: MeshRegistry,
    key: Seq<char>,
    loaded: bool,
    other: Seq<char>,
)
    requires
        after@ == before@.insert(key, loaded),
    ensures
        after@.contains_key(key),
        after@[key] == loaded,
        other != key ==> after@.contains_key(other) == before@.contains_key(other),
        other != key && before@.contains_key(other) ==> after@[other] == before@[other],
{
}

} // verus!
