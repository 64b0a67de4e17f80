use crate::symbol::{names_of, Symbol};
use vstd::prelude::*;

verus! {

/// The index of a sequence of names: the names are taken in order and each
/// one overwrites any earlier entry, so every name maps to the position of
/// its last occurrence.
pub open spec fn index_of(names: Seq<Seq<char>>) -> Map<Seq<char>, nat>
    decreases names.len(),
{
    if names.len() == 0 {
        Map::empty()
    } else {
        index_of(names.drop_last()).insert(names.last(), (names.len() - 1) as nat)
    }
}

/// The index of `names` holds exactly the names that occur in it, and maps
/// each one to the position of its last occurrence.
pub proof fn lemma_index_of_entries(names: Seq<Seq<char>>)
    ensures
        forall|k: Seq<char>| #[trigger] index_of(names).contains_key(k) <==> names.contains(k),
        forall|k: Seq<char>| #[trigger]
            index_of(names).contains_key(k) ==> {
                let p = index_of(names)[k];
                &&& p < names.len()
                &&& names[p as int] == k
                &&& forall|q: int| p < q < names.len() ==> names[q] != k
            },
    decreases names.len(),
{
    if names.len() > 0 {
        let init = names.drop_last();
        let last = (names.len() - 1) as int;
        lemma_index_of_entries(init);
        assert(index_of(names) == index_of(init).insert(names[last], last as nat));
        assert forall|k: Seq<char>| #[trigger] index_of(names).contains_key(k) implies {
            let p = index_of(names)[k];
            &&& p < names.len()
            &&& names[p as int] == k
            &&& forall|q: int| p < q < names.len() ==> names[q] != k
        } by {
            if k != names[last] {
                assert(index_of(init).contains_key(k));
                let p = index_of(init)[k];
                assert(init[p as int] == k);
                assert forall|q: int| p < q < names.len() implies names[q] != k by {
                    if q < last {
                        assert(init[q] == names[q]);
                    }
                }
            }
        }
        assert forall|k: Seq<char>| #[trigger] index_of(names).contains_key(k) <==> names.contains(k) by {
            if names.contains(k) && k != names[last] {
                let q = choose|q: int| 0 <= q < names.len() && names[q] == k;
                assert(init[q] == k);
                assert(init.contains(k));
            }
            if index_of(names).contains_key(k) && k != names[last] {
                assert(index_of(init).contains_key(k));
                let q = choose|q: int| 0 <= q < init.len() && init[q] == k;
                assert(names[q] == k);
            }
        }
    }
}

/// Every key of a map whose keys all occur in `prev_names` still occurs,
/// after `name` is inserted, in any extension `names` of `prev_names` that
/// holds `name` at `at`.
proof fn lemma_keys_after_insert(
    prev: Map<Seq<char>, nat>,
    prev_names: Seq<String>,
    names: Seq<String>,
    name: Seq<char>,
    pos: nat,
    at: int,
)
    requires
        forall|k: Seq<char>| #[trigger]
            prev.contains_key(k) ==> exists|m: int| 0 <= m < prev_names.len() && prev_names[m]@ == k,
        prev_names.len() <= names.len(),
        forall|m: int| 0 <= m < prev_names.len() ==> names[m] == prev_names[m],
        0 <= at < names.len(),
        names[at]@ == name,
    ensures
        forall|k: Seq<char>| #[trigger]
            prev.insert(name, pos).contains_key(k) ==> exists|m: int| 0 <= m < names.len() && names[m]@ == k,
{
    assert forall|k: Seq<char>| #[trigger] prev.insert(name, pos).contains_key(k) implies exists|m: int|
        0 <= m < names.len() && names[m]@ == k by {
        if k != name {
            assert(prev.contains_key(k));
            let m = choose|m: int| 0 <= m < prev_names.len() && prev_names[m]@ == k;
            assert(names[m]@ == k);
        } else {
            assert(names[at]@ == k);
        }
    }
}

/// A map from names to positions in a symbol sequence.
///
/// Entries are kept as parallel vectors of distinct names and their
/// positions; the ghost map is the abstract content. vstd specifies
/// `HashMap` only for keys with a known hashing model, which `String` lacks,
/// so the entries are searched by name instead.
pub struct NameIndex {
    names: Vec<String>,
    slots: Vec<usize>,
    map: Ghost<Map<Seq<char>, nat>>,
}

impl View for NameIndex {
    type V = Map<Seq<char>, nat>;

    closed spec fn view(&self) -> Map<Seq<char>, nat> {
        self.map@
    }
}

impl NameIndex {
    /// The entries' names are distinct, and they and their positions are
    /// exactly the ghost map.
    pub closed spec fn wf(&self) -> bool {
        &&& self.names.len() == self.slots.len()
        &&& forall|i: int, j: int|
            0 <= i < j < self.names.len() ==> #[trigger] self.names@[i]@ != #[trigger] self.names@[j]@
        &&& forall|j: int|
            0 <= j < self.names.len() ==> {
                &&& self.map@.contains_key(#[trigger] self.names@[j]@)
                &&& self.map@[self.names@[j]@] == self.slots@[j] as nat
            }
        &&& forall|k: Seq<char>| #[trigger]
            self.map@.contains_key(k) ==> exists|j: int|
                0 <= j < self.names.len() && self.names@[j]@ == k
    }

    /// An index with no entries.
    pub fn new() -> (r: NameIndex)
        ensures
            r.wf(),
            r@ == Map::<Seq<char>, nat>::empty(),
    {
        NameIndex { names: Vec::new(), slots: Vec::new(), map: Ghost(Map::empty()) }
    }

    /// The position stored under `name`, if there is one.
    pub fn get(&self, name: &str) -> (r: Option<usize>)
        requires
            self.wf(),
        ensures
            match r {
                Some(p) => self@.contains_key(name@) && self@[name@] == p as nat,
                None => !self@.contains_key(name@),
            },
    {
        let key = name.to_owned();
        let mut j: usize = 0;
        while j < self.names.len()
            invariant
                j <= self.names.len(),
                key@ == name@,
                self.wf(),
                forall|k: int| 0 <= k < j ==> self.names@[k]@ != name@,
            decreases self.names.len() - j,
        {
            if self.names[j] == key {
                return Some(self.slots[j]);
            }
            j = j + 1;
        }
        None
    }

    /// Stores `pos` under `name`, replacing any earlier entry for that name.
    fn set(&mut self, name: &String, pos: usize)
        requires
            old(self).wf(),
        ensures
            final(self).wf(),
            final(self)@ == old(self)@.insert(name@, pos as nat),
    {
        let mut j: usize = 0;
        while j < self.names.len()
            invariant
                j <= self.names.len(),
                self.wf(),
                self == old(self),
                forall|k: int| 0 <= k < j ==> self.names@[k]@ != name@,
            decreases self.names.len() - j,
        {
            if self.names[j] == *name {
                let ghost prev = self.map@;
                let ghost prev_names = self.names@;
                self.slots.set(j, pos);
                self.map = Ghost(self.map@.insert(name@, pos as nat));
                proof {
                    lemma_keys_after_insert(prev, prev_names, self.names@, name@, pos as nat, j as int);
                }
                return;
            }
            j = j + 1;
        }
        let ghost prev = self.map@;
        let ghost prev_names = self.names@;
        self.names.push(name.clone());
        self.slots.push(pos);
        self.map = Ghost(self.map@.insert(name@, pos as nat));
        proof {
            let last = self.names.len() - 1;
            assert(self.names@[last]@ == name@);
            assert forall|j: int| 0 <= j < last implies self.names@[j] == prev_names[j] by {}
            lemma_keys_after_insert(prev, prev_names, self.names@, name@, pos as nat, last);
        }
    }
}

/// Builds the index of `symbols` in one pass: each name maps to the
/// position of the last symbol that carries it.
pub fn create_hash_map(symbols: &[Symbol]) -> (r: NameIndex)
    ensures
        r.wf(),
        r@ == index_of(names_of(symbols@)),
{
    let mut idx = NameIndex::new();
    let mut i: usize = 0;
    while i < symbols.len()
        invariant
            i <= symbols@.len(),
            idx.wf(),
            idx@ == index_of(names_of(symbols@.take(i as int))),
        decreases symbols@.len() - i,
    {
        idx.set(&symbols[i].name, i);
        proof {
            let before = names_of(symbols@.take(i as int));
            let after = names_of(symbols@.take(i as int + 1));
            assert(after.drop_last() =~= before);
            assert(after.last() == symbols@[i as int].name@);
        }
        i = i + 1;
    }
    proof {
        assert(symbols@.take(i as int) =~= symbols@);
    }
    idx
}

} // verus!
