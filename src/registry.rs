use crate::clock::utc_now_millis;
use crate::index::{create_hash_map, index_of, lemma_index_of_entries, NameIndex};
use crate::symbol::{names_of, Symbol};
use vstd::prelude::*;

verus! {

/// The abstract state of a registry: the server time, the stored symbols in
/// insertion order, and the name index if one has been built.
pub struct RegistryView {
    pub server_time: i64,
    pub symbols: Seq<Symbol>,
    pub index: Option<Map<Seq<char>, nat>>,
}

impl RegistryView {
    /// The names of the stored symbols, in order.
    pub open spec fn names(self) -> Seq<Seq<char>> {
        names_of(self.symbols)
    }

    /// The state after appending `sym`; the index is left as it was.
    pub open spec fn add(self, sym: Symbol) -> RegistryView {
        RegistryView { symbols: self.symbols.push(sym), ..self }
    }

    /// The state after appending each of `added` in turn.
    pub open spec fn add_all(self, added: Seq<Symbol>) -> RegistryView
        decreases added.len(),
    {
        if added.len() == 0 {
            self
        } else {
            self.add_all(added.drop_last()).add(added.last())
        }
    }

    /// The state after (re)building the index from the stored symbols.
    pub open spec fn build(self) -> RegistryView {
        RegistryView { index: Some(index_of(self.names())), ..self }
    }

    /// The state after a query that builds the index only if none exists.
    pub open spec fn ensure_built(self) -> RegistryView {
        if self.index is None {
            self.build()
        } else {
            self
        }
    }

    /// The position that the index gives for `name`: none if no index has
    /// been built or the name is not in it.
    pub open spec fn lookup(self, name: Seq<char>) -> Option<nat> {
        match self.index {
            Some(m) => if m.contains_key(name) {
                Some(m[name])
            } else {
                None
            },
            None => None,
        }
    }
}

/// A registry of symbols with a name index built on demand.
///
/// The index, once built, reflects the symbols stored at that moment; later
/// additions leave it stale until it is built again.
pub struct ExchangeInfo {
    pub server_time: i64,
    symbols: Vec<Symbol>,
    symbols_hm: Option<NameIndex>,
    built_len: Ghost<nat>,
}

impl View for ExchangeInfo {
    type V = RegistryView;

    closed spec fn view(&self) -> RegistryView {
        RegistryView {
            server_time: self.server_time,
            symbols: self.symbols@,
            index: match self.symbols_hm {
                Some(idx) => Some(idx@),
                None => None,
            },
        }
    }
}

impl Default for ExchangeInfo {
    fn default() -> (r: ExchangeInfo)
        ensures
            r.wf(),
            r@ == (RegistryView { server_time: 0, symbols: Seq::empty(), index: None }),
    {
        ExchangeInfo { server_time: 0, symbols: Vec::new(), symbols_hm: None, built_len: Ghost(0) }
    }
}

impl ExchangeInfo {
    /// A built index is the index of the first `built_len` symbols, which
    /// are still stored unchanged.
    pub closed spec fn wf(&self) -> bool {
        match self.symbols_hm {
            Some(idx) => {
                &&& idx.wf()
                &&& self.built_len@ <= self.symbols.len()
                &&& idx@ == index_of(names_of(self.symbols@.take(self.built_len@ as int)))
            },
            None => true,
        }
    }

    /// An empty registry with no index, stamped with the current time.
    pub fn new() -> (r: ExchangeInfo)
        ensures
            r.wf(),
            r@.symbols == Seq::<Symbol>::empty(),
            r@.index is None,
    {
        ExchangeInfo::new_at(utc_now_millis())
    }

    /// An empty registry with no index, stamped with server time `t`.
    pub fn new_at(t: i64) -> (r: ExchangeInfo)
        ensures
            r.wf(),
            r@ == (RegistryView { server_time: t, symbols: Seq::empty(), index: None }),
    {
        let mut ei = ExchangeInfo::default();
        ei.set_server_time(t);
        ei
    }

    /// The server time.
    pub fn server_time(&self) -> (r: i64)
        ensures
            r == self@.server_time,
    {
        self.server_time
    }

    /// Sets the server time to `t`; symbols and index are kept.
    pub fn set_server_time(&mut self, t: i64) -> (r: &Self)
        requires
            old(self).wf(),
        ensures
            final(self).wf(),
            r@ == final(self)@,
            final(self)@ == (RegistryView { server_time: t, ..old(self)@ }),
    {
        self.server_time = t;
        self
    }

    /// Sets the server time to the current time; symbols and index are kept.
    pub fn update_server_time(&mut self) -> (r: &Self)
        requires
            old(self).wf(),
        ensures
            final(self).wf(),
            r@ == final(self)@,
            final(self)@.symbols == old(self)@.symbols,
            final(self)@.index == old(self)@.index,
    {
        self.set_server_time(utc_now_millis())
    }

    /// Appends `sym`; an existing index is not rebuilt.
    pub fn add_symbol(&mut self, sym: Symbol) -> (r: &Self)
        requires
            old(self).wf(),
        ensures
            final(self).wf(),
            r@ == final(self)@,
            final(self)@ == old(self)@.add(sym),
    {
        let ghost prev = self.symbols@;
        self.symbols.push(sym);
        proof {
            if self.symbols_hm is Some {
                assert(self.symbols@.take(self.built_len@ as int) =~= prev.take(self.built_len@ as int));
            }
        }
        self
    }

    /// The stored symbols, in insertion order.
    pub fn symbols(&self) -> (r: &[Symbol])
        ensures
            r@ == self@.symbols,
    {
        self.symbols.as_slice()
    }

    /// Builds the index from the stored symbols, replacing any earlier one.
    pub fn create_symbol_hash_map(&mut self) -> (r: &Self)
        requires
            old(self).wf(),
        ensures
            final(self).wf(),
            r@ == final(self)@,
            final(self)@ == old(self)@.build(),
    {
        let idx = create_hash_map(self.symbols.as_slice());
        self.symbols_hm = Some(idx);
        self.built_len = Ghost(self.symbols.len() as nat);
        proof {
            assert(self.symbols@.take(self.symbols.len() as int) =~= self.symbols@);
        }
        self
    }

    /// Looks `name` up in the index as it stands; never builds it.
    pub fn get_symbol_via_hm(&self, name: &str) -> (r: Option<&Symbol>)
        requires
            self.wf(),
        ensures
            match self@.lookup(name@) {
                Some(p) => p < self@.symbols.len() && r == Some(&self@.symbols[p as int]),
                None => r is None,
            },
            r matches Some(s) ==> s.name@ == name@,
    {
        match &self.symbols_hm {
            None => None,
            Some(idx) => match idx.get(name) {
                None => None,
                Some(p) => {
                    proof {
                        lemma_index_of_entries(names_of(self.symbols@.take(self.built_len@ as int)));
                        assert(names_of(self.symbols@.take(self.built_len@ as int))[p as int]
                            == self.symbols@[p as int].name@);
                    }
                    Some(&self.symbols[p])
                },
            },
        }
    }

    /// Looks `name` up, first building the index if none exists yet; an
    /// existing index is used as it stands, stale or not.
    pub fn get_symbol(&mut self, name: &str) -> (r: Option<&Symbol>)
        requires
            old(self).wf(),
        ensures
            final(self).wf(),
            final(self)@ == old(self)@.ensure_built(),
            match final(self)@.lookup(name@) {
                Some(p) => p < final(self)@.symbols.len() && r == Some(&final(self)@.symbols[p as int]),
                None => r is None,
            },
            r matches Some(s) ==> s.name@ == name@,
    {
        if self.symbols_hm.is_none() {
            self.create_symbol_hash_map();
        }
        self.get_symbol_via_hm(name)
    }
}

} // verus!
