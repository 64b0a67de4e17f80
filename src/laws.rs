//! Laws of the registry, stated over its abstract state.
use crate::index::{index_of, lemma_index_of_entries};
use crate::registry::RegistryView;
use crate::symbol::{names_of, Symbol};
use vstd::prelude::*;

verus! {

/// Adding symbols one at a time appends them in order and leaves the server
/// time and the index untouched.
pub proof fn lemma_add_all(v: RegistryView, added: Seq<Symbol>)
    ensures
        v.add_all(added).symbols == v.symbols + added,
        v.add_all(added).server_time == v.server_time,
        v.add_all(added).index == v.index,
    decreases added.len(),
{
    if added.len() > 0 {
        lemma_add_all(v, added.drop_last());
        assert(v.symbols + added =~= (v.symbols + added.drop_last()).push(added.last()));
    }
}

/// The names of two sequences joined are the names of each, joined.
pub proof fn lemma_names_of_concat(a: Seq<Symbol>, b: Seq<Symbol>)
    ensures
        names_of(a + b) == names_of(a) + names_of(b),
{
    assert(names_of(a + b) =~= names_of(a) + names_of(b));
}

/// Round trip: after any symbols are added and the index is built, a lookup
/// finds a name exactly when it was added at some point, and what it finds
/// is a stored symbol of that name.
pub proof fn lemma_round_trip(start: RegistryView, added: Seq<Symbol>, name: Seq<char>)
    ensures
        ({
            let v = start.add_all(added).build();
            &&& v.lookup(name) is Some <==> (start.names().contains(name) || names_of(
                added,
            ).contains(name))
            &&& v.lookup(name) matches Some(p) ==> p < v.symbols.len() && v.symbols[p as int].name@
                == name
        }),
{
    let v = start.add_all(added).build();
    lemma_add_all(start, added);
    lemma_names_of_concat(start.symbols, added);
    let names = v.names();
    assert(names == start.names() + names_of(added));
    lemma_index_of_entries(names);
    if start.names().contains(name) {
        let q = choose|q: int| 0 <= q < start.names().len() && start.names()[q] == name;
        assert(names[q] == name);
    }
    if names_of(added).contains(name) {
        let q = choose|q: int| 0 <= q < names_of(added).len() && names_of(added)[q] == name;
        assert(names[start.names().len() + q] == name);
    }
    if names.contains(name) {
        let q = choose|q: int| 0 <= q < names.len() && names[q] == name;
        if q < start.names().len() {
            assert(start.names()[q] == name);
        } else {
            assert(names_of(added)[q - start.names().len()] == name);
        }
    }
}

/// Building the index twice in a row gives the same state as building it once.
pub proof fn lemma_build_idempotent(v: RegistryView)
    ensures
        v.build().build() == v.build(),
{
}

/// A symbol added after the index was built changes no lookup until the
/// index is built again: in particular the new symbol is never the one found.
pub proof fn lemma_add_after_build_is_stale(v: RegistryView, sym: Symbol, name: Seq<char>)
    ensures
        v.build().add(sym).lookup(name) == v.build().lookup(name),
        v.build().add(sym).lookup(name) != Some(v.symbols.len()),
        !v.names().contains(sym.name@) ==> v.build().add(sym).lookup(sym.name@) is None,
{
    lemma_index_of_entries(v.names());
}

/// Of two symbols with the same name, the one added later is the one that a
/// lookup finds once the index is built, whatever was added in between.
pub proof fn lemma_later_duplicate_wins(
    v: RegistryView,
    first: Symbol,
    between: Seq<Symbol>,
    second: Symbol,
)
    requires
        first.name@ == second.name@,
        !names_of(between).contains(second.name@),
    ensures
        v.add(first).add_all(between).add(second).build().lookup(second.name@) == Some(
            (v.symbols.len() + between.len() + 1) as nat,
        ),
{
    let w = v.add(first).add_all(between).add(second);
    lemma_add_all(v.add(first), between);
    let names = w.names();
    assert(names.drop_last() =~= names_of(v.add(first).add_all(between).symbols));
    assert(names.last() == second.name@);
    assert(index_of(names) == index_of(names.drop_last()).insert(names.last(), (names.len() - 1) as nat));
}

/// A registry with no symbols, once indexed, finds no name at all.
pub proof fn lemma_empty_registry_finds_nothing(v: RegistryView, name: Seq<char>)
    requires
        v.symbols.len() == 0,
    ensures
        v.build().lookup(name) is None,
{
    assert(v.names().len() == 0);
}

} // verus!
