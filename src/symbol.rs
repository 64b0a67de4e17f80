use vstd::prelude::*;

verus! {

/// A named entity held by the registry.
#[derive(Debug)]
pub struct Symbol {
    pub name: String,
}

impl Symbol {
    pub fn new(name: String) -> (r: Symbol)
        ensures
            r.name@ == name@,
    {
        Symbol { name }
    }
}

/// The names of a sequence of symbols, in the same order.
pub open spec fn names_of(symbols: Seq<Symbol>) -> Seq<Seq<char>> {
    symbols.map_values(|s: Symbol| s.name@)
}

} // verus!
