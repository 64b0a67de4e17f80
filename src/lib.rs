//! An in-memory registry of named symbols with a lazily built name index.
//!
//! Symbols are appended to the registry in order. A name index, built on
//! demand from the stored sequence, maps each name to the position of the
//! last symbol that carries it. The index is a snapshot: symbols added after
//! it was built stay invisible to it until it is built again.

mod clock;
pub mod index;
pub mod laws;
pub mod registry;
pub mod symbol;

pub use index::{create_hash_map, index_of, NameIndex};
pub use registry::{ExchangeInfo, RegistryView};
pub use symbol::{names_of, Symbol};
