use symbol_registry::{create_hash_map, ExchangeInfo, NameIndex, Symbol};

fn registry_of(names: &[&str]) -> ExchangeInfo {
    let mut ei = ExchangeInfo::new();
    for n in names {
        ei.add_symbol(Symbol::new(n.to_string()));
    }
    ei
}

fn position_in(ei: &ExchangeInfo, found: Option<&Symbol>) -> Option<usize> {
    let found = found?;
    ei.symbols().iter().position(|s| std::ptr::eq(s, found))
}

#[test]
fn symbol_new_keeps_name() {
    let s = Symbol::new("BTCUSD".to_string());
    assert_eq!(s.name, "BTCUSD");
}

#[test]
fn default_registry_is_empty_at_time_zero() {
    let ei = ExchangeInfo::default();
    assert_eq!(ei.server_time, 0);
    assert!(ei.symbols().is_empty());
    assert!(ei.get_symbol_via_hm("BTCUSD").is_none());
}

#[test]
fn new_registry_reads_the_clock() {
    let ei = ExchangeInfo::new();
    // 2020-01-01T00:00:00Z in milliseconds: any real clock is past it.
    assert!(ei.server_time > 1_577_836_800_000);
    assert!(ei.symbols().is_empty());
}

#[test]
fn update_server_time_keeps_symbols() {
    let mut ei = registry_of(&["BTCUSD"]);
    ei.server_time = 5;
    ei.update_server_time();
    assert!(ei.server_time > 1_577_836_800_000);
    assert_eq!(ei.symbols().len(), 1);
    assert_eq!(ei.symbols()[0].name, "BTCUSD");
}

#[test]
fn add_symbol_keeps_insertion_order() {
    let ei = registry_of(&["BTCUSD", "BNBUSD", "ETHUSD"]);
    let names: Vec<&str> = ei.symbols().iter().map(|s| s.name.as_str()).collect();
    assert_eq!(names, vec!["BTCUSD", "BNBUSD", "ETHUSD"]);
}

#[test]
fn scenario_build_then_lookup_via_index() {
    let mut ei = registry_of(&["BTCUSD", "BNBUSD"]);
    ei.create_symbol_hash_map();
    assert_eq!(ei.get_symbol_via_hm("BTCUSD").map(|s| s.name.as_str()), Some("BTCUSD"));
    assert_eq!(ei.get_symbol_via_hm("BNBUSD").map(|s| s.name.as_str()), Some("BNBUSD"));
    assert!(ei.get_symbol_via_hm("XYZUSD").is_none());
}

#[test]
fn scenario_lookup_auto_on_empty_then_after_rebuild() {
    let mut ei = ExchangeInfo::new();
    assert!(ei.get_symbol("BNBUSD").is_none());
    ei.add_symbol(Symbol::new("BNBUSD".to_string()));
    ei.create_symbol_hash_map();
    assert_eq!(ei.get_symbol("BNBUSD").map(|s| s.name.as_str()), Some("BNBUSD"));
}

#[test]
fn round_trip_finds_every_added_name_and_no_other() {
    let names = ["A", "BB", "CCC", "BB", "D"];
    let mut ei = registry_of(&names);
    ei.create_symbol_hash_map();
    for n in names {
        assert_eq!(ei.get_symbol_via_hm(n).map(|s| s.name.as_str()), Some(n));
    }
    for n in ["", "E", "AB", "bb", "CC"] {
        assert!(ei.get_symbol_via_hm(n).is_none());
    }
}

#[test]
fn building_twice_gives_the_same_lookups() {
    let mut once = registry_of(&["X", "Y", "X"]);
    once.create_symbol_hash_map();
    let mut twice = registry_of(&["X", "Y", "X"]);
    twice.create_symbol_hash_map();
    twice.create_symbol_hash_map();
    assert_eq!(position_in(&twice, twice.get_symbol_via_hm("X")), Some(2));
    for n in ["X", "Y", "Z"] {
        let a = position_in(&once, once.get_symbol_via_hm(n));
        let b = position_in(&twice, twice.get_symbol_via_hm(n));
        assert_eq!(a, b);
    }
}

#[test]
fn symbol_added_after_build_stays_hidden_until_rebuild() {
    let mut ei = registry_of(&["BTCUSD"]);
    ei.create_symbol_hash_map();
    ei.add_symbol(Symbol::new("BNBUSD".to_string()));
    assert!(ei.get_symbol_via_hm("BNBUSD").is_none());
    assert!(ei.get_symbol_via_hm("BTCUSD").is_some());
    ei.create_symbol_hash_map();
    assert_eq!(ei.get_symbol_via_hm("BNBUSD").map(|s| s.name.as_str()), Some("BNBUSD"));
}

#[test]
fn duplicate_added_after_build_is_not_found_until_rebuild() {
    let mut ei = registry_of(&["BTCUSD"]);
    ei.create_symbol_hash_map();
    ei.add_symbol(Symbol::new("BTCUSD".to_string()));
    let found = ei.get_symbol_via_hm("BTCUSD").unwrap();
    assert!(std::ptr::eq(found, &ei.symbols()[0]));
    ei.create_symbol_hash_map();
    let found = ei.get_symbol_via_hm("BTCUSD").unwrap();
    assert!(std::ptr::eq(found, &ei.symbols()[1]));
}

#[test]
fn later_duplicate_wins() {
    let mut ei = registry_of(&["BTCUSD", "BNBUSD", "BTCUSD"]);
    ei.create_symbol_hash_map();
    let found = ei.get_symbol_via_hm("BTCUSD").unwrap();
    assert!(std::ptr::eq(found, &ei.symbols()[2]));
    assert!(!std::ptr::eq(found, &ei.symbols()[0]));
}

#[test]
fn empty_registry_finds_nothing_after_build() {
    let mut ei = ExchangeInfo::new();
    ei.create_symbol_hash_map();
    for n in ["", "BTCUSD", "BNBUSD", "XYZUSD"] {
        assert!(ei.get_symbol_via_hm(n).is_none());
    }
}

#[test]
fn lookup_via_index_before_any_build_finds_nothing() {
    let ei = registry_of(&["BTCUSD", "BNBUSD"]);
    assert!(ei.get_symbol_via_hm("BTCUSD").is_none());
    assert!(ei.get_symbol_via_hm("BNBUSD").is_none());
}

#[test]
fn lookup_auto_builds_when_no_index() {
    let mut ei = registry_of(&["BTCUSD", "BNBUSD"]);
    assert_eq!(ei.get_symbol("BNBUSD").map(|s| s.name.as_str()), Some("BNBUSD"));
    assert_eq!(ei.get_symbol_via_hm("BTCUSD").map(|s| s.name.as_str()), Some("BTCUSD"));
}

#[test]
fn lookup_auto_uses_an_existing_index_as_it_stands() {
    let mut ei = ExchangeInfo::new();
    assert!(ei.get_symbol("BNBUSD").is_none());
    ei.add_symbol(Symbol::new("BNBUSD".to_string()));
    assert!(ei.get_symbol("BNBUSD").is_none());
}

#[test]
fn create_hash_map_maps_names_to_last_positions() {
    let symbols = vec![
        Symbol::new("A".to_string()),
        Symbol::new("B".to_string()),
        Symbol::new("A".to_string()),
        Symbol::new("C".to_string()),
    ];
    let idx = create_hash_map(&symbols);
    assert_eq!(idx.get("A"), Some(2));
    assert_eq!(idx.get("B"), Some(1));
    assert_eq!(idx.get("C"), Some(3));
    assert_eq!(idx.get("D"), None);
}

#[test]
fn empty_name_index_has_no_entries() {
    let idx = NameIndex::new();
    assert_eq!(idx.get(""), None);
    assert_eq!(create_hash_map(&[]).get("A"), None);
}

#[test]
fn new_at_stamps_the_given_time() {
    let ei = ExchangeInfo::new_at(1_700_000_000_123);
    assert_eq!(ei.server_time(), 1_700_000_000_123);
    assert!(ei.symbols().is_empty());
    assert!(ei.get_symbol_via_hm("BTCUSD").is_none());
}

#[test]
fn set_server_time_keeps_symbols_and_index() {
    let mut ei = registry_of(&["BTCUSD"]);
    ei.create_symbol_hash_map();
    ei.set_server_time(-42);
    assert_eq!(ei.server_time(), -42);
    assert_eq!(ei.symbols().len(), 1);
    assert_eq!(ei.get_symbol_via_hm("BTCUSD").map(|s| s.name.as_str()), Some("BTCUSD"));
}

#[test]
fn server_time_getter_reads_the_field() {
    let mut ei = ExchangeInfo::default();
    assert_eq!(ei.server_time(), 0);
    ei.server_time = 7;
    assert_eq!(ei.server_time(), 7);
}
