use uid_relation_system::kernel::symbol_map::{
    get_base_symbol_for_uid, get_global_uid, get_uid_in_context, knows_all_names,
    pre_register_system_symbols, pre_registered_names, register_all, register_global_symbol,
    Context, SymbolError, SymbolMapping, SymbolStats, SymbolTable,
};
use uid_relation_system::kernel::types::UID;
use uid_relation_system::kernel::uid_gen::{
    next_global_uid, HostAddress, Step, UIDGenerator, UIDGeneratorConfig, CUSTOM_EPOCH,
    MAX_TIMESTAMP_OFFSET,
};

fn new_generator() -> UIDGenerator {
    UIDGenerator::new(UIDGeneratorConfig::for_host(&Some(vec![HostAddress::V4(0x0A00_0001)]), 7))
}

fn sorted(mut names: Vec<String>) -> Vec<String> {
    names.sort();
    names
}

fn domain(name: &str) -> Context {
    Context::Domain(name.to_string())
}

#[test]
fn test_symbol_registration() {
    let mut generator = new_generator();
    let mut table = SymbolTable::new();

    let uid1 = table.register_symbol("test", Context::Global, &mut generator).unwrap();
    let uid2 =
        table.register_symbol("test", Context::Domain("math".to_string()), &mut generator).unwrap();

    assert_ne!(uid1, uid2);

    let uid1_again = table.register_symbol("test", Context::Global, &mut generator).unwrap();
    assert_eq!(uid1, uid1_again);
}

#[test]
fn test_one_symbol_multiple_uids() {
    let mut generator = new_generator();
    let mut table = SymbolTable::new();

    let uid_global = table.register_symbol("pi", Context::Global, &mut generator).unwrap();
    let uid_math =
        table.register_symbol("pi", Context::Domain("math".to_string()), &mut generator).unwrap();
    let uid_physics = table
        .register_symbol("pi", Context::Domain("physics".to_string()), &mut generator)
        .unwrap();

    assert_ne!(uid_global, uid_math);
    assert_ne!(uid_global, uid_physics);
    assert_ne!(uid_math, uid_physics);

    assert_eq!(table.get_uid("pi", &Context::Global).unwrap(), uid_global);
    assert_eq!(table.get_uid("pi", &Context::Domain("math".to_string())).unwrap(), uid_math);
}

#[test]
fn test_multiple_symbols_same_uid() {
    let mut generator = new_generator();
    let mut table = SymbolTable::new();

    let custom_uid = next_global_uid(&mut generator).unwrap();

    table.set_mapping("apple", Context::Global, custom_uid).unwrap();
    table.set_mapping("pomme", Context::Global, custom_uid).unwrap();

    let uid1 = table.get_uid("apple", &Context::Global).unwrap();
    let uid2 = table.get_uid("pomme", &Context::Global).unwrap();

    assert_eq!(uid1, uid2);
    assert_eq!(uid1, custom_uid);

    let symbols = table.get_symbols_for_uid(custom_uid);
    assert!(symbols.contains(&"apple".to_string()));
    assert!(symbols.contains(&"pomme".to_string()));
    assert_eq!(symbols.len(), 2);
}

#[test]
fn test_context_isolation() {
    let mut generator = new_generator();
    let mut table = SymbolTable::new();

    table.register_symbol("root", Context::Domain("math".to_string()), &mut generator).unwrap();
    table.register_symbol("root", Context::Domain("botany".to_string()), &mut generator).unwrap();

    let math_uid = table.get_uid("root", &Context::Domain("math".to_string()));
    let botany_uid = table.get_uid("root", &Context::Domain("botany".to_string()));

    assert!(math_uid.is_some());
    assert!(botany_uid.is_some());
    assert_ne!(math_uid.unwrap(), botany_uid.unwrap());
}

#[test]
fn test_global_symbol_table() {
    let mut generator = new_generator();
    let mut table = SymbolTable::new();

    let uid = register_global_symbol(&mut table, &mut generator, "global_test").unwrap();
    let retrieved = get_global_uid(&mut table, "global_test").unwrap();

    assert_eq!(uid, retrieved);

    let symbol = get_base_symbol_for_uid(&mut table, uid).unwrap();
    assert_eq!(symbol, "global_test");
}

#[test]
fn test_case_insensitive() {
    let mut generator = new_generator();
    let mut table = SymbolTable::new();

    let uid1 = table.register_symbol("Hello", Context::Global, &mut generator).unwrap();
    let uid2 = table.register_symbol("hello", Context::Global, &mut generator).unwrap();
    let uid3 = table.register_symbol("HELLO", Context::Global, &mut generator).unwrap();

    assert_eq!(uid1, uid2);
    assert_eq!(uid2, uid3);

    assert_eq!(table.get_uid("Hello", &Context::Global).unwrap(), uid1);
    assert_eq!(table.get_uid("hello", &Context::Global).unwrap(), uid1);
    assert_eq!(table.get_uid("HELLO", &Context::Global).unwrap(), uid1);
}

#[test]
fn test_cleanup() {
    let mut generator = new_generator();
    let mut table = SymbolTable::new();

    for i in 0..100 {
        let symbol = format!("symbol_{}", i);
        table.register_symbol(&symbol, Context::Global, &mut generator).unwrap();
    }

    let initial_count = table.get_stats().total_symbols;

    let removed = table.cleanup(0, 0);

    println!("Initial: {}, Removed: {}", initial_count, removed);

    assert!(removed <= initial_count);
}

#[test]
fn cleanup_takes_the_count_of_names_down_by_what_it_removed() {
    let mut generator = new_generator();
    let mut table = SymbolTable::new();
    for i in 0..100 {
        let symbol = format!("symbol_{}", i);
        table.register_symbol(&symbol, Context::Global, &mut generator).unwrap();
    }
    let before = table.get_stats().total_symbols;
    assert_eq!(before, 100);
    let removed = table.cleanup(0, 0);
    assert!(removed <= 100);
    assert_eq!(table.get_stats().total_symbols, before - removed);
    assert_eq!(table.get_all_symbols().len(), before - removed);
    assert_eq!(table.get_stats().cleanup_count, 1);
}

#[test]
fn names_are_stored_in_lower_case() {
    let mut generator = new_generator();
    let mut table = SymbolTable::new();
    let uid = table.register_symbol("MiXeD Case", Context::Global, &mut generator).unwrap();
    assert_eq!(table.get_all_symbols(), vec!["mixed case".to_string()]);
    assert_eq!(table.get_symbols_for_uid(uid), vec!["mixed case".to_string()]);
    assert_eq!(table.get_base_symbol(uid), Some("mixed case".to_string()));
    assert_eq!(table.peek("MIXED CASE", &Context::Global), Some(uid));
}

#[test]
fn registering_twice_returns_the_same_identifier() {
    let mut generator = new_generator();
    let mut table = SymbolTable::new();
    let first = table.register_symbol("Test", Context::Global, &mut generator).unwrap();
    let second = table.register_symbol("Test", Context::Global, &mut generator).unwrap();
    assert_eq!(first, second);
    let stats = table.get_stats();
    assert_eq!(stats.total_symbols, 1);
    assert_eq!(stats.unique_uids, 1);
    assert_eq!(stats.cache_hits, 1);
    assert_eq!(stats.lookups, 0);
}

#[test]
fn a_new_registry_is_empty() {
    let mut table = SymbolTable::new();
    let stats = table.get_stats();
    assert_eq!(stats.total_symbols, 0);
    assert_eq!(stats.unique_uids, 0);
    assert_eq!(stats.lookups, 0);
    assert_eq!(stats.cache_hits, 0);
    assert_eq!(stats.cleanup_count, 0);
    assert!(table.get_all_symbols().is_empty());
    assert!(table.get_symbols_for_uid(UID(1)).is_empty());
    assert_eq!(table.get_base_symbol(UID(1)), None);
    assert_eq!(table.get_uid("nothing", &Context::Global), None);
    assert!(!table.remove_mapping("nothing", &Context::Global));
    assert_eq!(table.cleanup_at(0, 0, 1_000), 0);
}

#[test]
fn new_stats_are_zero() {
    let stats = SymbolStats::new();
    assert_eq!(stats.total_symbols, 0);
    assert_eq!(stats.unique_uids, 0);
    assert_eq!(stats.lookups, 0);
    assert_eq!(stats.cache_hits, 0);
    assert_eq!(stats.cleanup_count, 0);
}

#[test]
fn look_ups_and_hits_are_counted() {
    let mut table = SymbolTable::new();
    table.set_mapping_at("a", Context::Global, UID(1), 10).unwrap();
    assert_eq!(table.get_uid_at("a", &Context::Global, 11), Some(UID(1)));
    assert_eq!(table.get_uid_at("a", &Context::Temporary, 12), None);
    assert_eq!(table.get_uid_at("b", &Context::Global, 13), None);
    assert_eq!(table.peek("a", &Context::Global), Some(UID(1)));
    let stats = table.get_stats();
    assert_eq!(stats.lookups, 3);
    assert_eq!(stats.cache_hits, 1);
}

#[test]
fn aliases_share_an_identifier() {
    let mut table = SymbolTable::new();
    let x = UID(0x77);
    table.set_mapping_at("apple", Context::Global, x, 1).unwrap();
    table.set_mapping_at("pomme", Context::Global, x, 2).unwrap();
    assert_eq!(
        sorted(table.get_symbols_for_uid(x)),
        vec!["apple".to_string(), "pomme".to_string()]
    );
    let stats = table.get_stats();
    assert_eq!(stats.total_symbols, 2);
    assert_eq!(stats.unique_uids, 1);
}

#[test]
fn a_new_identifier_for_a_context_unlinks_the_old_one() {
    let mut table = SymbolTable::new();
    table.set_mapping_at("name", Context::Global, UID(1), 1).unwrap();
    table.set_mapping_at("other", Context::Global, UID(1), 1).unwrap();
    table.set_mapping_at("name", Context::Global, UID(2), 2).unwrap();
    assert_eq!(table.get_symbols_for_uid(UID(1)), vec!["other".to_string()]);
    assert_eq!(table.get_symbols_for_uid(UID(2)), vec!["name".to_string()]);
    assert_eq!(table.get_stats().unique_uids, 2);
    table.set_mapping_at("other", Context::Global, UID(2), 3).unwrap();
    assert!(table.get_symbols_for_uid(UID(1)).is_empty());
    assert_eq!(
        sorted(table.get_symbols_for_uid(UID(2))),
        vec!["name".to_string(), "other".to_string()]
    );
    assert_eq!(table.get_stats().unique_uids, 1);
    assert_eq!(table.get_stats().total_symbols, 2);
}

#[test]
fn a_name_stays_linked_while_another_context_points_at_the_identifier() {
    let mut table = SymbolTable::new();
    table.set_mapping_at("name", Context::Global, UID(1), 1).unwrap();
    table.set_mapping_at("name", domain("math"), UID(1), 1).unwrap();
    table.set_mapping_at("name", Context::Global, UID(2), 2).unwrap();
    assert_eq!(table.get_symbols_for_uid(UID(1)), vec!["name".to_string()]);
    assert_eq!(table.get_symbols_for_uid(UID(2)), vec!["name".to_string()]);
    assert_eq!(table.get_stats().unique_uids, 2);
    assert!(table.remove_mapping("name", &domain("math")));
    assert!(table.get_symbols_for_uid(UID(1)).is_empty());
    assert_eq!(table.get_stats().unique_uids, 1);
    assert_eq!(table.get_stats().total_symbols, 1);
}

#[test]
fn setting_the_same_mapping_again_changes_nothing_but_the_time() {
    let mut table = SymbolTable::new();
    table.set_mapping_at("name", Context::Global, UID(1), 1).unwrap();
    table.set_mapping_at("NAME", Context::Global, UID(1), 50).unwrap();
    assert_eq!(table.get_symbols_for_uid(UID(1)), vec!["name".to_string()]);
    assert_eq!(table.get_stats().total_symbols, 1);
    assert_eq!(table.get_stats().unique_uids, 1);
    assert_eq!(table.cleanup_at(10, 0, 55), 0);
    assert_eq!(table.cleanup_at(10, 0, 61), 1);
}

#[test]
fn removing_the_last_mapping_removes_the_name() {
    let mut table = SymbolTable::new();
    table.set_mapping_at("gone", Context::Global, UID(5), 1).unwrap();
    table.set_mapping_at("stays", Context::Global, UID(5), 1).unwrap();
    assert!(table.remove_mapping("GONE", &Context::Global));
    assert_eq!(table.peek("gone", &Context::Global), None);
    assert_eq!(table.peek("gone", &Context::Temporary), None);
    assert_eq!(table.peek("gone", &domain("math")), None);
    assert_eq!(table.peek("gone", &Context::Custom(UID(5))), None);
    assert_eq!(table.get_symbols_for_uid(UID(5)), vec!["stays".to_string()]);
    assert_eq!(table.get_all_symbols(), vec!["stays".to_string()]);
    assert_eq!(table.get_stats().total_symbols, 1);
    assert_eq!(table.get_stats().unique_uids, 1);
    assert!(!table.remove_mapping("gone", &Context::Global));
    assert!(table.remove_mapping("stays", &Context::Global));
    assert!(table.get_symbols_for_uid(UID(5)).is_empty());
    assert_eq!(table.get_stats().total_symbols, 0);
    assert_eq!(table.get_stats().unique_uids, 0);
}

#[test]
fn removing_one_of_two_mappings_keeps_the_name() {
    let mut table = SymbolTable::new();
    table.set_mapping_at("pi", domain("math"), UID(1), 1).unwrap();
    table.set_mapping_at("pi", domain("physics"), UID(2), 1).unwrap();
    assert!(!table.remove_mapping("pi", &Context::Global));
    assert!(!table.remove_mapping("pi", &domain("botany")));
    assert!(table.remove_mapping("pi", &domain("math")));
    assert_eq!(table.peek("pi", &domain("math")), None);
    assert_eq!(table.peek("pi", &domain("physics")), Some(UID(2)));
    assert!(table.get_symbols_for_uid(UID(1)).is_empty());
    assert_eq!(table.get_symbols_for_uid(UID(2)), vec!["pi".to_string()]);
    assert_eq!(table.get_stats().total_symbols, 1);
    assert_eq!(table.get_stats().unique_uids, 1);
}

#[test]
fn contexts_are_told_apart_by_what_they_hold() {
    let mut table = SymbolTable::new();
    table.set_mapping_at("x", Context::Global, UID(1), 1).unwrap();
    table.set_mapping_at("x", Context::Temporary, UID(2), 1).unwrap();
    table.set_mapping_at("x", domain("a"), UID(3), 1).unwrap();
    table.set_mapping_at("x", domain("b"), UID(4), 1).unwrap();
    table.set_mapping_at("x", Context::Custom(UID(1)), UID(5), 1).unwrap();
    table.set_mapping_at("x", Context::Custom(UID(2)), UID(6), 1).unwrap();
    assert_eq!(table.peek("x", &Context::Global), Some(UID(1)));
    assert_eq!(table.peek("x", &Context::Temporary), Some(UID(2)));
    assert_eq!(table.peek("x", &domain("a")), Some(UID(3)));
    assert_eq!(table.peek("x", &domain("b")), Some(UID(4)));
    assert_eq!(table.peek("x", &Context::Custom(UID(1))), Some(UID(5)));
    assert_eq!(table.peek("x", &Context::Custom(UID(2))), Some(UID(6)));
    assert_eq!(table.peek("x", &domain("A")), None);
    assert_eq!(table.get_stats().total_symbols, 1);
    assert_eq!(table.get_stats().unique_uids, 6);
}

#[test]
fn context_equality_and_default() {
    assert_eq!(Context::default(), Context::Global);
    assert_eq!(domain("math"), domain("math"));
    assert_ne!(domain("math"), domain("physics"));
    assert_ne!(Context::Global, Context::Temporary);
    assert_ne!(Context::Custom(UID(1)), Context::Custom(UID(2)));
    assert_eq!(Context::Custom(UID(1)), Context::Custom(UID(1)));
    assert_ne!(Context::Custom(UID(1)), domain("1"));
}

#[test]
fn base_symbol_prefers_the_global_context() {
    let mut table = SymbolTable::new();
    table.set_mapping_at("first", domain("math"), UID(9), 1).unwrap();
    table.set_mapping_at("second", Context::Global, UID(9), 1).unwrap();
    table.set_mapping_at("third", Context::Temporary, UID(9), 1).unwrap();
    assert_eq!(table.get_base_symbol(UID(9)), Some("second".to_string()));
    assert!(table.remove_mapping("second", &Context::Global));
    let base = table.get_base_symbol(UID(9)).unwrap();
    assert!(base == "first" || base == "third");
    assert_eq!(table.get_base_symbol(UID(10)), None);
    assert_eq!(table.get_stats().lookups, 0);
}

#[test]
fn cleanup_removes_what_went_unused_for_longer_than_the_age() {
    let mut table = SymbolTable::new();
    table.set_mapping_at("old", Context::Global, UID(1), 100).unwrap();
    table.set_mapping_at("old", domain("d"), UID(2), 100).unwrap();
    table.set_mapping_at("edge", Context::Global, UID(2), 190).unwrap();
    table.set_mapping_at("fresh", Context::Global, UID(3), 195).unwrap();
    table.set_mapping_at("kept", Context::Global, UID(1), 100).unwrap();
    assert_eq!(table.get_uid_at("kept", &Context::Global, 199), Some(UID(1)));

    assert_eq!(table.cleanup_at(10, 0, 200), 1);
    assert_eq!(
        sorted(table.get_all_symbols()),
        vec!["edge".to_string(), "fresh".to_string(), "kept".to_string()]
    );
    assert_eq!(table.get_symbols_for_uid(UID(1)), vec!["kept".to_string()]);
    assert_eq!(table.get_symbols_for_uid(UID(2)), vec!["edge".to_string()]);
    assert_eq!(table.peek("old", &Context::Global), None);
    assert_eq!(table.peek("old", &domain("d")), None);
    let stats = table.get_stats();
    assert_eq!(stats.total_symbols, 3);
    assert_eq!(stats.unique_uids, 3);
    assert_eq!(stats.cleanup_count, 1);

    assert_eq!(table.cleanup_at(10, 0, 201), 1);
    assert_eq!(sorted(table.get_all_symbols()), vec!["fresh".to_string(), "kept".to_string()]);
    assert!(table.get_symbols_for_uid(UID(2)).is_empty());
    assert_eq!(table.get_stats().unique_uids, 2);
    assert_eq!(table.get_stats().cleanup_count, 2);

    assert_eq!(table.cleanup_at(0, 0, u64::MAX), 2);
    assert!(table.get_all_symbols().is_empty());
    assert_eq!(table.get_stats().total_symbols, 0);
    assert_eq!(table.get_stats().unique_uids, 0);
    assert_eq!(table.get_stats().cleanup_count, 3);
}

#[test]
fn cleanup_before_the_last_use_removes_nothing() {
    let mut table = SymbolTable::new();
    table.set_mapping_at("ahead", Context::Global, UID(1), 500).unwrap();
    assert_eq!(table.cleanup_at(0, 0, 0), 0);
    assert_eq!(table.cleanup_at(0, 0, 500), 0);
    assert_eq!(table.cleanup_at(0, 7, 501), 1);
}

#[test]
fn registration_fails_when_the_generator_fails() {
    let mut generator = UIDGenerator::new(UIDGeneratorConfig {
        machine_id: 1,
        process_id: 1,
        enable_clock_drift_protection: false,
    });
    let ahead = CUSTOM_EPOCH + MAX_TIMESTAMP_OFFSET;
    assert!(matches!(generator.advance(ahead), Step::Issued(_)));
    let mut table = SymbolTable::new();
    table.set_mapping_at("known", Context::Global, UID(3), 1).unwrap();

    match table.register_symbol("unknown", Context::Global, &mut generator) {
        Err(SymbolError::UIDGenerationFailed(text)) => {
            assert!(text.starts_with("时间回拨: 当前时间"));
            assert!(text.ends_with(&format!(" < 上次时间{}", ahead)));
        },
        other => panic!("expected a failure, got {:?}", other),
    }
    assert_eq!(table.peek("unknown", &Context::Global), None);
    assert_eq!(table.get_all_symbols(), vec!["known".to_string()]);
    assert_eq!(table.get_stats().total_symbols, 1);

    assert_eq!(table.register_symbol("Known", Context::Global, &mut generator), Ok(UID(3)));
    assert!(matches!(
        table.register_symbol("known", Context::Temporary, &mut generator),
        Err(SymbolError::UIDGenerationFailed(_))
    ));
    assert_eq!(table.peek("known", &Context::Temporary), None);
}

#[test]
fn registration_at_a_time_gives_the_generators_next_identifier() {
    let mut generator = new_generator();
    let mut table = SymbolTable::new();
    let first = table.register_symbol_at("a", Context::Global, &mut generator, 100).unwrap();
    let second = table.register_symbol_at("b", Context::Global, &mut generator, 100).unwrap();
    assert!(first < second);
    let third = next_global_uid(&mut generator).unwrap();
    assert!(second < third);
    assert_eq!(table.register_symbol_at("A", Context::Global, &mut generator, 150), Ok(first));
    assert_eq!(table.cleanup_at(10, 0, 155), 1);
    assert_eq!(table.get_all_symbols(), vec!["a".to_string()]);
}

#[test]
fn shared_registry_functions_use_the_given_context() {
    let mut generator = new_generator();
    let mut table = SymbolTable::new();
    let uid = register_global_symbol(&mut table, &mut generator, "Shared").unwrap();
    assert_eq!(get_global_uid(&mut table, "shared"), Some(uid));
    assert_eq!(get_uid_in_context(&mut table, "shared", &Context::Global), Some(uid));
    assert_eq!(get_uid_in_context(&mut table, "shared", &Context::Temporary), None);
    assert_eq!(get_base_symbol_for_uid(&mut table, uid), Some("shared".to_string()));
    assert_eq!(get_base_symbol_for_uid(&mut table, UID(0)), None);
    assert_eq!(table.get_stats().lookups, 3);
    assert_eq!(table.get_stats().cache_hits, 2);
}

#[test]
fn pre_registration_registers_eighteen_names_once() {
    let mut generator = new_generator();
    let mut table = SymbolTable::new();
    pre_register_system_symbols(&mut table, &mut generator).unwrap();
    assert_eq!(table.get_stats().total_symbols, 18);
    assert_eq!(table.get_stats().unique_uids, 18);
    let role = table.peek("REL_ROLE", &Context::Global).unwrap();
    let relate = table.peek("op_relate", &Context::Global).unwrap();
    assert!(role < relate);
    pre_register_system_symbols(&mut table, &mut generator).unwrap();
    assert_eq!(table.get_stats().total_symbols, 18);
    assert_eq!(table.peek("REL_ROLE", &Context::Global), Some(role));
    assert_eq!(table.get_stats().cache_hits, 18);
}

#[test]
fn register_all_stops_at_the_first_failure() {
    let mut generator = UIDGenerator::new(UIDGeneratorConfig {
        machine_id: 1,
        process_id: 1,
        enable_clock_drift_protection: false,
    });
    assert!(matches!(generator.advance(CUSTOM_EPOCH + MAX_TIMESTAMP_OFFSET), Step::Issued(_)));
    let mut table = SymbolTable::new();
    table.set_mapping_at("one", Context::Global, UID(1), 1).unwrap();
    table.set_mapping_at("three", Context::Global, UID(3), 1).unwrap();
    let names = vec!["one", "two", "three"];
    assert!(matches!(
        register_all(&mut table, &mut generator, &names),
        Err(SymbolError::UIDGenerationFailed(_))
    ));
    assert_eq!(table.get_stats().cache_hits, 1);
    let known = vec!["three", "ONE"];
    assert_eq!(register_all(&mut table, &mut generator, &known), Ok(()));
}

#[test]
fn an_entry_keeps_one_identifier_for_each_context() {
    let mut entry = SymbolMapping::new_at("name".to_string(), 5);
    assert_eq!(entry.symbol, "name");
    assert_eq!(entry.created_at, 5);
    assert_eq!(entry.last_accessed, 5);
    assert!(entry.mappings.is_empty());
    assert!(!entry.has_mapping(&Context::Global));
    assert_eq!(entry.get_uid_at(&Context::Global, 6), None);
    assert_eq!(entry.last_accessed, 6);

    entry.set_uid_at(Context::Global, UID(1), 7);
    entry.set_uid_at(domain("d"), UID(2), 8);
    entry.set_uid_at(Context::Global, UID(3), 9);
    assert_eq!(entry.created_at, 5);
    assert_eq!(entry.last_accessed, 9);
    assert_eq!(entry.mappings.len(), 2);
    assert!(entry.has_mapping(&Context::Global));
    assert_eq!(entry.peek(&Context::Global), Some(UID(3)));
    assert_eq!(entry.get_uid_at(&domain("d"), 10), Some(UID(2)));
    assert_eq!(entry.last_accessed, 10);
    assert_eq!(entry.get_all_uids(), vec![UID(3), UID(2)]);
    assert!(entry.maps_to(UID(2)));
    assert!(!entry.maps_to(UID(1)));

    assert_eq!(entry.remove_uid(&Context::Temporary), None);
    assert_eq!(entry.remove_uid(&Context::Global), Some(UID(3)));
    assert_eq!(entry.get_all_uids(), vec![UID(2)]);
    assert_eq!(entry.last_accessed, 10);
}

#[test]
fn an_entry_made_by_the_clock_is_used_when_it_is_made() {
    let mut entry = SymbolMapping::new("clocked".to_string());
    assert_eq!(entry.created_at, entry.last_accessed);
    assert!(entry.created_at >= CUSTOM_EPOCH);
    entry.set_uid(Context::Temporary, UID(4));
    assert_eq!(entry.get_uid(&Context::Temporary), Some(UID(4)));
    assert!(entry.last_accessed >= entry.created_at);
}

#[test]
fn folded_names_are_taken_letter_for_letter() {
    let mut generator = new_generator();
    let mut table = SymbolTable::new();
    let mixed = "Mixed".to_string();
    let lower = "mixed".to_string();
    table.set_mapping_folded_at(mixed.clone(), Context::Global, UID(1), 10).unwrap();
    assert_eq!(table.peek_folded(&mixed, &Context::Global), Some(UID(1)));
    assert_eq!(table.peek_folded(&lower, &Context::Global), None);
    assert_eq!(table.peek("Mixed", &Context::Global), None);

    assert_eq!(table.get_uid_folded_at(&mixed, &Context::Global, 11), Some(UID(1)));
    assert_eq!(table.get_uid_folded_at(&lower, &Context::Global, 11), None);
    assert_eq!(table.get_stats().lookups, 2);
    assert_eq!(table.get_stats().cache_hits, 1);

    let fresh = table.register_folded_at(lower.clone(), Context::Global, &mut generator, 12).unwrap();
    assert_ne!(fresh, UID(1));
    assert_eq!(
        table.register_folded_at(lower.clone(), Context::Global, &mut generator, 13),
        Ok(fresh)
    );
    assert_eq!(
        table.register_folded_at(mixed.clone(), Context::Global, &mut generator, 13),
        Ok(UID(1))
    );
    assert_eq!(table.peek("MIXED", &Context::Global), Some(fresh));
    assert_eq!(sorted(table.get_all_symbols()), vec![mixed.clone(), lower.clone()]);

    assert!(!table.remove_mapping_folded(&"MIXED".to_string(), &Context::Global));
    assert!(table.remove_mapping_folded(&mixed, &Context::Global));
    assert!(table.remove_mapping("Mixed", &Context::Global));
    assert!(table.get_all_symbols().is_empty());
}

#[test]
fn a_registry_is_read_back_from_its_entries() {
    let mut table = SymbolTable::new();
    table.set_mapping_at("apple", Context::Global, UID(1), 10).unwrap();
    table.set_mapping_at("pomme", Context::Global, UID(1), 11).unwrap();
    table.set_mapping_at("apple", domain("fruit"), UID(2), 12).unwrap();
    assert_eq!(table.get_uid_at("apple", &Context::Global, 20), Some(UID(1)));
    assert_eq!(table.cleanup_at(100, 0, 21), 0);

    let entries = table.entries();
    assert_eq!(entries.len(), 2);
    assert_eq!(entries[0].symbol, "apple");
    assert_eq!(entries[0].created_at, 10);
    assert_eq!(entries[0].last_accessed, 20);
    assert_eq!(entries[0].get_all_uids(), vec![UID(1), UID(2)]);
    assert_eq!(entries[1].symbol, "pomme");

    let mut again = SymbolTable::from_entries(entries, table.get_stats()).unwrap();
    assert_eq!(again.peek("apple", &Context::Global), Some(UID(1)));
    assert_eq!(again.peek("apple", &domain("fruit")), Some(UID(2)));
    assert_eq!(again.peek("pomme", &Context::Global), Some(UID(1)));
    assert_eq!(sorted(again.get_symbols_for_uid(UID(1))), vec!["apple".to_string(), "pomme".to_string()]);
    assert_eq!(again.get_symbols_for_uid(UID(2)), vec!["apple".to_string()]);
    let stats = again.get_stats();
    assert_eq!(stats.total_symbols, 2);
    assert_eq!(stats.unique_uids, 2);
    assert_eq!(stats.lookups, 1);
    assert_eq!(stats.cache_hits, 1);
    assert_eq!(stats.cleanup_count, 1);
    assert_eq!(again.cleanup_at(5, 0, 22), 1);
    assert_eq!(again.get_all_symbols(), vec!["apple".to_string()]);
}

#[test]
fn entries_that_make_no_registry_are_refused() {
    let stats = SymbolStats::new();
    assert!(SymbolTable::from_entries(vec![], &stats).unwrap().get_all_symbols().is_empty());

    let mut one = SymbolMapping::new_at("name".to_string(), 1);
    assert!(!one.is_valid());
    assert!(SymbolTable::from_entries(vec![one.clone()], &stats).is_none());
    one.set_uid_at(Context::Global, UID(1), 2);
    assert!(one.is_valid());
    assert!(SymbolTable::from_entries(vec![one.clone()], &stats).is_some());
    assert!(SymbolTable::from_entries(vec![one.clone(), one.clone()], &stats).is_none());

    let mut twice = one.clone();
    twice.mappings.push((Context::Global, UID(2)));
    assert!(!twice.is_valid());
    assert!(SymbolTable::from_entries(vec![twice], &stats).is_none());

    let mut other = one.clone();
    other.symbol = "other".to_string();
    other.set_uid_at(Context::Temporary, UID(1), 3);
    let made = SymbolTable::from_entries(vec![one, other], &stats).unwrap();
    assert_eq!(made.get_stats().total_symbols, 2);
    assert_eq!(made.get_stats().unique_uids, 1);
    assert_eq!(sorted(made.get_symbols_for_uid(UID(1))), vec!["name".to_string(), "other".to_string()]);
}

#[test]
fn names_newly_registered_together_get_different_identifiers() {
    let mut generator = new_generator();
    let mut table = SymbolTable::new();
    table.set_mapping_at("one", Context::Global, UID(1), 1).unwrap();
    let names = vec!["zero", "one", "two", "three", "TWO"];
    assert_eq!(register_all(&mut table, &mut generator, &names), Ok(()));
    let zero = table.peek("zero", &Context::Global).unwrap();
    let two = table.peek("two", &Context::Global).unwrap();
    let three = table.peek("three", &Context::Global).unwrap();
    assert_eq!(table.peek("one", &Context::Global), Some(UID(1)));
    assert!(zero < two && two < three);
    assert_eq!(table.get_stats().total_symbols, 4);
    assert_eq!(table.get_stats().unique_uids, 4);
    assert!(knows_all_names(&table, &names));
    assert!(!knows_all_names(&table, &vec!["one", "four"]));
    assert_eq!(pre_registered_names().len(), 18);
    assert!(!knows_all_names(&table, &pre_registered_names()));
}
