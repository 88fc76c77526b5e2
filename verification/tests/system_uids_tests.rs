use std::collections::HashSet;
use uid_relation_system::kernel::symbol_map::{pre_register_system_symbols, Context, SymbolTable};
use uid_relation_system::kernel::system_uids::uid_ranges::{
    generate_temp_uid, is_system_uid, is_temp_uid, is_user_uid, SYSTEM_UID_START, TEMP_UID_START,
    USER_UID_START,
};
use uid_relation_system::kernel::system_uids::{
    anchor_marker, error_fatal, error_info, error_severe, error_start, error_warning, exec_marker,
    failure_marker, initialize_system_uids, op_copy, op_delete, op_execute, op_insert, op_move,
    op_relate, op_search, pattern_min_max, pattern_not, pattern_set_end, pattern_set_start,
    pattern_wildcard, pattern_wildcard_multi, rel_context, rel_meaning, rel_role, start_marker,
    success_marker, system_uids, FAILURE_MARKER_SYMBOL, REL_ROLE_SYMBOL, SUCCESS_MARKER_SYMBOL,
};
use uid_relation_system::kernel::types::UID;
use uid_relation_system::kernel::uid_gen::{HostAddress, UIDGenerator, UIDGeneratorConfig};
use uid_relation_system::kernel::{initialize_core_system, system_info};
use uid_relation_system::{initialize, system_status, VERSION};

fn new_generator() -> UIDGenerator {
    UIDGenerator::new(UIDGeneratorConfig::for_host(&Some(vec![HostAddress::V4(0x0A00_0002)]), 9))
}

#[test]
fn test_system_uid_initialization() {
    let mut generator = new_generator();
    let mut table = SymbolTable::new();
    pre_register_system_symbols(&mut table, &mut generator).unwrap();

    let role_uid = rel_role(&mut table);
    let context_uid = rel_context(&mut table);

    assert_ne!(role_uid, context_uid);

    assert!(role_uid.0 > 0);
    assert!(context_uid.0 > 0);
}

#[test]
fn test_uid_ranges() {
    let system_uid = UID(SYSTEM_UID_START + 100);
    let user_uid = UID(USER_UID_START + 100);
    let temp_uid = UID(TEMP_UID_START + 100);

    assert!(is_system_uid(system_uid));
    assert!(!is_user_uid(system_uid));
    assert!(!is_temp_uid(system_uid));

    assert!(!is_system_uid(user_uid));
    assert!(is_user_uid(user_uid));
    assert!(!is_temp_uid(user_uid));

    assert!(!is_system_uid(temp_uid));
    assert!(!is_user_uid(temp_uid));
    assert!(is_temp_uid(temp_uid));

    let temp1 = generate_temp_uid(1);
    let temp2 = generate_temp_uid(2);

    assert_ne!(temp1, temp2);
    assert!(is_temp_uid(temp1));
    assert!(is_temp_uid(temp2));
}

#[test]
fn test_uid_getters() {
    let mut generator = new_generator();
    let mut table = SymbolTable::new();
    initialize_system_uids(&mut table, &mut generator).unwrap();

    let uids = vec![
        (rel_role(&mut table), "REL_ROLE"),
        (rel_context(&mut table), "REL_CONTEXT"),
        (pattern_wildcard(&mut table), "PATTERN_WILDCARD"),
        (error_fatal(&mut table), "ERROR_FATAL"),
        (op_move(&mut table), "OP_MOVE"),
        (anchor_marker(&mut table), "ANCHOR_MARKER"),
    ];

    let mut uid_set = HashSet::new();
    for (uid, name) in &uids {
        assert!(uid.0 > 0, "{} should have valid UID", name);
        assert!(!uid_set.contains(uid), "{} should have unique UID", name);
        uid_set.insert(*uid);
    }
}

#[test]
fn test_core_initialization() {
    let mut generator = new_generator();
    let mut table = SymbolTable::new();
    let result = initialize_core_system(&mut table, &mut generator);
    assert!(result.is_ok());

    let info = system_info();
    assert_eq!(info.version, VERSION);
    assert!(info.uid_generator_ready);
    assert!(info.symbol_table_ready);
    assert!(info.system_uids_initialized);
}

#[test]
fn uid_ranges_meet_at_their_starts() {
    assert!(!is_system_uid(UID(0)));
    assert!(!is_user_uid(UID(0)));
    assert!(!is_temp_uid(UID(0)));
    assert!(!is_system_uid(UID(SYSTEM_UID_START - 1)));
    assert!(is_system_uid(UID(SYSTEM_UID_START)));
    assert!(is_system_uid(UID(USER_UID_START - 1)));
    assert!(!is_system_uid(UID(USER_UID_START)));
    assert!(is_user_uid(UID(USER_UID_START)));
    assert!(is_user_uid(UID(TEMP_UID_START - 1)));
    assert!(!is_user_uid(UID(TEMP_UID_START)));
    assert!(is_temp_uid(UID(TEMP_UID_START)));
    assert!(is_temp_uid(UID(u64::MAX)));
}

#[test]
fn temp_uids_count_from_the_start_of_their_range() {
    assert_eq!(generate_temp_uid(0), UID(0xF000000000000000));
    assert_eq!(generate_temp_uid(5), UID(0xF000000000000005));
    assert_eq!(generate_temp_uid(0x0FFF_FFFF_FFFF_FFFF), UID(u64::MAX));
}

#[test]
fn every_system_name_gets_its_own_identifier() {
    let mut generator = new_generator();
    let mut table = SymbolTable::new();
    assert_eq!(system_uids(&mut table), None);
    pre_register_system_symbols(&mut table, &mut generator).unwrap();
    assert_eq!(system_uids(&mut table), None);
    assert_eq!(table.get_stats().lookups, 0);

    initialize(&mut table, &mut generator).unwrap();
    assert_eq!(table.get_stats().total_symbols, 26);
    assert_eq!(table.get_stats().unique_uids, 26);
    let all = system_uids(&mut table).unwrap();
    assert_eq!(all.len(), 26);
    assert_eq!(table.get_stats().lookups, 26);
    let distinct: HashSet<UID> = all.iter().copied().collect();
    assert_eq!(distinct.len(), 26);
    for pair in all.windows(2) {
        assert!(pair[0] < pair[1]);
    }

    let by_function = vec![
        rel_role(&mut table),
        rel_context(&mut table),
        rel_meaning(&mut table),
        pattern_wildcard(&mut table),
        pattern_wildcard_multi(&mut table),
        pattern_set_start(&mut table),
        pattern_set_end(&mut table),
        pattern_not(&mut table),
        pattern_min_max(&mut table),
        error_fatal(&mut table),
        error_severe(&mut table),
        error_warning(&mut table),
        error_info(&mut table),
        op_move(&mut table),
        op_insert(&mut table),
        op_delete(&mut table),
        op_copy(&mut table),
        op_relate(&mut table),
        error_start(&mut table),
        op_search(&mut table),
        op_execute(&mut table),
        anchor_marker(&mut table),
        start_marker(&mut table),
        exec_marker(&mut table),
        success_marker(&mut table),
        failure_marker(&mut table),
    ];
    assert_eq!(by_function, all);
}

#[test]
fn system_names_are_found_under_their_constants() {
    let mut generator = new_generator();
    let mut table = SymbolTable::new();
    initialize_system_uids(&mut table, &mut generator).unwrap();
    assert_eq!(REL_ROLE_SYMBOL, "REL_ROLE");
    assert_eq!(SUCCESS_MARKER_SYMBOL, "SUCCESS");
    assert_eq!(FAILURE_MARKER_SYMBOL, "FAILURE");
    let role = rel_role(&mut table);
    let success = success_marker(&mut table);
    let failure = failure_marker(&mut table);
    assert_eq!(table.peek(REL_ROLE_SYMBOL, &Context::Global), Some(role));
    assert_eq!(table.peek("success", &Context::Global), Some(success));
    assert_eq!(table.get_base_symbol(failure), Some("failure".to_string()));
}

#[test]
fn initializing_twice_generates_nothing_new() {
    let mut generator = new_generator();
    let mut table = SymbolTable::new();
    initialize_system_uids(&mut table, &mut generator).unwrap();
    let first = system_uids(&mut table).unwrap();
    initialize_core_system(&mut table, &mut generator).unwrap();
    assert_eq!(system_uids(&mut table).unwrap(), first);
    assert_eq!(table.get_stats().total_symbols, 26);
}

#[test]
fn system_status_reports_the_version() {
    let info = system_status();
    assert_eq!(info.version, "0.1.0");
    assert!(info.uid_generator_ready && info.symbol_table_ready && info.system_uids_initialized);
}
