use uid_relation_system::kernel::initialize_core_system;
use uid_relation_system::kernel::symbol_map::{
    get_base_symbol_for_uid, get_global_uid, register_global_symbol, SymbolTable,
};
use uid_relation_system::kernel::uid_gen::{
    next_global_uid, HostAddress, UIDGenerator, UIDGeneratorConfig,
};

#[test]
fn test_end_to_end_uid_flow() {
    let mut generator =
        UIDGenerator::new(UIDGeneratorConfig::for_host(&Some(vec![HostAddress::V4(1)]), 1));
    let mut table = SymbolTable::new();
    initialize_core_system(&mut table, &mut generator).unwrap();

    let uid = next_global_uid(&mut generator).unwrap();
    println!("Generated UID: {}", uid.to_string());

    let info = UIDGenerator::parse(uid);
    println!("UID Info: {:?}", info);

    let symbol = "test_symbol";

    let registered_uid = register_global_symbol(&mut table, &mut generator, symbol).unwrap();
    println!("Registered UID for '{}': {}", symbol, registered_uid.to_string());

    let retrieved_uid = get_global_uid(&mut table, symbol).unwrap();
    assert_eq!(registered_uid, retrieved_uid);

    let base_symbol = get_base_symbol_for_uid(&mut table, registered_uid).unwrap();
    assert_eq!(base_symbol, symbol.to_lowercase());
}
