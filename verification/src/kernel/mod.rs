//! The identifier generator, the symbol registry and the small value types
//! that travel with them.

pub mod assoc;
pub mod clock;
pub mod symbol_map;
pub mod system_uids;
pub mod types;
pub mod uid_gen;

pub use crate::kernel::symbol_map::{
    get_base_symbol_for_uid, get_global_uid, get_uid_in_context, pre_register_system_symbols,
    register_global_symbol, Context, SymbolError, SymbolMapping, SymbolStats, SymbolTable,
};
pub use crate::kernel::system_uids::initialize_system_uids;
pub use crate::kernel::types::{
    Direction, ErrorLevel, FallbackStrategy, LogicOffset, RelationalPosition, SequenceVersion,
    SystemError, UID,
};
pub use crate::kernel::uid_gen::{
    batch_global_uids, next_global_uid, SimpleUIDGenerator, UIDGenerator, UIDGeneratorConfig,
    UIDGeneratorError, UIDInfo,
};

use crate::kernel::symbol_map::registration_of_all;
use crate::kernel::system_uids::system_symbols;
use vstd::prelude::*;

verus! {

/// The state of the system in brief.
#[derive(Debug, Clone)]
pub struct SystemInfo {
    pub version: &'static str,
    pub uid_generator_ready: bool,
    pub symbol_table_ready: bool,
    pub system_uids_initialized: bool,
}

/// Makes the registry that the process shares ready for use: registers the
/// names of the system. To be called when the program starts. See
/// [`initialize_system_uids`].
pub fn initialize_core_system(table: &mut SymbolTable, generator: &mut UIDGenerator) -> (done:
    Result<(), SymbolError>)
    requires
        old(table).wf(),
        old(generator)@.wf(),
    ensures
        final(table).wf(),
        final(generator)@.wf(),
        registration_of_all(
            old(table)@,
            old(generator)@,
            system_symbols(),
            done,
            final(table)@,
            final(generator)@,
        ),
{
    initialize_system_uids(table, generator)
}

/// The state of the system in brief: its version, and every part ready.
pub fn system_info() -> (info: SystemInfo)
    ensures
        info.version@ == crate::VERSION@,
        info.uid_generator_ready,
        info.symbol_table_ready,
        info.system_uids_initialized,
{
    SystemInfo {
        version: crate::VERSION,
        uid_generator_ready: true,
        symbol_table_ready: true,
        system_uids_initialized: true,
    }
}

} // verus!
