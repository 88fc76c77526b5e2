//! Identifiers and names for a relation network.
//!
//! The crate mints 64-bit identifiers that carry their time and place of
//! creation, and keeps a registry in which human-readable names resolve to
//! such identifiers, one per context.

pub mod error;
pub mod kernel;

pub use crate::error::{make_error_sequence, CoreError};
pub use crate::kernel::types::{
    Direction, ErrorLevel, FallbackStrategy, LogicOffset, RelationalPosition, SequenceVersion,
    SystemError, UID,
};

use crate::kernel::symbol_map::{registration_of_all, SymbolError, SymbolTable};
use crate::kernel::system_uids::system_symbols;
use crate::kernel::uid_gen::UIDGenerator;
use crate::kernel::{initialize_core_system, system_info, SystemInfo};
use vstd::prelude::*;

verus! {

/// The version of the crate.
pub const VERSION: &'static str = "0.1.0";

/// Makes the whole system ready for use; see [`initialize_core_system`].
pub fn initialize(table: &mut SymbolTable, generator: &mut UIDGenerator) -> (done: Result<
    (),
    SymbolError,
>)
    requires
        old(table).wf(),
        old(generator)@.wf(),
    ensures
        final(table).wf(),
        final(generator)@.wf(),
        registration_of_all(
            old(table)@,
            old(generator)@,
            system_symbols(),
            done,
            final(table)@,
            final(generator)@,
        ),
{
    initialize_core_system(table, generator)
}

/// The state of the system in brief; see [`system_info`].
pub fn system_status() -> (info: SystemInfo)
    ensures
        info.version@ == VERSION@,
        info.uid_generator_ready,
        info.symbol_table_ready,
        info.system_uids_initialized,
{
    system_info()
}

} // verus!
