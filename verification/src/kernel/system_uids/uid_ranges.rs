//! The ranges into which identifiers fall.

use crate::kernel::types::UID;
use vstd::prelude::*;

verus! {

/// The first identifier of the system's range.
pub const SYSTEM_UID_START: u64 = 0x0000000100000000;

/// The first identifier of the users' range.
pub const USER_UID_START: u64 = 0x1000000000000000;

/// The first identifier of the range for temporary use.
pub const TEMP_UID_START: u64 = 0xF000000000000000;

/// Whether `uid` lies in the system's range.
pub fn is_system_uid(uid: UID) -> (inside: bool)
    ensures
        inside <==> SYSTEM_UID_START <= uid.0 < USER_UID_START,
{
    uid.0 >= SYSTEM_UID_START && uid.0 < USER_UID_START
}

/// Whether `uid` lies in the users' range.
pub fn is_user_uid(uid: UID) -> (inside: bool)
    ensures
        inside <==> USER_UID_START <= uid.0 < TEMP_UID_START,
{
    uid.0 >= USER_UID_START && uid.0 < TEMP_UID_START
}

/// Whether `uid` lies in the range for temporary use.
pub fn is_temp_uid(uid: UID) -> (inside: bool)
    ensures
        inside <==> TEMP_UID_START <= uid.0,
{
    uid.0 >= TEMP_UID_START
}

/// The identifier at `counter` in the range for temporary use. Nothing
/// keeps two callers from the same counter.
pub fn generate_temp_uid(counter: u64) -> (uid: UID)
    requires
        TEMP_UID_START + counter <= u64::MAX,
    ensures
        uid.0 == TEMP_UID_START + counter,
{
    UID(TEMP_UID_START + counter)
}

} // verus!
