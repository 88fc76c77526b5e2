//! The names that the system itself uses, and their identifiers.
//!
//! The identifiers are not fixed: each is generated when its name is first
//! registered, by [`initialize_system_uids`], and read from the registry
//! afterwards.

pub mod uid_ranges;

use crate::kernel::symbol_map::{
    get_global_uid, knows_all_names, lemma_registration_cut_short, lemma_registration_in_two,
    lowercase, pre_register_system_symbols, pre_registered_symbols, register_all,
    registration_of_all, texts, ContextView, RegistryView, SymbolError, SymbolTable,
};
use crate::kernel::types::UID;
use crate::kernel::uid_gen::UIDGenerator;
use vstd::prelude::*;

verus! {

/// The name of the mark of a role in a relation.
pub const REL_ROLE_SYMBOL: &'static str = "REL_ROLE";

/// The name of the mark of a relation's context.
pub const REL_CONTEXT_SYMBOL: &'static str = "REL_CONTEXT";

/// The name of the mark of a relation's meaning.
pub const REL_MEANING_SYMBOL: &'static str = "REL_MEANING";

/// The name of the pattern element that stands for any one item.
pub const PATTERN_WILDCARD_SYMBOL: &'static str = "PATTERN_WILDCARD";

/// The name of the pattern element that stands for any run of items.
pub const PATTERN_WILDCARD_MULTI_SYMBOL: &'static str = "PATTERN_WILDCARD_MULTI";

/// The name of the pattern element that opens a set.
pub const PATTERN_SET_START_SYMBOL: &'static str = "PATTERN_SET_START";

/// The name of the pattern element that closes a set.
pub const PATTERN_SET_END_SYMBOL: &'static str = "PATTERN_SET_END";

/// The name of the pattern element that negates.
pub const PATTERN_NOT_SYMBOL: &'static str = "PATTERN_NOT";

/// The name of the pattern element that bounds a repetition.
pub const PATTERN_MIN_MAX_SYMBOL: &'static str = "PATTERN_MIN_MAX";

/// The name of the mark that opens an error sequence.
pub const ERROR_START_SYMBOL: &'static str = "ERROR_START";

/// The name of the level of a fatal error.
pub const ERROR_FATAL_SYMBOL: &'static str = "ERROR_FATAL";

/// The name of the level of a severe error.
pub const ERROR_SEVERE_SYMBOL: &'static str = "ERROR_SEVERE";

/// The name of the level of a warning.
pub const ERROR_WARNING_SYMBOL: &'static str = "ERROR_WARNING";

/// The name of the level of a notice.
pub const ERROR_INFO_SYMBOL: &'static str = "ERROR_INFO";

/// The name of the operation that moves.
pub const OP_MOVE_SYMBOL: &'static str = "OP_MOVE";

/// The name of the operation that inserts.
pub const OP_INSERT_SYMBOL: &'static str = "OP_INSERT";

/// The name of the operation that deletes.
pub const OP_DELETE_SYMBOL: &'static str = "OP_DELETE";

/// The name of the operation that copies.
pub const OP_COPY_SYMBOL: &'static str = "OP_COPY";

/// The name of the operation that relates.
pub const OP_RELATE_SYMBOL: &'static str = "OP_RELATE";

/// The name of the operation that searches.
pub const OP_SEARCH_SYMBOL: &'static str = "OP_SEARCH";

/// The name of the operation that executes.
pub const OP_EXECUTE_SYMBOL: &'static str = "OP_EXECUTE";

/// The name of the mark of an anchor.
pub const ANCHOR_MARKER_SYMBOL: &'static str = "ANCHOR_MARKER";

/// The name of the mark of a sequence's start.
pub const START_MARKER_SYMBOL: &'static str = "START_MARKER";

/// The name of the mark of the point of execution.
pub const EXEC_MARKER_SYMBOL: &'static str = "EXEC_MARKER";

/// The name of the mark of success.
pub const SUCCESS_MARKER_SYMBOL: &'static str = "SUCCESS";

/// The name of the mark of failure.
pub const FAILURE_MARKER_SYMBOL: &'static str = "FAILURE";

/// The names that [`initialize_system_uids`] registers beyond those of
/// [`pre_register_system_symbols`].
pub open spec fn later_symbols() -> Seq<Seq<char>> {
    seq![
        ERROR_START_SYMBOL@,
        OP_SEARCH_SYMBOL@,
        OP_EXECUTE_SYMBOL@,
        ANCHOR_MARKER_SYMBOL@,
        START_MARKER_SYMBOL@,
        EXEC_MARKER_SYMBOL@,
        SUCCESS_MARKER_SYMBOL@,
        FAILURE_MARKER_SYMBOL@,
    ]
}

/// All names of the system, in the order in which they are registered.
pub open spec fn system_symbols() -> Seq<Seq<char>> {
    pre_registered_symbols() + later_symbols()
}

/// `symbol` has an identifier in the global context.
pub open spec fn known(registry: RegistryView, symbol: Seq<char>) -> bool {
    registry.lookup(lowercase(symbol), ContextView::Global) is Some
}

/// `count` look-ups of names that were found lead from `before` to `after`:
/// the look-ups and the hits are counted, and nothing else differs but times
/// of use.
pub open spec fn look_ups(before: RegistryView, count: int, after: RegistryView) -> bool {
    &&& after.same_but_for_use(before)
    &&& forall|name: Seq<char>, context: ContextView| #[trigger]
        after.lookup(name, context) == before.lookup(name, context)
    &&& after.lookups == if before.lookups + count > u64::MAX {
        u64::MAX
    } else {
        (before.lookups + count) as u64
    }
    &&& after.cache_hits == if before.cache_hits + count > u64::MAX {
        u64::MAX
    } else {
        (before.cache_hits + count) as u64
    }
}

/// A look-up of `symbol` in the global context found `uid` and left the
/// registry as `after`: with the look-up and the hit counted and the entry
/// used at some time.
pub open spec fn fetched(before: RegistryView, symbol: Seq<char>, uid: UID, after: RegistryView) -> bool {
    &&& before.lookup(lowercase(symbol), ContextView::Global) == Some(uid)
    &&& exists|now: u64| #[trigger]
        before.looked_up(lowercase(symbol), ContextView::Global, now) == after
    &&& look_ups(before, 1, after)
}

/// Look-ups after look-ups add up.
pub proof fn lemma_look_ups_add(
    before: RegistryView,
    first: int,
    between: RegistryView,
    second: int,
    after: RegistryView,
)
    requires
        0 <= first,
        0 <= second,
        look_ups(before, first, between),
        look_ups(between, second, after),
    ensures
        look_ups(before, first + second, after),
{
    assert forall|name: Seq<char>| #[trigger]
        before.entries.contains_key(name) implies after.entries[name].bindings
        == before.entries[name].bindings && after.entries[name].created_at
        == before.entries[name].created_at by {
        assert(between.entries.contains_key(name));
    }
}

/// The identifier of a name that is registered in the global context.
fn system_uid(table: &mut SymbolTable, symbol: &'static str) -> (uid: UID)
    requires
        old(table).wf(),
        known(old(table)@, symbol@),
    ensures
        final(table).wf(),
        fetched(old(table)@, symbol@, uid, final(table)@),
{
    let found = get_global_uid(table, symbol);
    found.expect("the name should be registered during system initialization")
}

/// The identifier of the mark of a role in a relation. The name must have been
/// registered, as [`initialize_system_uids`] does.
pub fn rel_role(table: &mut SymbolTable) -> (uid: UID)
    requires
        old(table).wf(),
        known(old(table)@, REL_ROLE_SYMBOL@),
    ensures
        final(table).wf(),
        fetched(old(table)@, REL_ROLE_SYMBOL@, uid, final(table)@),
{
    system_uid(table, REL_ROLE_SYMBOL)
}

/// The identifier of the mark of a relation's context. The name must have been
/// registered, as [`initialize_system_uids`] does.
pub fn rel_context(table: &mut SymbolTable) -> (uid: UID)
    requires
        old(table).wf(),
        known(old(table)@, REL_CONTEXT_SYMBOL@),
    ensures
        final(table).wf(),
        fetched(old(table)@, REL_CONTEXT_SYMBOL@, uid, final(table)@),
{
    system_uid(table, REL_CONTEXT_SYMBOL)
}

/// The identifier of the mark of a relation's meaning. The name must have been
/// registered, as [`initialize_system_uids`] does.
pub fn rel_meaning(table: &mut SymbolTable) -> (uid: UID)
    requires
        old(table).wf(),
        known(old(table)@, REL_MEANING_SYMBOL@),
    ensures
        final(table).wf(),
        fetched(old(table)@, REL_MEANING_SYMBOL@, uid, final(table)@),
{
    system_uid(table, REL_MEANING_SYMBOL)
}

/// The identifier of the pattern element that stands for any one item. The
/// name must have been registered, as [`initialize_system_uids`] does.
pub fn pattern_wildcard(table: &mut SymbolTable) -> (uid: UID)
    requires
        old(table).wf(),
        known(old(table)@, PATTERN_WILDCARD_SYMBOL@),
    ensures
        final(table).wf(),
        fetched(old(table)@, PATTERN_WILDCARD_SYMBOL@, uid, final(table)@),
{
    system_uid(table, PATTERN_WILDCARD_SYMBOL)
}

/// The identifier of the pattern element that stands for any run of items. The
/// name must have been registered, as [`initialize_system_uids`] does.
pub fn pattern_wildcard_multi(table: &mut SymbolTable) -> (uid: UID)
    requires
        old(table).wf(),
        known(old(table)@, PATTERN_WILDCARD_MULTI_SYMBOL@),
    ensures
        final(table).wf(),
        fetched(old(table)@, PATTERN_WILDCARD_MULTI_SYMBOL@, uid, final(table)@),
{
    system_uid(table, PATTERN_WILDCARD_MULTI_SYMBOL)
}

/// The identifier of the pattern element that opens a set. The name must have
/// been registered, as [`initialize_system_uids`] does.
pub fn pattern_set_start(table: &mut SymbolTable) -> (uid: UID)
    requires
        old(table).wf(),
        known(old(table)@, PATTERN_SET_START_SYMBOL@),
    ensures
        final(table).wf(),
        fetched(old(table)@, PATTERN_SET_START_SYMBOL@, uid, final(table)@),
{
    system_uid(table, PATTERN_SET_START_SYMBOL)
}

/// The identifier of the pattern element that closes a set. The name must have
/// been registered, as [`initialize_system_uids`] does.
pub fn pattern_set_end(table: &mut SymbolTable) -> (uid: UID)
    requires
        old(table).wf(),
        known(old(table)@, PATTERN_SET_END_SYMBOL@),
    ensures
        final(table).wf(),
        fetched(old(table)@, PATTERN_SET_END_SYMBOL@, uid, final(table)@),
{
    system_uid(table, PATTERN_SET_END_SYMBOL)
}

/// The identifier of the pattern element that negates. The name must have been
/// registered, as [`initialize_system_uids`] does.
pub fn pattern_not(table: &mut SymbolTable) -> (uid: UID)
    requires
        old(table).wf(),
        known(old(table)@, PATTERN_NOT_SYMBOL@),
    ensures
        final(table).wf(),
        fetched(old(table)@, PATTERN_NOT_SYMBOL@, uid, final(table)@),
{
    system_uid(table, PATTERN_NOT_SYMBOL)
}

/// The identifier of the pattern element that bounds a repetition. The name
/// must have been registered, as [`initialize_system_uids`] does.
pub fn pattern_min_max(table: &mut SymbolTable) -> (uid: UID)
    requires
        old(table).wf(),
        known(old(table)@, PATTERN_MIN_MAX_SYMBOL@),
    ensures
        final(table).wf(),
        fetched(old(table)@, PATTERN_MIN_MAX_SYMBOL@, uid, final(table)@),
{
    system_uid(table, PATTERN_MIN_MAX_SYMBOL)
}

/// The identifier of the mark that opens an error sequence. The name must have
/// been registered, as [`initialize_system_uids`] does.
pub fn error_start(table: &mut SymbolTable) -> (uid: UID)
    requires
        old(table).wf(),
        known(old(table)@, ERROR_START_SYMBOL@),
    ensures
        final(table).wf(),
        fetched(old(table)@, ERROR_START_SYMBOL@, uid, final(table)@),
{
    system_uid(table, ERROR_START_SYMBOL)
}

/// The identifier of the level of a fatal error. The name must have been
/// registered, as [`initialize_system_uids`] does.
pub fn error_fatal(table: &mut SymbolTable) -> (uid: UID)
    requires
        old(table).wf(),
        known(old(table)@, ERROR_FATAL_SYMBOL@),
    ensures
        final(table).wf(),
        fetched(old(table)@, ERROR_FATAL_SYMBOL@, uid, final(table)@),
{
    system_uid(table, ERROR_FATAL_SYMBOL)
}

/// The identifier of the level of a severe error. The name must have been
/// registered, as [`initialize_system_uids`] does.
pub fn error_severe(table: &mut SymbolTable) -> (uid: UID)
    requires
        old(table).wf(),
        known(old(table)@, ERROR_SEVERE_SYMBOL@),
    ensures
        final(table).wf(),
        fetched(old(table)@, ERROR_SEVERE_SYMBOL@, uid, final(table)@),
{
    system_uid(table, ERROR_SEVERE_SYMBOL)
}

/// The identifier of the level of a warning. The name must have been
/// registered, as [`initialize_system_uids`] does.
pub fn error_warning(table: &mut SymbolTable) -> (uid: UID)
    requires
        old(table).wf(),
        known(old(table)@, ERROR_WARNING_SYMBOL@),
    ensures
        final(table).wf(),
        fetched(old(table)@, ERROR_WARNING_SYMBOL@, uid, final(table)@),
{
    system_uid(table, ERROR_WARNING_SYMBOL)
}

/// The identifier of the level of a notice. The name must have been
/// registered, as [`initialize_system_uids`] does.
pub fn error_info(table: &mut SymbolTable) -> (uid: UID)
    requires
        old(table).wf(),
        known(old(table)@, ERROR_INFO_SYMBOL@),
    ensures
        final(table).wf(),
        fetched(old(table)@, ERROR_INFO_SYMBOL@, uid, final(table)@),
{
    system_uid(table, ERROR_INFO_SYMBOL)
}

/// The identifier of the operation that moves. The name must have been
/// registered, as [`initialize_system_uids`] does.
pub fn op_move(table: &mut SymbolTable) -> (uid: UID)
    requires
        old(table).wf(),
        known(old(table)@, OP_MOVE_SYMBOL@),
    ensures
        final(table).wf(),
        fetched(old(table)@, OP_MOVE_SYMBOL@, uid, final(table)@),
{
    system_uid(table, OP_MOVE_SYMBOL)
}

/// The identifier of the operation that inserts. The name must have been
/// registered, as [`initialize_system_uids`] does.
pub fn op_insert(table: &mut SymbolTable) -> (uid: UID)
    requires
        old(table).wf(),
        known(old(table)@, OP_INSERT_SYMBOL@),
    ensures
        final(table).wf(),
        fetched(old(table)@, OP_INSERT_SYMBOL@, uid, final(table)@),
{
    system_uid(table, OP_INSERT_SYMBOL)
}

/// The identifier of the operation that deletes. The name must have been
/// registered, as [`initialize_system_uids`] does.
pub fn op_delete(table: &mut SymbolTable) -> (uid: UID)
    requires
        old(table).wf(),
        known(old(table)@, OP_DELETE_SYMBOL@),
    ensures
        final(table).wf(),
        fetched(old(table)@, OP_DELETE_SYMBOL@, uid, final(table)@),
{
    system_uid(table, OP_DELETE_SYMBOL)
}

/// The identifier of the operation that copies. The name must have been
/// registered, as [`initialize_system_uids`] does.
pub fn op_copy(table: &mut SymbolTable) -> (uid: UID)
    requires
        old(table).wf(),
        known(old(table)@, OP_COPY_SYMBOL@),
    ensures
        final(table).wf(),
        fetched(old(table)@, OP_COPY_SYMBOL@, uid, final(table)@),
{
    system_uid(table, OP_COPY_SYMBOL)
}

/// The identifier of the operation that relates. The name must have been
/// registered, as [`initialize_system_uids`] does.
pub fn op_relate(table: &mut SymbolTable) -> (uid: UID)
    requires
        old(table).wf(),
        known(old(table)@, OP_RELATE_SYMBOL@),
    ensures
        final(table).wf(),
        fetched(old(table)@, OP_RELATE_SYMBOL@, uid, final(table)@),
{
    system_uid(table, OP_RELATE_SYMBOL)
}

/// The identifier of the operation that searches. The name must have been
/// registered, as [`initialize_system_uids`] does.
pub fn op_search(table: &mut SymbolTable) -> (uid: UID)
    requires
        old(table).wf(),
        known(old(table)@, OP_SEARCH_SYMBOL@),
    ensures
        final(table).wf(),
        fetched(old(table)@, OP_SEARCH_SYMBOL@, uid, final(table)@),
{
    system_uid(table, OP_SEARCH_SYMBOL)
}

/// The identifier of the operation that executes. The name must have been
/// registered, as [`initialize_system_uids`] does.
pub fn op_execute(table: &mut SymbolTable) -> (uid: UID)
    requires
        old(table).wf(),
        known(old(table)@, OP_EXECUTE_SYMBOL@),
    ensures
        final(table).wf(),
        fetched(old(table)@, OP_EXECUTE_SYMBOL@, uid, final(table)@),
{
    system_uid(table, OP_EXECUTE_SYMBOL)
}

/// The identifier of the mark of an anchor. The name must have been
/// registered, as [`initialize_system_uids`] does.
pub fn anchor_marker(table: &mut SymbolTable) -> (uid: UID)
    requires
        old(table).wf(),
        known(old(table)@, ANCHOR_MARKER_SYMBOL@),
    ensures
        final(table).wf(),
        fetched(old(table)@, ANCHOR_MARKER_SYMBOL@, uid, final(table)@),
{
    system_uid(table, ANCHOR_MARKER_SYMBOL)
}

/// The identifier of the mark of a sequence's start. The name must have been
/// registered, as [`initialize_system_uids`] does.
pub fn start_marker(table: &mut SymbolTable) -> (uid: UID)
    requires
        old(table).wf(),
        known(old(table)@, START_MARKER_SYMBOL@),
    ensures
        final(table).wf(),
        fetched(old(table)@, START_MARKER_SYMBOL@, uid, final(table)@),
{
    system_uid(table, START_MARKER_SYMBOL)
}

/// The identifier of the mark of the point of execution. The name must have
/// been registered, as [`initialize_system_uids`] does.
pub fn exec_marker(table: &mut SymbolTable) -> (uid: UID)
    requires
        old(table).wf(),
        known(old(table)@, EXEC_MARKER_SYMBOL@),
    ensures
        final(table).wf(),
        fetched(old(table)@, EXEC_MARKER_SYMBOL@, uid, final(table)@),
{
    system_uid(table, EXEC_MARKER_SYMBOL)
}

/// The identifier of the mark of success. The name must have been registered,
/// as [`initialize_system_uids`] does.
pub fn success_marker(table: &mut SymbolTable) -> (uid: UID)
    requires
        old(table).wf(),
        known(old(table)@, SUCCESS_MARKER_SYMBOL@),
    ensures
        final(table).wf(),
        fetched(old(table)@, SUCCESS_MARKER_SYMBOL@, uid, final(table)@),
{
    system_uid(table, SUCCESS_MARKER_SYMBOL)
}

/// The identifier of the mark of failure. The name must have been registered,
/// as [`initialize_system_uids`] does.
pub fn failure_marker(table: &mut SymbolTable) -> (uid: UID)
    requires
        old(table).wf(),
        known(old(table)@, FAILURE_MARKER_SYMBOL@),
    ensures
        final(table).wf(),
        fetched(old(table)@, FAILURE_MARKER_SYMBOL@, uid, final(table)@),
{
    system_uid(table, FAILURE_MARKER_SYMBOL)
}

/// Registers every name of the system in the global context of the
/// registry that the process shares: those of
/// [`pre_register_system_symbols`], then the rest. See
/// [`registration_of_all`].
pub fn initialize_system_uids(table: &mut SymbolTable, generator: &mut UIDGenerator) -> (done:
    Result<(), SymbolError>)
    requires
        old(table).wf(),
        old(generator)@.wf(),
    ensures
        final(table).wf(),
        final(generator)@.wf(),
        registration_of_all(
            old(table)@,
            old(generator)@,
            system_symbols(),
            done,
            final(table)@,
            final(generator)@,
        ),
{
    match pre_register_system_symbols(table, generator) {
        Ok(()) => {},
        Err(e) => {
            proof {
                lemma_registration_cut_short(
                    old(table)@,
                    old(generator)@,
                    pre_registered_symbols(),
                    later_symbols(),
                    Err(e),
                    table@,
                    generator@,
                );
            }
            return Err(e);
        },
    }
    let ghost between = table@;
    let ghost meanwhile = generator@;
    let names: Vec<&'static str> = vec![
        ERROR_START_SYMBOL,
        OP_SEARCH_SYMBOL,
        OP_EXECUTE_SYMBOL,
        ANCHOR_MARKER_SYMBOL,
        START_MARKER_SYMBOL,
        EXEC_MARKER_SYMBOL,
        SUCCESS_MARKER_SYMBOL,
        FAILURE_MARKER_SYMBOL,
    ];
    assert(texts(names@) =~= later_symbols());
    let done = register_all(table, generator, &names);
    proof {
        lemma_registration_in_two(
            old(table)@,
            old(generator)@,
            pre_registered_symbols(),
            between,
            meanwhile,
            later_symbols(),
            done,
            table@,
            generator@,
        );
    }
    done
}

/// The place of each name among the names of the system.
pub proof fn lemma_system_symbols()
    ensures
        system_symbols().len() == 26,
        system_symbols()[0] == REL_ROLE_SYMBOL@,
        system_symbols()[1] == REL_CONTEXT_SYMBOL@,
        system_symbols()[2] == REL_MEANING_SYMBOL@,
        system_symbols()[3] == PATTERN_WILDCARD_SYMBOL@,
        system_symbols()[4] == PATTERN_WILDCARD_MULTI_SYMBOL@,
        system_symbols()[5] == PATTERN_SET_START_SYMBOL@,
        system_symbols()[6] == PATTERN_SET_END_SYMBOL@,
        system_symbols()[7] == PATTERN_NOT_SYMBOL@,
        system_symbols()[8] == PATTERN_MIN_MAX_SYMBOL@,
        system_symbols()[9] == ERROR_FATAL_SYMBOL@,
        system_symbols()[10] == ERROR_SEVERE_SYMBOL@,
        system_symbols()[11] == ERROR_WARNING_SYMBOL@,
        system_symbols()[12] == ERROR_INFO_SYMBOL@,
        system_symbols()[13] == OP_MOVE_SYMBOL@,
        system_symbols()[14] == OP_INSERT_SYMBOL@,
        system_symbols()[15] == OP_DELETE_SYMBOL@,
        system_symbols()[16] == OP_COPY_SYMBOL@,
        system_symbols()[17] == OP_RELATE_SYMBOL@,
        system_symbols()[18] == ERROR_START_SYMBOL@,
        system_symbols()[19] == OP_SEARCH_SYMBOL@,
        system_symbols()[20] == OP_EXECUTE_SYMBOL@,
        system_symbols()[21] == ANCHOR_MARKER_SYMBOL@,
        system_symbols()[22] == START_MARKER_SYMBOL@,
        system_symbols()[23] == EXEC_MARKER_SYMBOL@,
        system_symbols()[24] == SUCCESS_MARKER_SYMBOL@,
        system_symbols()[25] == FAILURE_MARKER_SYMBOL@,
{
}

/// A registry that knows all names of the system knows each of them.
pub proof fn lemma_knows_each(registry: RegistryView)
    requires
        registry.knows_all(system_symbols()),
    ensures
        known(registry, REL_ROLE_SYMBOL@),
        known(registry, REL_CONTEXT_SYMBOL@),
        known(registry, REL_MEANING_SYMBOL@),
        known(registry, PATTERN_WILDCARD_SYMBOL@),
        known(registry, PATTERN_WILDCARD_MULTI_SYMBOL@),
        known(registry, PATTERN_SET_START_SYMBOL@),
        known(registry, PATTERN_SET_END_SYMBOL@),
        known(registry, PATTERN_NOT_SYMBOL@),
        known(registry, PATTERN_MIN_MAX_SYMBOL@),
        known(registry, ERROR_FATAL_SYMBOL@),
        known(registry, ERROR_SEVERE_SYMBOL@),
        known(registry, ERROR_WARNING_SYMBOL@),
        known(registry, ERROR_INFO_SYMBOL@),
        known(registry, OP_MOVE_SYMBOL@),
        known(registry, OP_INSERT_SYMBOL@),
        known(registry, OP_DELETE_SYMBOL@),
        known(registry, OP_COPY_SYMBOL@),
        known(registry, OP_RELATE_SYMBOL@),
        known(registry, ERROR_START_SYMBOL@),
        known(registry, OP_SEARCH_SYMBOL@),
        known(registry, OP_EXECUTE_SYMBOL@),
        known(registry, ANCHOR_MARKER_SYMBOL@),
        known(registry, START_MARKER_SYMBOL@),
        known(registry, EXEC_MARKER_SYMBOL@),
        known(registry, SUCCESS_MARKER_SYMBOL@),
        known(registry, FAILURE_MARKER_SYMBOL@),
{
    lemma_system_symbols();
}

/// The identifier of the name at `index` of [`system_symbols`], looked up
/// by its own function.
fn nth_system_uid(table: &mut SymbolTable, index: usize) -> (uid: UID)
    requires
        old(table).wf(),
        old(table)@.knows_all(system_symbols()),
        index < 26,
    ensures
        final(table).wf(),
        old(table)@.lookup(lowercase(system_symbols()[index as int]), ContextView::Global) == Some(
            uid,
        ),
        look_ups(old(table)@, 1, final(table)@),
{
    proof {
        lemma_knows_each(table@);
        lemma_system_symbols();
    }
    match index {
        0 => rel_role(table),
        1 => rel_context(table),
        2 => rel_meaning(table),
        3 => pattern_wildcard(table),
        4 => pattern_wildcard_multi(table),
        5 => pattern_set_start(table),
        6 => pattern_set_end(table),
        7 => pattern_not(table),
        8 => pattern_min_max(table),
        9 => error_fatal(table),
        10 => error_severe(table),
        11 => error_warning(table),
        12 => error_info(table),
        13 => op_move(table),
        14 => op_insert(table),
        15 => op_delete(table),
        16 => op_copy(table),
        17 => op_relate(table),
        18 => error_start(table),
        19 => op_search(table),
        20 => op_execute(table),
        21 => anchor_marker(table),
        22 => start_marker(table),
        23 => exec_marker(table),
        24 => success_marker(table),
        _ => failure_marker(table),
    }
}

/// All names of the system, in the order of [`system_symbols`].
pub fn system_names() -> (names: Vec<&'static str>)
    ensures
        texts(names@) == system_symbols(),
{
    let names: Vec<&'static str> = vec![
        REL_ROLE_SYMBOL,
        REL_CONTEXT_SYMBOL,
        REL_MEANING_SYMBOL,
        PATTERN_WILDCARD_SYMBOL,
        PATTERN_WILDCARD_MULTI_SYMBOL,
        PATTERN_SET_START_SYMBOL,
        PATTERN_SET_END_SYMBOL,
        PATTERN_NOT_SYMBOL,
        PATTERN_MIN_MAX_SYMBOL,
        ERROR_FATAL_SYMBOL,
        ERROR_SEVERE_SYMBOL,
        ERROR_WARNING_SYMBOL,
        ERROR_INFO_SYMBOL,
        OP_MOVE_SYMBOL,
        OP_INSERT_SYMBOL,
        OP_DELETE_SYMBOL,
        OP_COPY_SYMBOL,
        OP_RELATE_SYMBOL,
        ERROR_START_SYMBOL,
        OP_SEARCH_SYMBOL,
        OP_EXECUTE_SYMBOL,
        ANCHOR_MARKER_SYMBOL,
        START_MARKER_SYMBOL,
        EXEC_MARKER_SYMBOL,
        SUCCESS_MARKER_SYMBOL,
        FAILURE_MARKER_SYMBOL,
    ];
    assert(texts(names@) =~= system_symbols());
    names
}

/// The identifiers of all names of the system, in the order of
/// [`system_symbols`], or `None` when some name has not been registered; the
/// registry is then left as it is. Each identifier is looked up in turn, as
/// by its own function: that makes 26 look-ups and as many hits.
pub fn system_uids(table: &mut SymbolTable) -> (uids: Option<Vec<UID>>)
    requires
        old(table).wf(),
    ensures
        final(table).wf(),
        uids is Some <==> old(table)@.knows_all(system_symbols()),
        uids matches Some(found) ==> found@.len() == system_symbols().len(),
        uids matches Some(found) ==> forall|i: int|
            0 <= i < found@.len() ==> old(table)@.lookup(
                lowercase(system_symbols()[i]),
                ContextView::Global,
            ) == Some(#[trigger] found@[i]),
        uids is Some ==> look_ups(old(table)@, 26, final(table)@),
        uids is None ==> final(table)@ == old(table)@,
{
    let names = system_names();
    if !knows_all_names(table, &names) {
        return None;
    }
    let mut found: Vec<UID> = Vec::new();
    let mut at: usize = 0;
    while at < 26
        invariant
            at <= 26,
            system_symbols().len() == 26,
            table.wf(),
            old(table)@.knows_all(system_symbols()),
            look_ups(old(table)@, at as int, table@),
            found@.len() == at,
            forall|k: int|
                0 <= k < at ==> old(table)@.lookup(
                    lowercase(system_symbols()[k]),
                    ContextView::Global,
                ) == Some(#[trigger] found@[k]),
        decreases 26 - at,
    {
        let ghost between = table@;
        let uid = nth_system_uid(table, at);
        proof {
            lemma_look_ups_add(old(table)@, at as int, between, 1, table@);
        }
        found.push(uid);
        at = at + 1;
    }
    Some(found)
}

} // verus!
