//! The symbol registry.
//!
//! A name resolves to an identifier within a context, so that one name can
//! stand for different things in different contexts. Names are folded to
//! lower case before they are stored or looked up. The registry also keeps the
//! way back, from an identifier to the names that point at it.

pub mod context;
pub mod entry;
pub mod model;
pub mod name;
mod reverse;
pub mod table;

pub use crate::kernel::symbol_map::context::{Context, ContextView};
pub use crate::kernel::symbol_map::entry::{
    entries_valid, entry_pairs, EntryView, SymbolMapping,
};
pub use crate::kernel::symbol_map::model::{
    failed_as, lemma_aliasing, lemma_cascade_delete, lemma_case_fold, lemma_context_isolation,
    lemma_register_idempotent, lemma_registration_cut_short, lemma_registration_in_two,
    lemma_registrations_differ, registration, registration_of_all, RegistryView,
};
pub use crate::kernel::symbol_map::name::lowercase;
pub use crate::kernel::symbol_map::table::{SymbolError, SymbolStats, SymbolTable};

use crate::kernel::types::UID;
use crate::kernel::uid_gen::UIDGenerator;
use vstd::prelude::*;

verus! {

/// Registers `symbol` in the global context of the registry that the
/// process shares; see [`SymbolTable::register_symbol`].
pub fn register_global_symbol(
    table: &mut SymbolTable,
    generator: &mut UIDGenerator,
    symbol: &str,
) -> (issued: Result<UID, SymbolError>)
    requires
        old(table).wf(),
        old(generator)@.wf(),
    ensures
        final(table).wf(),
        final(generator)@.wf(),
        exists|now: u64| #[trigger]
            registration(
                old(table)@,
                old(generator)@,
                lowercase(symbol@),
                ContextView::Global,
                now,
                issued,
                final(table)@,
                final(generator)@,
            ),
        issued matches Ok(uid) ==> final(table)@.lookup(lowercase(symbol@), ContextView::Global)
            == Some(uid),
{
    table.register_symbol(symbol, Context::Global, generator)
}

/// The identifier of `symbol` in the global context of the registry that the
/// process shares; see [`SymbolTable::get_uid`].
pub fn get_global_uid(table: &mut SymbolTable, symbol: &str) -> (found: Option<UID>)
    requires
        old(table).wf(),
    ensures
        final(table).wf(),
        found == old(table)@.lookup(lowercase(symbol@), ContextView::Global),
        exists|now: u64| #[trigger]
            old(table)@.looked_up(lowercase(symbol@), ContextView::Global, now) == final(table)@,
{
    let global = Context::Global;
    table.get_uid(symbol, &global)
}

/// The identifier of `symbol` in `context` in the registry that the process
/// shares; see [`SymbolTable::get_uid`].
pub fn get_uid_in_context(table: &mut SymbolTable, symbol: &str, context: &Context) -> (found:
    Option<UID>)
    requires
        old(table).wf(),
    ensures
        final(table).wf(),
        found == old(table)@.lookup(lowercase(symbol@), context@),
        exists|now: u64| #[trigger]
            old(table)@.looked_up(lowercase(symbol@), context@, now) == final(table)@,
{
    table.get_uid(symbol, context)
}

/// A name for `uid` in the registry that the process shares; see
/// [`SymbolTable::get_base_symbol`].
pub fn get_base_symbol_for_uid(table: &mut SymbolTable, uid: UID) -> (base: Option<String>)
    requires
        old(table).wf(),
    ensures
        *final(table) == *old(table),
        base matches Some(name) ==> old(table)@.aliased(name@, uid),
        base matches Some(name) ==> (old(table)@.has_global(uid) ==> old(table)@.lookup(
            name@,
            ContextView::Global,
        ) == Some(uid)),
        base is None <==> !old(table)@.in_use(uid),
{
    table.get_base_symbol(uid)
}

/// The names of `names`, by their characters.
pub open spec fn texts(names: Seq<&'static str>) -> Seq<Seq<char>> {
    Seq::new(names.len(), |i: int| names[i]@)
}

/// Registers each of `names` in the global context, first to last, and
/// stops at the first that fails; see [`registration_of_all`].
pub fn register_all(
    table: &mut SymbolTable,
    generator: &mut UIDGenerator,
    names: &Vec<&'static str>,
) -> (done: Result<(), SymbolError>)
    requires
        old(table).wf(),
        old(generator)@.wf(),
    ensures
        final(table).wf(),
        final(generator)@.wf(),
        registration_of_all(
            old(table)@,
            old(generator)@,
            texts(names@),
            done,
            final(table)@,
            final(generator)@,
        ),
{
    let mut i: usize = 0;
    while i < names.len()
        invariant
            i <= names@.len(),
            table.wf(),
            generator@.wf(),
            table@.extends(old(table)@),
            table@.grows_by(old(table)@, texts(names@)),
            table@.new_within(old(table)@, old(generator)@.watermark(), generator@.watermark()),
            table@.new_apart(old(table)@),
            old(generator)@.watermark() <= generator@.watermark(),
            table@.knows_all(texts(names@.take(i as int))),
            old(table)@.knows_all(texts(names@)) ==> generator@ == old(generator)@,
        decreases names@.len() - i,
    {
        let ghost before = table@;
        let ghost meanwhile = generator@;
        let ghost name = lowercase(names@[i as int]@);
        proof {
            assert(texts(names@)[i as int] == names@[i as int]@);
        }
        match table.register_symbol(names[i], Context::Global, generator) {
            Ok(_) => {},
            Err(e) => {
                return Err(e);
            },
        }
        proof {
            assert forall|n: Seq<char>, c: ContextView|
                (#[trigger] table@.lookup(n, c)) is Some && before.lookup(n, c)
                    is None implies n == name && c == ContextView::Global && meanwhile.watermark()
                    < table@.lookup(n, c)->Some_0.0 <= generator@.watermark() by {}
            assert forall|k: int| 0 <= k < i + 1 implies table@.lookup(
                lowercase(#[trigger] texts(names@.take(i + 1))[k]),
                ContextView::Global,
            ) is Some by {
                if k < i {
                    assert(before.lookup(
                        lowercase(texts(names@.take(i as int))[k]),
                        ContextView::Global,
                    ) is Some);
                }
            }
        }
        i = i + 1;
    }
    proof {
        assert(names@.take(i as int) =~= names@);
    }
    Ok(())
}

/// The names that [`pre_register_system_symbols`] registers.
pub open spec fn pre_registered_symbols() -> Seq<Seq<char>> {
    seq![
        "REL_ROLE"@,
        "REL_CONTEXT"@,
        "REL_MEANING"@,
        "PATTERN_WILDCARD"@,
        "PATTERN_WILDCARD_MULTI"@,
        "PATTERN_SET_START"@,
        "PATTERN_SET_END"@,
        "PATTERN_NOT"@,
        "PATTERN_MIN_MAX"@,
        "ERROR_FATAL"@,
        "ERROR_SEVERE"@,
        "ERROR_WARNING"@,
        "ERROR_INFO"@,
        "OP_MOVE"@,
        "OP_INSERT"@,
        "OP_DELETE"@,
        "OP_COPY"@,
        "OP_RELATE"@,
    ]
}

/// The names that [`pre_register_system_symbols`] registers, in their order.
pub fn pre_registered_names() -> (names: Vec<&'static str>)
    ensures
        texts(names@) == pre_registered_symbols(),
{
    let names: Vec<&'static str> = vec![
        "REL_ROLE",
        "REL_CONTEXT",
        "REL_MEANING",
        "PATTERN_WILDCARD",
        "PATTERN_WILDCARD_MULTI",
        "PATTERN_SET_START",
        "PATTERN_SET_END",
        "PATTERN_NOT",
        "PATTERN_MIN_MAX",
        "ERROR_FATAL",
        "ERROR_SEVERE",
        "ERROR_WARNING",
        "ERROR_INFO",
        "OP_MOVE",
        "OP_INSERT",
        "OP_DELETE",
        "OP_COPY",
        "OP_RELATE",
    ];
    assert(texts(names@) =~= pre_registered_symbols());
    names
}

/// Whether each of `names` has an identifier in the global context. The
/// registry is left as it is.
pub fn knows_all_names(table: &SymbolTable, names: &Vec<&'static str>) -> (all: bool)
    requires
        table.wf(),
    ensures
        all == table@.knows_all(texts(names@)),
{
    let global = Context::Global;
    let mut i: usize = 0;
    while i < names.len()
        invariant
            i <= names@.len(),
            global@ == ContextView::Global,
            table.wf(),
            forall|j: int|
                0 <= j < i ==> table@.lookup(
                    lowercase(#[trigger] texts(names@)[j]),
                    ContextView::Global,
                ) is Some,
        decreases names@.len() - i,
    {
        assert(texts(names@)[i as int] == names@[i as int]@);
        if table.peek(names[i], &global).is_none() {
            return false;
        }
        i = i + 1;
    }
    true
}

/// Registers the names that the system itself uses most, in the global
/// context of the registry that the process shares: the relation marks, the
/// pattern elements, the error levels and the first operation codes. See
/// [`registration_of_all`].
pub fn pre_register_system_symbols(table: &mut SymbolTable, generator: &mut UIDGenerator) -> (done:
    Result<(), SymbolError>)
    requires
        old(table).wf(),
        old(generator)@.wf(),
    ensures
        final(table).wf(),
        final(generator)@.wf(),
        registration_of_all(
            old(table)@,
            old(generator)@,
            pre_registered_symbols(),
            done,
            final(table)@,
            final(generator)@,
        ),
{
    let names = pre_registered_names();
    assert(texts(names@) =~= pre_registered_symbols());
    register_all(table, generator, &names)
}

} // verus!
