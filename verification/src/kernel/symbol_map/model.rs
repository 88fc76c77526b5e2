//! The registry as a map from names to entries: what each operation does to
//! it, and the laws that follow.

use crate::kernel::symbol_map::context::ContextView;
use crate::kernel::symbol_map::entry::{lemma_resolves_after_insert, EntryView};
use crate::kernel::symbol_map::name::lowercase;
use crate::kernel::symbol_map::table::SymbolError;
use crate::kernel::types::UID;
use crate::kernel::uid_gen::{GeneratorState, UIDGeneratorError};
use vstd::prelude::*;

verus! {

/// The registry as contracts see it: the entry of each name, and the
/// counters that are not read off the entries.
pub struct RegistryView {
    /// The entry of each name that has one, by the name in lower case.
    pub entries: Map<Seq<char>, EntryView>,
    pub lookups: u64,
    pub cache_hits: u64,
    pub cleanup_count: u64,
}

/// One more on a counter that stops at its largest value.
pub open spec fn bump(count: u64) -> u64 {
    count.saturating_add(1)
}

/// Whether an entry last used at `last_accessed` has, at `now`, gone unused
/// for more than `max_age` milliseconds.
pub open spec fn stale(last_accessed: u64, max_age: u64, now: u64) -> bool {
    now.saturating_sub(last_accessed) > max_age
}

impl RegistryView {
    /// The identifier of `name` in `context`, if it has one.
    pub open spec fn lookup(self, name: Seq<char>, context: ContextView) -> Option<UID> {
        if self.entries.contains_key(name) {
            self.entries[name].bindings.get(context)
        } else {
            None
        }
    }

    /// Some context resolves `name` to `uid`.
    pub open spec fn aliased(self, name: Seq<char>, uid: UID) -> bool {
        self.entries.contains_key(name) && self.entries[name].points_at(uid)
    }

    /// The names that some context resolves to `uid`.
    pub open spec fn symbols_for(self, uid: UID) -> Set<Seq<char>> {
        Set::new(|name: Seq<char>| self.aliased(name, uid))
    }

    /// Some name points at `uid`.
    pub open spec fn in_use(self, uid: UID) -> bool {
        exists|name: Seq<char>| self.aliased(name, uid)
    }

    /// The identifiers that some name points at.
    pub open spec fn identifiers(self) -> Set<UID> {
        Set::new(|uid: UID| self.in_use(uid))
    }

    /// There are finitely many names and identifiers, and every name has an
    /// identifier in some context.
    pub open spec fn wf(self) -> bool {
        &&& self.entries.dom().finite()
        &&& self.identifiers().finite()
        &&& forall|name: Seq<char>| #[trigger]
            self.entries.contains_key(name) ==> exists|context: ContextView|
                self.entries[name].bindings.contains_key(context)
    }

    /// The registry after a look-up of `name` in `context` at `now`: one
    /// more look-up, one more hit if it found an identifier, and the entry of
    /// `name`, if there is one, last used at `now`.
    pub open spec fn looked_up(self, name: Seq<char>, context: ContextView, now: u64) -> RegistryView {
        RegistryView {
            entries: if self.entries.contains_key(name) {
                self.entries.insert(name, self.entries[name].touched(now))
            } else {
                self.entries
            },
            lookups: bump(self.lookups),
            cache_hits: if self.lookup(name, context) is Some {
                bump(self.cache_hits)
            } else {
                self.cache_hits
            },
            cleanup_count: self.cleanup_count,
        }
    }

    /// The registry after `name` was given the identifier `uid` in `context`
    /// at `now`: the entry of `name` holds it in place of what it held for
    /// that context, and was last used at `now`; a name without an entry gets
    /// one, made at `now`.
    pub open spec fn bound(self, name: Seq<char>, context: ContextView, uid: UID, now: u64) -> RegistryView {
        RegistryView {
            entries: self.entries.insert(
                name,
                if self.entries.contains_key(name) {
                    EntryView {
                        bindings: self.entries[name].bindings.insert(context, uid),
                        created_at: self.entries[name].created_at,
                        last_accessed: now,
                    }
                } else {
                    EntryView { bindings: map![context => uid], created_at: now, last_accessed: now }
                },
            ),
            ..self
        }
    }

    /// The registry after `name` lost its identifier in `context`: the entry
    /// goes with its last identifier.
    pub open spec fn unbound(self, name: Seq<char>, context: ContextView) -> RegistryView {
        if self.lookup(name, context) is Some {
            let rest = self.entries[name].bindings.remove(context);
            RegistryView {
                entries: if rest.is_empty() {
                    self.entries.remove(name)
                } else {
                    self.entries.insert(name, EntryView { bindings: rest, ..self.entries[name] })
                },
                ..self
            }
        } else {
            self
        }
    }

    /// The registry after a registration of `name` in `context` at `now`
    /// for which `uid` stood ready: a name that had an identifier there keeps
    /// it, its entry is last used at `now`, and that is one more hit; a name
    /// that had none gets `uid`.
    pub open spec fn registered(self, name: Seq<char>, context: ContextView, uid: UID, now: u64) -> RegistryView {
        if self.lookup(name, context) is Some {
            RegistryView {
                entries: self.entries.insert(name, self.entries[name].touched(now)),
                cache_hits: bump(self.cache_hits),
                ..self
            }
        } else {
            self.bound(name, context, uid, now)
        }
    }

    /// The identifier that a registration of `name` in `context` returns
    /// when `fresh` stands ready: the one that the name has there, or
    /// `fresh` if it has none.
    pub open spec fn resolved(self, name: Seq<char>, context: ContextView, fresh: UID) -> UID {
        match self.lookup(name, context) {
            Some(existing) => existing,
            None => fresh,
        }
    }

    /// Some name has `uid` in the global context.
    pub open spec fn has_global(self, uid: UID) -> bool {
        exists|name: Seq<char>| #[trigger] self.lookup(name, ContextView::Global) == Some(uid)
    }

    /// The registry holds what `earlier` held; only counters and times of
    /// use may differ.
    pub open spec fn same_but_for_use(self, earlier: RegistryView) -> bool {
        &&& forall|name: Seq<char>| #[trigger]
            self.entries.contains_key(name) <==> earlier.entries.contains_key(name)
        &&& forall|name: Seq<char>| #[trigger]
            earlier.entries.contains_key(name) ==> self.entries[name].bindings
                == earlier.entries[name].bindings && self.entries[name].created_at
                == earlier.entries[name].created_at
        &&& self.cleanup_count == earlier.cleanup_count
    }

    /// Whatever a name had in a context in `earlier`, it still has.
    pub open spec fn extends(self, earlier: RegistryView) -> bool {
        forall|name: Seq<char>, context: ContextView|
            (#[trigger] earlier.lookup(name, context)) is Some ==> self.lookup(name, context)
                == earlier.lookup(name, context)
    }

    /// Each of `names` has an identifier in the global context.
    pub open spec fn knows_all(self, names: Seq<Seq<char>>) -> bool {
        forall|i: int|
            0 <= i < names.len() ==> self.lookup(
                lowercase(#[trigger] names[i]),
                ContextView::Global,
            ) is Some
    }

    /// Nothing has come since `earlier` but identifiers in the global
    /// context for names among `names`.
    pub open spec fn grows_by(self, earlier: RegistryView, names: Seq<Seq<char>>) -> bool {
        forall|name: Seq<char>, context: ContextView|
            (#[trigger] self.lookup(name, context)) is Some ==> earlier.lookup(name, context)
                is Some || (context == ContextView::Global && exists|i: int|
                0 <= i < names.len() && name == lowercase(#[trigger] names[i]))
    }

    /// Every identifier that has come since `earlier` lies above `low` and
    /// not above `high`.
    pub open spec fn new_within(self, earlier: RegistryView, low: int, high: int) -> bool {
        forall|name: Seq<char>, context: ContextView|
            (#[trigger] self.lookup(name, context)) is Some && earlier.lookup(name, context)
                is None ==> low < self.lookup(name, context)->Some_0.0 <= high
    }

    /// Identifiers that have come since `earlier` are all different: no two
    /// places, each a name in a context, that had none then have the same
    /// now.
    pub open spec fn new_apart(self, earlier: RegistryView) -> bool {
        forall|one: Seq<char>, one_context: ContextView, other: Seq<char>, other_context: ContextView|
            (one != other || one_context != other_context) && (#[trigger] self.lookup(
                one,
                one_context,
            )) is Some && earlier.lookup(one, one_context) is None && (#[trigger] self.lookup(
                other,
                other_context,
            )) is Some && earlier.lookup(other, other_context) is None ==> self.lookup(
                one,
                one_context,
            ) != self.lookup(other, other_context)
    }

    /// The registry after a cleanup pass at `now`: without the entries that
    /// were stale then, and with one more pass counted.
    pub open spec fn swept(self, max_age: u64, now: u64) -> RegistryView {
        RegistryView {
            entries: Map::new(
                |name: Seq<char>|
                    self.entries.contains_key(name) && !stale(
                        self.entries[name].last_accessed,
                        max_age,
                        now,
                    ),
                |name: Seq<char>| self.entries[name],
            ),
            cleanup_count: bump(self.cleanup_count),
            ..self
        }
    }
}

/// What a registration of `name` in `context` at `now` does, with a
/// registry `before` and a generator `generator`, and leaving them as
/// `after` and `then`.
///
/// A name that has an identifier there keeps it: the identifier is returned,
/// one more hit is counted, the entry counts as used at `now`, and the
/// generator is not asked. A name that has none gets the next identifier of
/// the generator, which is returned. When the generator fails, the registry
/// stays as it was and the error holds the generator's, in words.
pub open spec fn registration(
    before: RegistryView,
    generator: GeneratorState,
    name: Seq<char>,
    context: ContextView,
    now: u64,
    issued: Result<UID, SymbolError>,
    after: RegistryView,
    then: GeneratorState,
) -> bool {
    match before.lookup(name, context) {
        Some(existing) => {
            &&& issued == Ok::<UID, SymbolError>(existing)
            &&& after == before.registered(name, context, existing, now)
            &&& then == generator
        },
        None => match issued {
            Ok(uid) => {
                &&& after == before.registered(name, context, uid, now)
                &&& generator.ends_as(Ok(uid), then)
                &&& generator.watermark() < uid.0
                &&& then.watermark() == uid.0
            },
            Err(SymbolError::UIDGenerationFailed(text)) => {
                &&& after == before
                &&& then == generator
                &&& exists|e: UIDGeneratorError|
                    {
                        &&& #[trigger] generator.ends_as(Err(e), then)
                        &&& text@ == e.message()
                    }
            },
            Err(_) => false,
        },
    }
}

/// What the registration of each of `names` in the global context, first to
/// last and up to the first that fails, does with a registry `before` and a
/// generator `generator`, and leaving them as `after` and `then`.
///
/// Names that had an identifier keep it, and nothing that any name had is
/// lost. Nothing comes but identifiers for names among `names`, each of them
/// generated in between and no two of them the same. When all went well each
/// of `names` has an identifier. It goes well at least when each had one
/// before: the generator is then not asked. It fails only where the generator
/// fails, which is then left where it failed, and the error holds the
/// generator's, in words.
pub open spec fn registration_of_all(
    before: RegistryView,
    generator: GeneratorState,
    names: Seq<Seq<char>>,
    done: Result<(), SymbolError>,
    after: RegistryView,
    then: GeneratorState,
) -> bool {
    &&& after.extends(before)
    &&& after.grows_by(before, names)
    &&& after.new_within(before, generator.watermark(), then.watermark())
    &&& after.new_apart(before)
    &&& generator.watermark() <= then.watermark()
    &&& done is Ok ==> after.knows_all(names)
    &&& before.knows_all(names) ==> done is Ok && then == generator
    &&& done matches Err(e) ==> failed_as(then, e)
}

/// The registry's error `e` is that of a generator that, standing as
/// `generator`, failed to generate: it holds the generator's error in words.
pub open spec fn failed_as(generator: GeneratorState, e: SymbolError) -> bool {
    match e {
        SymbolError::UIDGenerationFailed(text) => exists|cause: UIDGeneratorError|
            {
                &&& #[trigger] generator.ends_as(Err(cause), generator)
                &&& text@ == cause.message()
            },
        _ => false,
    }
}

/// Registering some names and then, if that went well, some more is
/// registering them all.
pub proof fn lemma_registration_in_two(
    before: RegistryView,
    generator: GeneratorState,
    first: Seq<Seq<char>>,
    between: RegistryView,
    meanwhile: GeneratorState,
    second: Seq<Seq<char>>,
    done: Result<(), SymbolError>,
    after: RegistryView,
    then: GeneratorState,
)
    requires
        registration_of_all(before, generator, first, Ok(()), between, meanwhile),
        registration_of_all(between, meanwhile, second, done, after, then),
    ensures
        registration_of_all(before, generator, first + second, done, after, then),
{
    let all = first + second;
    assert forall|name: Seq<char>, context: ContextView|
        (#[trigger] after.lookup(name, context)) is Some implies before.lookup(name, context)
            is Some || (context == ContextView::Global && exists|i: int|
            0 <= i < all.len() && name == lowercase(#[trigger] all[i])) by {
        if before.lookup(name, context) is None {
            if between.lookup(name, context) is Some {
                let i = choose|i: int| 0 <= i < first.len() && name == lowercase(#[trigger] first[i]);
                assert(all[i] == first[i]);
            } else {
                let i = choose|i: int|
                    0 <= i < second.len() && name == lowercase(#[trigger] second[i]);
                assert(all[i + first.len()] == second[i]);
            }
        }
    }
    if before.knows_all(all) {
        assert forall|i: int| 0 <= i < second.len() implies between.lookup(
            lowercase(#[trigger] second[i]),
            ContextView::Global,
        ) is Some by {
            assert(all[i + first.len()] == second[i]);
        }
    }
}

/// A registration of some names that failed is a registration of those and
/// more that failed.
pub proof fn lemma_registration_cut_short(
    before: RegistryView,
    generator: GeneratorState,
    first: Seq<Seq<char>>,
    second: Seq<Seq<char>>,
    done: Result<(), SymbolError>,
    after: RegistryView,
    then: GeneratorState,
)
    requires
        done is Err,
        registration_of_all(before, generator, first, done, after, then),
    ensures
        registration_of_all(before, generator, first + second, done, after, then),
{
    let all = first + second;
    assert forall|name: Seq<char>, context: ContextView|
        (#[trigger] after.lookup(name, context)) is Some implies before.lookup(name, context)
            is Some || (context == ContextView::Global && exists|i: int|
            0 <= i < all.len() && name == lowercase(#[trigger] all[i])) by {
        if before.lookup(name, context) is None {
            let i = choose|i: int| 0 <= i < first.len() && name == lowercase(#[trigger] first[i]);
            assert(all[i] == first[i]);
        }
    }
    if before.knows_all(all) {
        assert forall|i: int| 0 <= i < first.len() implies before.lookup(
            lowercase(#[trigger] first[i]),
            ContextView::Global,
        ) is Some by {
            assert(all[i] == first[i]);
        }
    }
}

/// Two registrations that each generate an identifier generate different
/// ones: the later is the larger.
pub proof fn lemma_registrations_differ(
    before: RegistryView,
    generator: GeneratorState,
    one: Seq<char>,
    one_context: ContextView,
    at: u64,
    first: UID,
    between: RegistryView,
    meanwhile: GeneratorState,
    other: Seq<char>,
    other_context: ContextView,
    then: u64,
    second: UID,
    after: RegistryView,
    finally: GeneratorState,
)
    requires
        generator.wf(),
        before.lookup(one, one_context) is None,
        before.lookup(other, other_context) is None,
        one != other || one_context != other_context,
        registration(before, generator, one, one_context, at, Ok(first), between, meanwhile),
        registration(between, meanwhile, other, other_context, then, Ok(second), after, finally),
    ensures
        first.0 < second.0,
        after.lookup(one, one_context) == Some(first),
        after.lookup(other, other_context) == Some(second),
{
    lemma_context_isolation(before, one, one_context, first, at, other, other_context);
    lemma_context_isolation(between, other, other_context, second, then, one, one_context);
}

/// Registering is idempotent: a second registration of a name in a context
/// returns the identifier that the first returned, whatever identifier stood
/// ready for it.
pub proof fn lemma_register_idempotent(
    registry: RegistryView,
    name: Seq<char>,
    context: ContextView,
    first: UID,
    second: UID,
    at: u64,
)
    ensures
        registry.registered(name, context, first, at).lookup(name, context) == Some(
            registry.resolved(name, context, first),
        ),
        registry.registered(name, context, first, at).resolved(name, context, second)
            == registry.resolved(name, context, first),
{
}

/// Names that fold to the same lower-case form are one name: what was
/// registered under the one is found, and returned by a registration, under
/// the other.
pub proof fn lemma_case_fold(
    registry: RegistryView,
    one: Seq<char>,
    other: Seq<char>,
    context: ContextView,
    first: UID,
    second: UID,
    at: u64,
)
    requires
        lowercase(one) == lowercase(other),
    ensures
        registry.lookup(lowercase(one), context) == registry.lookup(lowercase(other), context),
        registry.registered(lowercase(one), context, first, at).resolved(
            lowercase(other),
            context,
            second,
        ) == registry.resolved(lowercase(one), context, first),
{
    lemma_register_idempotent(registry, lowercase(one), context, first, second, at);
}

/// Contexts are apart: a registration or a new identifier in one context
/// changes what the name, or any other name, has in no other context.
pub proof fn lemma_context_isolation(
    registry: RegistryView,
    name: Seq<char>,
    context: ContextView,
    uid: UID,
    at: u64,
    other_name: Seq<char>,
    other_context: ContextView,
)
    requires
        other_name != name || other_context != context,
    ensures
        registry.bound(name, context, uid, at).lookup(other_name, other_context) == registry.lookup(
            other_name,
            other_context,
        ),
        registry.registered(name, context, uid, at).lookup(other_name, other_context)
            == registry.lookup(other_name, other_context),
        registry.unbound(name, context).lookup(other_name, other_context) == registry.lookup(
            other_name,
            other_context,
        ),
{
}

/// Two names that are pointed at one identifier are both among its names,
/// beside those that pointed at it before.
pub proof fn lemma_aliasing(
    registry: RegistryView,
    one: Seq<char>,
    one_context: ContextView,
    other: Seq<char>,
    other_context: ContextView,
    uid: UID,
    at: u64,
    then: u64,
)
    ensures
        registry.bound(one, one_context, uid, at).bound(
            other,
            other_context,
            uid,
            then,
        ).symbols_for(uid) == registry.symbols_for(uid).insert(one).insert(other),
{
    let first = registry.bound(one, one_context, uid, at);
    let both = first.bound(other, other_context, uid, then);
    assert forall|name: Seq<char>|
        both.symbols_for(uid).contains(name) <==> registry.symbols_for(uid).insert(one).insert(
            other,
        ).contains(name) by {
        if registry.entries.contains_key(one) {
            lemma_resolves_after_insert(registry.entries[one].bindings, one_context, uid, uid);
        } else {
            lemma_resolves_after_insert(Map::empty(), one_context, uid, uid);
        }
        if first.entries.contains_key(other) {
            lemma_resolves_after_insert(first.entries[other].bindings, other_context, uid, uid);
        } else {
            lemma_resolves_after_insert(Map::empty(), other_context, uid, uid);
        }
    }
}

/// Deleting cascades: when a name loses the only identifier it has left,
/// it resolves in no context any more and is among the names of no
/// identifier.
pub proof fn lemma_cascade_delete(registry: RegistryView, name: Seq<char>, context: ContextView)
    requires
        registry.entries.contains_key(name),
        registry.entries[name].bindings.dom() == set![context],
    ensures
        !registry.unbound(name, context).entries.contains_key(name),
        forall|any: ContextView| registry.unbound(name, context).lookup(name, any) is None,
        forall|uid: UID| !registry.unbound(name, context).symbols_for(uid).contains(name),
        forall|other: Seq<char>, uid: UID|
            other != name ==> (registry.unbound(name, context).symbols_for(uid).contains(other)
                <==> registry.symbols_for(uid).contains(other)),
{
    let bindings = registry.entries[name].bindings;
    assert(bindings.remove(context) =~= Map::<ContextView, UID>::empty()) by {}
}

} // verus!
