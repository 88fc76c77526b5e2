//! The registry itself: the entries, the way back, and the counters, kept
//! in step.

use crate::kernel::assoc::{
    as_map, distinct_keys, has_key, lemma_key_in_list, lemma_map_size, lemma_pair_in_map,
    lemma_push_pair, lemma_remove_pair, lemma_update_pair, place_of,
};
use crate::kernel::clock::now_or_zero;
use crate::kernel::symbol_map::context::{Context, ContextView};
use crate::kernel::symbol_map::entry::{
    entries_valid, entry_pairs, lemma_resolves_after_insert, lemma_resolves_after_remove,
    EntryView, SymbolMapping,
};
use crate::kernel::symbol_map::model::{registration, stale, RegistryView};
use crate::kernel::symbol_map::name::lowercase;
use crate::kernel::symbol_map::reverse::{lemma_links, linked, without_link, ReverseIndex};
use crate::kernel::types::UID;
use crate::kernel::uid_gen::{next_global_uid, UIDGenerator};
use vstd::prelude::*;

verus! {

/// Counters that the registry keeps of itself.
#[derive(Debug, Clone)]
pub struct SymbolStats {
    /// How many names the registry holds.
    pub total_symbols: usize,
    /// How many identifiers have a name.
    pub unique_uids: usize,
    /// How many look-ups were made.
    pub lookups: u64,
    /// How many look-ups and registrations found what they asked for.
    pub cache_hits: u64,
    /// How many cleanup passes were made.
    pub cleanup_count: u64,
}

impl SymbolStats {
    /// Counters at zero.
    pub fn new() -> (stats: Self)
        ensures
            stats.total_symbols == 0,
            stats.unique_uids == 0,
            stats.lookups == 0,
            stats.cache_hits == 0,
            stats.cleanup_count == 0,
    {
        SymbolStats { total_symbols: 0, unique_uids: 0, lookups: 0, cache_hits: 0, cleanup_count: 0 }
    }
}

/// Why the registry could not do what it was asked.
#[derive(Debug, Clone, PartialEq, Eq)]
pub enum SymbolError {
    /// The name is not in the registry.
    SymbolNotFound(String),
    /// No identifier could be generated; the text says why.
    UIDGenerationFailed(String),
    /// The registry could not be written out.
    SerializationError(String),
    /// The registry could not be read back.
    DeserializationError(String),
}

/// The symbol registry.
#[derive(Debug)]
pub struct SymbolTable {
    /// The entry of each name. No name stands twice.
    symbol_to_mapping: Vec<SymbolMapping>,
    /// For each identifier in use, the names that point at it.
    uid_to_symbols: ReverseIndex,
    stats: SymbolStats,
}

impl View for SymbolTable {
    type V = RegistryView;

    closed spec fn view(&self) -> RegistryView {
        RegistryView {
            entries: as_map(self.pairs()),
            lookups: self.stats.lookups,
            cache_hits: self.stats.cache_hits,
            cleanup_count: self.stats.cleanup_count,
        }
    }
}

impl SymbolTable {
    /// The names and their entries, in the order in which they are kept.
    closed spec fn pairs(&self) -> Seq<(Seq<char>, EntryView)> {
        Seq::new(
            self.symbol_to_mapping@.len(),
            |i: int| (self.symbol_to_mapping@[i].symbol@, self.symbol_to_mapping@[i]@),
        )
    }

    /// The entries are sound, one to a name and none without an identifier.
    closed spec fn entries_wf(&self) -> bool {
        &&& distinct_keys(self.pairs())
        &&& forall|i: int|
            0 <= i < self.symbol_to_mapping@.len() ==> (#[trigger] self.symbol_to_mapping@[i]).wf()
                && self.symbol_to_mapping@[i].mappings@.len() > 0
    }

    /// The way back holds the links that the entries make, and no others.
    closed spec fn links_wf(&self) -> bool {
        forall|uid: UID, name: Seq<char>|
            #![trigger linked(self.uid_to_symbols.view(), uid, name)]
            #![trigger self@.aliased(name, uid)]
            linked(self.uid_to_symbols.view(), uid, name) <==> self@.aliased(name, uid)
    }

    /// The registry is sound: no name has two entries and no entry is
    /// without an identifier, the way back from identifiers to names holds
    /// what the entries say and nothing else, and the counters of names and
    /// identifiers are right.
    pub closed spec fn wf(&self) -> bool {
        &&& self.entries_wf()
        &&& self.uid_to_symbols.wf()
        &&& self.links_wf()
        &&& self.stats.total_symbols == self.symbol_to_mapping@.len()
        &&& self.stats.unique_uids == self.uid_to_symbols.view().dom().len()
    }

    /// The counters, as `get_stats` returns them.
    pub closed spec fn stats(&self) -> SymbolStats {
        self.stats
    }

    /// In a sound registry the counters are those of its view: as many
    /// names as entries, as many identifiers as are in use.
    pub proof fn lemma_stats(&self)
        requires
            self.wf(),
        ensures
            self@.wf(),
            self.stats().total_symbols == self@.entries.dom().len(),
            self.stats().unique_uids == self@.identifiers().len(),
            self.stats().lookups == self@.lookups,
            self.stats().cache_hits == self@.cache_hits,
            self.stats().cleanup_count == self@.cleanup_count,
    {
        lemma_map_size(self.pairs());
        self.uid_to_symbols.lemma_wf();
        let index = self.uid_to_symbols.view();
        assert forall|uid: UID| index.contains_key(uid) <==> self@.in_use(uid) by {
            if index.contains_key(uid) {
                let name = choose|name: Seq<char>| index[uid].contains(name);
                assert(self@.aliased(name, uid));
            }
        }
        assert(index.dom() =~= self@.identifiers());
        assert forall|name: Seq<char>| #[trigger] self@.entries.contains_key(name) implies exists|
            context: ContextView,
        |
            self@.entries[name].bindings.contains_key(context) by {
            lemma_key_in_list(self.pairs(), name);
            let i = place_of(self.pairs(), name);
            let entry = self.symbol_to_mapping@[i];
            lemma_pair_in_map(entry.pairs(), 0);
            assert(self@.entries[name].bindings.contains_key(entry.pairs()[0].0));
        }
    }

    /// A registry without names.
    pub fn new() -> (table: Self)
        ensures
            table.wf(),
            table@ == (RegistryView {
                entries: Map::empty(),
                lookups: 0,
                cache_hits: 0,
                cleanup_count: 0,
            }),
    {
        let table = SymbolTable {
            symbol_to_mapping: Vec::new(),
            uid_to_symbols: ReverseIndex::new(),
            stats: SymbolStats::new(),
        };
        assert(table@.entries =~= Map::empty());
        table
    }

    /// The entries of the registry, each a copy, so that the registry can be
    /// written out.
    pub fn entries(&self) -> (entries: Vec<SymbolMapping>)
        requires
            self.wf(),
        ensures
            entries_valid(entries@),
            as_map(entry_pairs(entries@)) == self@.entries,
            entries@.len() == self.stats().total_symbols,
    {
        let mut entries: Vec<SymbolMapping> = Vec::new();
        let mut i: usize = 0;
        while i < self.symbol_to_mapping.len()
            invariant
                i <= self.symbol_to_mapping@.len(),
                entries@.len() == i,
                forall|j: int|
                    0 <= j < i ==> (#[trigger] entries@[j]).symbol@ == self.symbol_to_mapping@[j].symbol@
                        && entries@[j].pairs() == self.symbol_to_mapping@[j].pairs() && entries@[j]@
                        == self.symbol_to_mapping@[j]@ && entries@[j].mappings@.len()
                        == self.symbol_to_mapping@[j].mappings@.len(),
            decreases self.symbol_to_mapping@.len() - i,
        {
            entries.push(self.symbol_to_mapping[i].clone());
            i = i + 1;
        }
        proof {
            assert(entry_pairs(entries@) =~= self.pairs());
            assert forall|j: int| 0 <= j < entries@.len() implies (#[trigger] entries@[j]).wf()
                && entries@[j].mappings@.len() > 0 by {
                assert(self.symbol_to_mapping@[j].wf());
            }
        }
        entries
    }

    /// Puts an entry with a new name into the registry, with the links that
    /// it makes.
    fn insert_entry(&mut self, entry: SymbolMapping)
        requires
            old(self).wf(),
            entry.wf(),
            entry.mappings@.len() > 0,
            !has_key(old(self).pairs(), entry.symbol@),
        ensures
            final(self).wf(),
            final(self).pairs() == old(self).pairs().push((entry.symbol@, entry@)),
            final(self).stats.lookups == old(self).stats.lookups,
            final(self).stats.cache_hits == old(self).stats.cache_hits,
            final(self).stats.cleanup_count == old(self).stats.cleanup_count,
    {
        let ghost before = self.pairs();
        let ghost index = self.uid_to_symbols.view();
        let ghost name = entry.symbol@;
        let mut j: usize = 0;
        while j < entry.mappings.len()
            invariant
                j <= entry.mappings@.len(),
                self.uid_to_symbols.wf(),
                self.symbol_to_mapping@ == old(self).symbol_to_mapping@,
                self.stats == old(self).stats,
                name == entry.symbol@,
                forall|u: UID, n: Seq<char>|
                    n != name ==> (#[trigger] linked(self.uid_to_symbols.view(), u, n) <==> linked(
                        index,
                        u,
                        n,
                    )),
                forall|u: UID| #[trigger]
                    linked(self.uid_to_symbols.view(), u, name) <==> linked(index, u, name) || exists|
                        k: int,
                    |
                        0 <= k < j && (#[trigger] entry.pairs()[k]).1 == u,
            decreases entry.mappings@.len() - j,
        {
            let ghost now_index = self.uid_to_symbols.view();
            proof {
                lemma_links(now_index, entry.mappings@[j as int].1, name);
            }
            self.uid_to_symbols.link(entry.mappings[j].1, entry.symbol.clone());
            proof {
                assert(entry.pairs()[j as int].1 == entry.mappings@[j as int].1);
                assert forall|u: UID| #[trigger]
                    linked(self.uid_to_symbols.view(), u, name) <==> linked(index, u, name) || exists|
                        k: int,
                    |
                        0 <= k < j + 1 && (#[trigger] entry.pairs()[k]).1 == u by {
                    if linked(now_index, u, name) && !linked(index, u, name) {
                        let k = choose|k: int| 0 <= k < j && (#[trigger] entry.pairs()[k]).1 == u;
                        assert(0 <= k < j + 1 && entry.pairs()[k].1 == u);
                    }
                    if exists|k: int| 0 <= k < j + 1 && (#[trigger] entry.pairs()[k]).1 == u {
                        let k = choose|k: int|
                            0 <= k < j + 1 && (#[trigger] entry.pairs()[k]).1 == u;
                        if k < j {
                            assert(linked(now_index, u, name));
                        }
                    }
                }
            }
            j = j + 1;
        }
        proof {
            lemma_push_pair(before, name, entry@);
            assert forall|u: UID| !linked(index, u, name) by {
                assert(linked(index, u, name) <==> old(self)@.aliased(name, u));
            }
        }
        let ghost held = entry;
        self.symbol_to_mapping.push(entry);
        self.stats.total_symbols = self.symbol_to_mapping.len();
        self.stats.unique_uids = self.uid_to_symbols.len();
        proof {
            assert(self.pairs() =~= before.push((name, held@)));
            assert forall|u: UID, n: Seq<char>|
                #![trigger linked(self.uid_to_symbols.view(), u, n)]
                #![trigger self@.aliased(n, u)]
                linked(self.uid_to_symbols.view(), u, n) <==> self@.aliased(n, u) by {
                assert(linked(index, u, n) <==> old(self)@.aliased(n, u));
                if n == name {
                    held.lemma_points_at(u);
                }
            }
        }
    }

    /// The registry that holds `entries` and has made the look-ups, hits and
    /// cleanup passes that `stats` counts, so that a registry can be read
    /// back; `None` when two entries have the same name, or an entry has a
    /// context twice or no identifier at all. The way back and the counts of
    /// names and identifiers are made anew from the entries.
    pub fn from_entries(entries: Vec<SymbolMapping>, stats: &SymbolStats) -> (table: Option<
        SymbolTable,
    >)
        ensures
            table is Some <==> entries_valid(entries@),
            table matches Some(made) ==> made.wf() && made@ == (RegistryView {
                entries: as_map(entry_pairs(entries@)),
                lookups: stats.lookups,
                cache_hits: stats.cache_hits,
                cleanup_count: stats.cleanup_count,
            }),
    {
        let mut made = SymbolTable {
            symbol_to_mapping: Vec::new(),
            uid_to_symbols: ReverseIndex::new(),
            stats: SymbolStats {
                total_symbols: 0,
                unique_uids: 0,
                lookups: stats.lookups,
                cache_hits: stats.cache_hits,
                cleanup_count: stats.cleanup_count,
            },
        };
        proof {
            assert(made.pairs() =~= entry_pairs(entries@.take(0)));
            assert(made@.entries =~= Map::empty());
            assert(made.uid_to_symbols.view().dom() =~= Set::empty());
        }
        let mut i: usize = 0;
        while i < entries.len()
            invariant
                i <= entries@.len(),
                made.wf(),
                made.pairs() == entry_pairs(entries@.take(i as int)),
                entries_valid(entries@.take(i as int)),
                made.stats.lookups == stats.lookups,
                made.stats.cache_hits == stats.cache_hits,
                made.stats.cleanup_count == stats.cleanup_count,
            decreases entries@.len() - i,
        {
            let ghost before = made.pairs();
            if !entries[i].is_valid() {
                assert(!(entries@[i as int].wf() && entries@[i as int].mappings@.len() > 0));
                return None;
            }
            match made.find_entry(&entries[i].symbol) {
                Some(p) => {
                    proof {
                        assert(made.pairs().len() == made.symbol_to_mapping@.len());
                        assert(entry_pairs(entries@.take(i as int)).len() == i);
                        assert(made.pairs()[p as int].0 == entries@[i as int].symbol@);
                        assert(entries@.take(i as int)[p as int] == entries@[p as int]);
                        assert(entry_pairs(entries@)[p as int].0 == entries@[p as int].symbol@);
                        assert(entry_pairs(entries@)[i as int].0 == entries@[i as int].symbol@);
                        assert(entry_pairs(entries@)[p as int].0 == entry_pairs(
                            entries@,
                        )[i as int].0);
                    }
                    return None;
                },
                None => {},
            }
            let entry = entries[i].clone();
            made.insert_entry(entry);
            proof {
                lemma_push_pair(before, entries@[i as int].symbol@, entries@[i as int]@);
                assert(entry_pairs(entries@.take(i + 1)) =~= before.push(
                    (entries@[i as int].symbol@, entries@[i as int]@),
                ));
                assert forall|j: int| 0 <= j < i + 1 implies (#[trigger] entries@.take(
                    i + 1,
                )[j]).wf() && entries@.take(i + 1)[j].mappings@.len() > 0 by {
                    if j < i {
                        assert(entries@.take(i as int)[j].wf());
                    }
                }
            }
            i = i + 1;
        }
        proof {
            assert(entries@.take(i as int) =~= entries@);
        }
        Some(made)
    }

    /// The counters. In a sound registry they count its names and the
    /// identifiers in use.
    pub fn get_stats(&self) -> (stats: &SymbolStats)
        ensures
            *stats == self.stats(),
            stats.lookups == self@.lookups,
            stats.cache_hits == self@.cache_hits,
            stats.cleanup_count == self@.cleanup_count,
            self.wf() ==> stats.total_symbols == self@.entries.dom().len(),
            self.wf() ==> stats.unique_uids == self@.identifiers().len(),
    {
        proof {
            if self.wf() {
                self.lemma_stats();
            }
        }
        &self.stats
    }

    /// Where the entry of the name `key` stands.
    fn find_entry(&self, key: &String) -> (at: Option<usize>)
        ensures
            at matches Some(i) ==> i < self.symbol_to_mapping@.len()
                && self.symbol_to_mapping@[i as int].symbol@ == key@,
            at is None ==> !has_key(self.pairs(), key@),
    {
        let mut i: usize = 0;
        while i < self.symbol_to_mapping.len()
            invariant
                i <= self.symbol_to_mapping@.len(),
                forall|j: int| 0 <= j < i ==> (#[trigger] self.pairs()[j]).0 != key@,
            decreases self.symbol_to_mapping@.len() - i,
        {
            if self.symbol_to_mapping[i].symbol == *key {
                return Some(i);
            }
            i = i + 1;
        }
        None
    }

    /// The identifier in `context` of the name `key`, taken letter for
    /// letter, if it has one. The registry is left as it is: nothing is
    /// counted and no entry counts as used.
    pub fn peek_folded(&self, key: &String, context: &Context) -> (found: Option<UID>)
        requires
            self.wf(),
        ensures
            found == self@.lookup(key@, context@),
    {
        match self.find_entry(key) {
            Some(i) => {
                proof {
                    lemma_pair_in_map(self.pairs(), i as int);
                }
                self.symbol_to_mapping[i].peek(context)
            },
            None => None,
        }
    }

    /// The identifier of `symbol` in `context`, if it has one. The registry
    /// is left as it is: nothing is counted and no entry counts as used.
    pub fn peek(&self, symbol: &str, context: &Context) -> (found: Option<UID>)
        requires
            self.wf(),
        ensures
            found == self@.lookup(lowercase(symbol@), context@),
    {
        let key = symbol.to_lowercase();
        self.peek_folded(&key, context)
    }

    /// The identifier in `context` of the name `key`, taken letter for
    /// letter, if it has one, looked up at `now`. The look-up is counted, and
    /// so is a hit; the entry of the name, if there is one, counts as used at
    /// `now`.
    pub fn get_uid_folded_at(&mut self, key: &String, context: &Context, now: u64) -> (found:
        Option<UID>)
        requires
            old(self).wf(),
        ensures
            final(self).wf(),
            found == old(self)@.lookup(key@, context@),
            final(self)@ == old(self)@.looked_up(key@, context@, now),
    {
        self.stats.lookups = self.stats.lookups.saturating_add(1);
        let ghost before = self.pairs();
        match self.find_entry(key) {
            Some(i) => {
                proof {
                    lemma_pair_in_map(before, i as int);
                }
                let found = self.symbol_to_mapping[i].get_uid_at(context, now);
                proof {
                    lemma_update_pair(before, i as int, self.symbol_to_mapping@[i as int]@);
                    assert(self.pairs() =~= before.update(
                        i as int,
                        (key@, self.symbol_to_mapping@[i as int]@),
                    ));
                }
                if found.is_some() {
                    self.stats.cache_hits = self.stats.cache_hits.saturating_add(1);
                }
                found
            },
            None => None,
        }
    }

    /// The identifier of `symbol` in `context`, if it has one, looked up at
    /// `now`; see [`SymbolTable::get_uid_folded_at`], which is given the name
    /// in lower case.
    pub fn get_uid_at(&mut self, symbol: &str, context: &Context, now: u64) -> (found: Option<UID>)
        requires
            old(self).wf(),
        ensures
            final(self).wf(),
            found == old(self)@.lookup(lowercase(symbol@), context@),
            final(self)@ == old(self)@.looked_up(lowercase(symbol@), context@, now),
    {
        let key = symbol.to_lowercase();
        self.get_uid_folded_at(&key, context, now)
    }

    /// The identifier of `symbol` in `context`, if it has one; see
    /// [`SymbolTable::get_uid_at`]. The look-up is made at the clock's
    /// reading, or at 0 when the clock cannot be read.
    pub fn get_uid(&mut self, symbol: &str, context: &Context) -> (found: Option<UID>)
        requires
            old(self).wf(),
        ensures
            final(self).wf(),
            found == old(self)@.lookup(lowercase(symbol@), context@),
            exists|now: u64| #[trigger]
                old(self)@.looked_up(lowercase(symbol@), context@, now) == final(self)@,
    {
        let now = now_or_zero();
        self.get_uid_at(symbol, context, now)
    }

    /// Points the name `key`, taken letter for letter, in `context` at `uid`,
    /// at `now`, whatever it pointed at there before, and keeps the way back
    /// in step: the name is no longer among the names of the identifier that
    /// it pointed at, unless another of its contexts still does, and it is
    /// among the names of `uid`. The call always succeeds.
    pub fn set_mapping_folded_at(&mut self, key: String, context: Context, uid: UID, now: u64) -> (done:
        Result<(), SymbolError>)
        requires
            old(self).wf(),
        ensures
            done is Ok,
            final(self).wf(),
            final(self)@ == old(self)@.bound(key@, context@, uid, now),
    {
        let ghost before = self.pairs();
        let ghost index = self.uid_to_symbols.view();
        let ghost name = key@;
        let ghost ctx = context@;
        proof {
            lemma_links(index, uid, name);
        }
        match self.find_entry(&key) {
            Some(i) => {
                proof {
                    lemma_pair_in_map(before, i as int);
                }
                let previous = self.symbol_to_mapping[i].peek(&context);
                self.symbol_to_mapping[i].set_uid_at(context, uid, now);
                proof {
                    lemma_update_pair(before, i as int, self.symbol_to_mapping@[i as int]@);
                    assert(self.pairs() =~= before.update(
                        i as int,
                        (name, self.symbol_to_mapping@[i as int]@),
                    ));
                    assert(self.symbol_to_mapping@[i as int].pairs().len() > 0) by {
                        let entry = self.symbol_to_mapping@[i as int];
                        lemma_key_in_list(entry.pairs(), ctx);
                    }
                }
                if let Some(old_uid) = previous {
                    if old_uid != uid && !self.symbol_to_mapping[i].maps_to(old_uid) {
                        proof {
                            lemma_links(index, old_uid, name);
                            lemma_links(without_link(index, old_uid, name), uid, name);
                        }
                        self.uid_to_symbols.unlink(old_uid, &key);
                    }
                }
                self.uid_to_symbols.link(uid, key);
                proof {
                    let bindings = old(self)@.entries[name].bindings;
                    assert forall|u: UID, n: Seq<char>|
                        #![trigger linked(self.uid_to_symbols.view(), u, n)]
                        #![trigger self@.aliased(n, u)]
                        linked(self.uid_to_symbols.view(), u, n) <==> self@.aliased(n, u) by {
                        lemma_resolves_after_insert(bindings, ctx, uid, u);
                    }
                }
            },
            None => {
                let mut entry = SymbolMapping::new_at(key.clone(), now);
                entry.set_uid_at(context, uid, now);
                proof {
                    lemma_key_in_list(entry.pairs(), ctx);
                    lemma_push_pair(before, name, entry@);
                }
                self.symbol_to_mapping.push(entry);
                assert(self.pairs() =~= before.push((name, self.symbol_to_mapping@.last()@)));
                self.uid_to_symbols.link(uid, key);
                self.stats.total_symbols = self.symbol_to_mapping.len();
                proof {
                    assert forall|u: UID, n: Seq<char>|
                        #![trigger linked(self.uid_to_symbols.view(), u, n)]
                        #![trigger self@.aliased(n, u)]
                        linked(self.uid_to_symbols.view(), u, n) <==> self@.aliased(n, u) by {
                        lemma_resolves_after_insert(Map::empty(), ctx, uid, u);
                    }
                }
            },
        }
        self.stats.unique_uids = self.uid_to_symbols.len();
        Ok(())
    }

    /// Points `symbol` in `context` at `uid`, at `now`, whatever it pointed
    /// at there before; see [`SymbolTable::set_mapping_folded_at`], which is
    /// given the name in lower case. The call always succeeds.
    pub fn set_mapping_at(&mut self, symbol: &str, context: Context, uid: UID, now: u64) -> (done:
        Result<(), SymbolError>)
        requires
            old(self).wf(),
        ensures
            done is Ok,
            final(self).wf(),
            final(self)@ == old(self)@.bound(lowercase(symbol@), context@, uid, now),
    {
        let key = symbol.to_lowercase();
        self.set_mapping_folded_at(key, context, uid, now)
    }

    /// Points `symbol` in `context` at `uid`, whatever it pointed at there
    /// before; see [`SymbolTable::set_mapping_at`]. The change is made at the
    /// clock's reading, or at 0 when the clock cannot be read.
    pub fn set_mapping(&mut self, symbol: &str, context: Context, uid: UID) -> (done: Result<
        (),
        SymbolError,
    >)
        requires
            old(self).wf(),
        ensures
            done is Ok,
            final(self).wf(),
            exists|now: u64| #[trigger]
                old(self)@.bound(lowercase(symbol@), context@, uid, now) == final(self)@,
    {
        let now = now_or_zero();
        self.set_mapping_at(symbol, context, uid, now)
    }

    /// Takes from `symbol` the identifier it has in `context`, if any, and
    /// says whether there was one; see
    /// [`SymbolTable::remove_mapping_folded`], which is given the name in
    /// lower case.
    pub fn remove_mapping(&mut self, symbol: &str, context: &Context) -> (removed: bool)
        requires
            old(self).wf(),
        ensures
            final(self).wf(),
            removed == old(self)@.lookup(lowercase(symbol@), context@) is Some,
            final(self)@ == old(self)@.unbound(lowercase(symbol@), context@),
    {
        let key = symbol.to_lowercase();
        self.remove_mapping_folded(&key, context)
    }

    /// Takes from the name `key`, taken letter for letter, the identifier it
    /// has in `context`, if any, and says whether there was one. A name that
    /// loses its last identifier loses its entry, and the name is no longer
    /// among the names of the identifier unless another of its contexts still
    /// points at it. No look-up is counted and no entry counts as used.
    pub fn remove_mapping_folded(&mut self, key: &String, context: &Context) -> (removed: bool)
        requires
            old(self).wf(),
        ensures
            final(self).wf(),
            removed == old(self)@.lookup(key@, context@) is Some,
            final(self)@ == old(self)@.unbound(key@, context@),
    {
        let ghost before = self.pairs();
        let ghost index = self.uid_to_symbols.view();
        let ghost name = key@;
        let ghost ctx = context@;
        match self.find_entry(key) {
            Some(i) => {
                proof {
                    lemma_pair_in_map(before, i as int);
                }
                let ghost bindings = self.symbol_to_mapping@[i as int]@.bindings;
                match self.symbol_to_mapping[i].remove_uid(context) {
                    Some(old_uid) => {
                        proof {
                            lemma_links(index, old_uid, name);
                        }
                        if self.symbol_to_mapping[i].mappings.len() == 0 {
                            proof {
                                lemma_remove_pair(before, i as int);
                            }
                            self.symbol_to_mapping.remove(i);
                            assert(self.pairs() =~= before.remove(i as int));
                            self.uid_to_symbols.unlink(old_uid, key);
                            self.stats.total_symbols = self.symbol_to_mapping.len();
                        } else {
                            proof {
                                lemma_pair_in_map(self.symbol_to_mapping@[i as int].pairs(), 0);
                                lemma_update_pair(
                                    before,
                                    i as int,
                                    self.symbol_to_mapping@[i as int]@,
                                );
                                assert(self.pairs() =~= before.update(
                                    i as int,
                                    (name, self.symbol_to_mapping@[i as int]@),
                                ));
                            }
                            if !self.symbol_to_mapping[i].maps_to(old_uid) {
                                self.uid_to_symbols.unlink(old_uid, key);
                            }
                            proof {
                                assert forall|u: UID, n: Seq<char>|
                                    #![trigger linked(self.uid_to_symbols.view(), u, n)]
                                    #![trigger self@.aliased(n, u)]
                                    linked(self.uid_to_symbols.view(), u, n) <==> self@.aliased(
                                        n,
                                        u,
                                    ) by {
                                    lemma_resolves_after_remove(bindings, ctx, u);
                                }
                            }
                        }
                        self.stats.unique_uids = self.uid_to_symbols.len();
                        true
                    },
                    None => {
                        proof {
                            assert(self.pairs() =~= before);
                        }
                        false
                    },
                }
            },
            None => false,
        }
    }

    /// Takes the entry at `at` out of the registry, with the links that it
    /// made.
    fn remove_entry_at(&mut self, at: usize)
        requires
            old(self).wf(),
            at < old(self).symbol_to_mapping@.len(),
        ensures
            final(self).wf(),
            final(self).symbol_to_mapping@ == old(self).symbol_to_mapping@.remove(at as int),
            final(self)@ == (RegistryView {
                entries: old(self)@.entries.remove(old(self).symbol_to_mapping@[at as int].symbol@),
                ..old(self)@
            }),
    {
        let ghost before = self.pairs();
        let ghost index = self.uid_to_symbols.view();
        proof {
            lemma_pair_in_map(before, at as int);
            lemma_remove_pair(before, at as int);
        }
        let entry = self.symbol_to_mapping.remove(at);
        let ghost name = entry.symbol@;
        assert(self.pairs() =~= before.remove(at as int));
        let mut j: usize = 0;
        while j < entry.mappings.len()
            invariant
                j <= entry.mappings@.len(),
                self.uid_to_symbols.wf(),
                self.symbol_to_mapping@ == old(self).symbol_to_mapping@.remove(at as int),
                self.stats == old(self).stats,
                name == entry.symbol@,
                forall|u: UID, n: Seq<char>| #[trigger]
                    linked(self.uid_to_symbols.view(), u, n) ==> linked(index, u, n),
                forall|u: UID, n: Seq<char>|
                    n != name ==> (#[trigger] linked(self.uid_to_symbols.view(), u, n) <==> linked(
                        index,
                        u,
                        n,
                    )),
                forall|k: int|
                    0 <= k < j ==> !linked(
                        self.uid_to_symbols.view(),
                        (#[trigger] entry.pairs()[k]).1,
                        name,
                    ),
            decreases entry.mappings@.len() - j,
        {
            let ghost now_index = self.uid_to_symbols.view();
            proof {
                lemma_links(now_index, entry.mappings@[j as int].1, name);
            }
            self.uid_to_symbols.unlink(entry.mappings[j].1, &entry.symbol);
            j = j + 1;
        }
        self.stats.total_symbols = self.symbol_to_mapping.len();
        self.stats.unique_uids = self.uid_to_symbols.len();
        proof {
            assert forall|u: UID, n: Seq<char>|
                #![trigger linked(self.uid_to_symbols.view(), u, n)]
                #![trigger self@.aliased(n, u)]
                linked(self.uid_to_symbols.view(), u, n) <==> self@.aliased(n, u) by {
                if n == name && linked(self.uid_to_symbols.view(), u, n) {
                    entry.lemma_points_at(u);
                }
            }
        }
    }

    /// A cleanup pass at `now`: takes out every entry that has gone unused
    /// for more than `max_age_ms` milliseconds, with the links that it made,
    /// and returns how many were taken out. `min_access_count` is kept for a
    /// finer rule and plays no part.
    pub fn cleanup_at(&mut self, max_age_ms: u64, min_access_count: u32, now: u64) -> (removed:
        usize)
        requires
            old(self).wf(),
        ensures
            final(self).wf(),
            final(self)@ == old(self)@.swept(max_age_ms, now),
            removed == old(self)@.entries.dom().len() - final(self)@.entries.dom().len(),
            removed <= old(self).stats().total_symbols,
            final(self).stats().total_symbols == old(self).stats().total_symbols - removed,
    {
        proof {
            self.lemma_stats();
        }
        let ghost before = self.pairs();
        let ghost entries = self@.entries;
        let mut removed: usize = 0;
        let mut i: usize = self.symbol_to_mapping.len();
        while i > 0
            invariant
                self.wf(),
                old(self).wf(),
                before == old(self).pairs(),
                entries == old(self)@.entries,
                i <= self.symbol_to_mapping@.len(),
                removed + self.symbol_to_mapping@.len() == old(self).symbol_to_mapping@.len(),
                forall|j: int|
                    0 <= j < i ==> #[trigger] self.symbol_to_mapping@[j] == old(
                        self,
                    ).symbol_to_mapping@[j],
                self.stats.lookups == old(self).stats.lookups,
                self.stats.cache_hits == old(self).stats.cache_hits,
                self.stats.cleanup_count == old(self).stats.cleanup_count,
                self@.entries =~= Map::new(
                    |name: Seq<char>|
                        entries.contains_key(name) && (place_of(before, name) < i || !stale(
                            entries[name].last_accessed,
                            max_age_ms,
                            now,
                        )),
                    |name: Seq<char>| entries[name],
                ),
            decreases i,
        {
            i = i - 1;
            let ghost name = self.symbol_to_mapping@[i as int].symbol@;
            proof {
                lemma_pair_in_map(before, i as int);
                assert forall|n: Seq<char>| #[trigger] entries.contains_key(n) && n != name implies place_of(
                    before,
                    n,
                ) != i by {
                    lemma_key_in_list(before, n);
                }
            }
            if now.saturating_sub(self.symbol_to_mapping[i].last_accessed) > max_age_ms {
                self.remove_entry_at(i);
                removed = removed + 1;
            }
        }
        self.stats.cleanup_count = self.stats.cleanup_count.saturating_add(1);
        proof {
            assert(self@.entries =~= old(self)@.swept(max_age_ms, now).entries);
            self.lemma_stats();
        }
        removed
    }

    /// A cleanup pass; see [`SymbolTable::cleanup_at`]. The pass is made at
    /// the clock's reading, or at 0 when the clock cannot be read, and then
    /// nothing is stale.
    pub fn cleanup(&mut self, max_age_ms: u64, min_access_count: u32) -> (removed: usize)
        requires
            old(self).wf(),
        ensures
            final(self).wf(),
            exists|now: u64| #[trigger] old(self)@.swept(max_age_ms, now) == final(self)@,
            removed == old(self)@.entries.dom().len() - final(self)@.entries.dom().len(),
            removed <= old(self).stats().total_symbols,
            final(self).stats().total_symbols == old(self).stats().total_symbols - removed,
    {
        let now = now_or_zero();
        self.cleanup_at(max_age_ms, min_access_count, now)
    }

    /// The names that point at `uid` in some context, each once, in lower
    /// case.
    pub fn get_symbols_for_uid(&self, uid: UID) -> (names: Vec<String>)
        requires
            self.wf(),
        ensures
            forall|i: int, j: int|
                0 <= i < j < names@.len() ==> (#[trigger] names@[i])@ != (#[trigger] names@[j])@,
            forall|name: Seq<char>|
                (exists|i: int| 0 <= i < names@.len() && (#[trigger] names@[i])@ == name)
                    <==> self@.symbols_for(uid).contains(name),
            names@.len() > 0 <==> self@.in_use(uid),
    {
        let names = self.uid_to_symbols.names(uid);
        proof {
            let index = self.uid_to_symbols.view();
            self.uid_to_symbols.lemma_wf();
            if index.contains_key(uid) {
                let name = choose|name: Seq<char>| index[uid].contains(name);
                assert(self@.aliased(name, uid));
            }
        }
        names
    }

    /// All names of the registry, each once, in lower case.
    pub fn get_all_symbols(&self) -> (names: Vec<String>)
        requires
            self.wf(),
        ensures
            names@.len() == self.stats().total_symbols,
            forall|i: int, j: int|
                0 <= i < j < names@.len() ==> (#[trigger] names@[i])@ != (#[trigger] names@[j])@,
            forall|name: Seq<char>|
                (exists|i: int| 0 <= i < names@.len() && (#[trigger] names@[i])@ == name)
                    <==> self@.entries.contains_key(name),
    {
        let mut names: Vec<String> = Vec::new();
        let mut i: usize = 0;
        while i < self.symbol_to_mapping.len()
            invariant
                i <= self.symbol_to_mapping@.len(),
                names@.len() == i,
                forall|j: int| 0 <= j < i ==> (#[trigger] names@[j])@ == self.pairs()[j].0,
            decreases self.symbol_to_mapping@.len() - i,
        {
            names.push(self.symbol_to_mapping[i].symbol.clone());
            i = i + 1;
        }
        proof {
            assert forall|name: Seq<char>|
                (exists|i: int| 0 <= i < names@.len() && (#[trigger] names@[i])@ == name)
                    <==> self@.entries.contains_key(name) by {
                if exists|i: int| 0 <= i < names@.len() && (#[trigger] names@[i])@ == name {
                    let i = choose|i: int| 0 <= i < names@.len() && (#[trigger] names@[i])@ == name;
                    lemma_pair_in_map(self.pairs(), i);
                }
                if self@.entries.contains_key(name) {
                    lemma_key_in_list(self.pairs(), name);
                    assert(names@[place_of(self.pairs(), name)]@ == name);
                }
            }
        }
        names
    }

    /// A name for `uid`: one that has `uid` in the global context, if there
    /// is such a name; if not, one of the names that point at `uid` in any
    /// context; `None` when no name points at it. The registry is left as it
    /// is.
    pub fn get_base_symbol(&mut self, uid: UID) -> (base: Option<String>)
        requires
            old(self).wf(),
        ensures
            *final(self) == *old(self),
            base matches Some(name) ==> old(self)@.aliased(name@, uid),
            base matches Some(name) ==> (old(self)@.has_global(uid) ==> old(self)@.lookup(
                name@,
                ContextView::Global,
            ) == Some(uid)),
            base is None <==> !old(self)@.in_use(uid),
    {
        let global = Context::Global;
        let mut i: usize = 0;
        while i < self.symbol_to_mapping.len()
            invariant
                *self == *old(self),
                self.wf(),
                global@ == ContextView::Global,
                i <= self.symbol_to_mapping@.len(),
                forall|j: int|
                    0 <= j < i ==> (#[trigger] self.pairs()[j]).1.bindings.get(ContextView::Global)
                        != Some(uid),
            decreases self.symbol_to_mapping@.len() - i,
        {
            if let Some(mapped) = self.symbol_to_mapping[i].peek(&global) {
                if mapped == uid {
                    proof {
                        lemma_pair_in_map(self.pairs(), i as int);
                        assert(self@.aliased(self.pairs()[i as int].0, uid));
                    }
                    return Some(self.symbol_to_mapping[i].symbol.clone());
                }
            }
            i = i + 1;
        }
        proof {
            if self@.has_global(uid) {
                let name = choose|name: Seq<char>| #[trigger]
                    self@.lookup(name, ContextView::Global) == Some(uid);
                lemma_key_in_list(self.pairs(), name);
            }
        }
        let mut names = self.get_symbols_for_uid(uid);
        let base = names.pop();
        proof {
            if base is Some {
                assert(self@.symbols_for(uid).contains(base->Some_0@));
            }
        }
        base
    }

    /// Registers the name `key`, taken letter for letter, in `context` at
    /// `now`; see [`registration`].
    ///
    /// A name that has an identifier in that context keeps it: the
    /// identifier is returned, the hit is counted, the entry counts as used
    /// at `now`, and the generator is not asked. A name that has none gets
    /// the next identifier of `generator`. When that cannot generate one,
    /// the registry stays as it was and the error tells, in words, why.
    pub fn register_folded_at(
        &mut self,
        key: String,
        context: Context,
        generator: &mut UIDGenerator,
        now: u64,
    ) -> (issued: Result<UID, SymbolError>)
        requires
            old(self).wf(),
            old(generator)@.wf(),
        ensures
            final(self).wf(),
            final(generator)@.wf(),
            registration(
                old(self)@,
                old(generator)@,
                key@,
                context@,
                now,
                issued,
                final(self)@,
                final(generator)@,
            ),
            issued matches Ok(uid) ==> final(self)@.lookup(key@, context@) == Some(uid),
    {
        let ghost before = self.pairs();
        let ghost name = key@;
        match self.find_entry(&key) {
            Some(i) => {
                proof {
                    lemma_pair_in_map(before, i as int);
                }
                match self.symbol_to_mapping[i].peek(&context) {
                    Some(existing) => {
                        self.symbol_to_mapping[i].last_accessed = now;
                        proof {
                            lemma_update_pair(before, i as int, self.symbol_to_mapping@[i as int]@);
                            assert(self.pairs() =~= before.update(
                                i as int,
                                (name, self.symbol_to_mapping@[i as int]@),
                            ));
                        }
                        self.stats.cache_hits = self.stats.cache_hits.saturating_add(1);
                        return Ok(existing);
                    },
                    None => {},
                }
            },
            None => {},
        }
        match next_global_uid(generator) {
            Ok(uid) => {
                let _ = self.set_mapping_folded_at(key, context, uid, now);
                Ok(uid)
            },
            Err(e) => Err(SymbolError::UIDGenerationFailed(e.to_string())),
        }
    }

    /// Registers `symbol` in `context` at `now`; see
    /// [`SymbolTable::register_folded_at`], which is given the name in lower
    /// case.
    pub fn register_symbol_at(
        &mut self,
        symbol: &str,
        context: Context,
        generator: &mut UIDGenerator,
        now: u64,
    ) -> (issued: Result<UID, SymbolError>)
        requires
            old(self).wf(),
            old(generator)@.wf(),
        ensures
            final(self).wf(),
            final(generator)@.wf(),
            registration(
                old(self)@,
                old(generator)@,
                lowercase(symbol@),
                context@,
                now,
                issued,
                final(self)@,
                final(generator)@,
            ),
            issued matches Ok(uid) ==> final(self)@.lookup(lowercase(symbol@), context@) == Some(
                uid,
            ),
    {
        let key = symbol.to_lowercase();
        self.register_folded_at(key, context, generator, now)
    }

    /// Registers `symbol` in `context`; see
    /// [`SymbolTable::register_symbol_at`]. The registration is made at the
    /// clock's reading, or at 0 when the clock cannot be read.
    pub fn register_symbol(
        &mut self,
        symbol: &str,
        context: Context,
        generator: &mut UIDGenerator,
    ) -> (issued: Result<UID, SymbolError>)
        requires
            old(self).wf(),
            old(generator)@.wf(),
        ensures
            final(self).wf(),
            final(generator)@.wf(),
            exists|now: u64| #[trigger]
                registration(
                    old(self)@,
                    old(generator)@,
                    lowercase(symbol@),
                    context@,
                    now,
                    issued,
                    final(self)@,
                    final(generator)@,
                ),
            issued matches Ok(uid) ==> final(self)@.lookup(lowercase(symbol@), context@) == Some(
                uid,
            ),
    {
        let now = now_or_zero();
        self.register_symbol_at(symbol, context, generator, now)
    }
}

} // verus!
