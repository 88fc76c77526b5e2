//! The entry of one name: its identifier in each context, and when it was
//! made and last used.

use crate::kernel::assoc::{
    as_map, distinct_keys, has_key, lemma_key_in_list, lemma_pair_in_map, lemma_push_pair,
    lemma_remove_pair, lemma_update_pair,
};
use crate::kernel::clock::now_or_zero;
use crate::kernel::symbol_map::context::{Context, ContextView};
use crate::kernel::types::UID;
use vstd::prelude::*;

verus! {

/// One name's identifiers, context by context, with the times at which the
/// entry was made and last used.
#[derive(Debug)]
pub struct SymbolMapping {
    /// The name.
    pub symbol: String,
    /// The identifier of the name in each context that has one. No context
    /// stands twice.
    pub mappings: Vec<(Context, UID)>,
    /// When the entry was made, in milliseconds since the Unix epoch.
    pub created_at: u64,
    /// When the entry was last used, in milliseconds since the Unix epoch.
    pub last_accessed: u64,
}

/// An entry as contracts see it.
pub struct EntryView {
    /// The identifier of the name in each context that has one.
    pub bindings: Map<ContextView, UID>,
    pub created_at: u64,
    pub last_accessed: u64,
}

/// Some context of `bindings` has the identifier `uid`.
pub open spec fn resolves_to(bindings: Map<ContextView, UID>, uid: UID) -> bool {
    exists|context: ContextView| #[trigger]
        bindings.contains_key(context) && bindings[context] == uid
}

/// What a new identifier for one context changes in what the contexts
/// resolve to: the new identifier is among them, the one that the context
/// had may have left, and no other has come or gone.
pub proof fn lemma_resolves_after_insert(
    bindings: Map<ContextView, UID>,
    context: ContextView,
    uid: UID,
    other: UID,
)
    ensures
        resolves_to(bindings.insert(context, uid), uid),
        other != uid && bindings.get(context) != Some(other) ==> (resolves_to(
            bindings.insert(context, uid),
            other,
        ) <==> resolves_to(bindings, other)),
        resolves_to(bindings.insert(context, uid), other) ==> other == uid || resolves_to(
            bindings,
            other,
        ),
{
    let after = bindings.insert(context, uid);
    assert(after.contains_key(context) && after[context] == uid);
    if other != uid && bindings.get(context) != Some(other) && resolves_to(bindings, other) {
        let c = choose|c: ContextView| #[trigger] bindings.contains_key(c) && bindings[c] == other;
        assert(after.contains_key(c) && after[c] == other);
    }
}

/// What the loss of one context's identifier changes in what the contexts
/// resolve to: the identifier that the context had may have left, and no
/// other has come or gone.
pub proof fn lemma_resolves_after_remove(
    bindings: Map<ContextView, UID>,
    context: ContextView,
    other: UID,
)
    ensures
        bindings.get(context) != Some(other) ==> (resolves_to(bindings.remove(context), other)
            <==> resolves_to(bindings, other)),
        resolves_to(bindings.remove(context), other) ==> resolves_to(bindings, other),
{
    let after = bindings.remove(context);
    if bindings.get(context) != Some(other) && resolves_to(bindings, other) {
        let c = choose|c: ContextView| #[trigger] bindings.contains_key(c) && bindings[c] == other;
        assert(after.contains_key(c) && after[c] == other);
    }
}

impl EntryView {
    /// Some context resolves the name to `uid`.
    pub open spec fn points_at(self, uid: UID) -> bool {
        resolves_to(self.bindings, uid)
    }

    /// The entry after a use at `now`.
    pub open spec fn touched(self, now: u64) -> EntryView {
        EntryView { last_accessed: now, ..self }
    }
}

impl Clone for SymbolMapping {
    fn clone(&self) -> (copy: Self)
        ensures
            copy.symbol == self.symbol,
            copy.mappings@ == self.mappings@,
            copy.created_at == self.created_at,
            copy.last_accessed == self.last_accessed,
            copy.pairs() == self.pairs(),
            copy@ == self@,
    {
        let mut mappings: Vec<(Context, UID)> = Vec::new();
        let mut i: usize = 0;
        while i < self.mappings.len()
            invariant
                i <= self.mappings@.len(),
                mappings@ == self.mappings@.take(i as int),
            decreases self.mappings@.len() - i,
        {
            mappings.push((self.mappings[i].0.clone(), self.mappings[i].1));
            assert(mappings@ =~= self.mappings@.take(i + 1));
            i = i + 1;
        }
        assert(self.mappings@.take(i as int) =~= self.mappings@);
        let copy = SymbolMapping {
            symbol: self.symbol.clone(),
            mappings,
            created_at: self.created_at,
            last_accessed: self.last_accessed,
        };
        assert(copy.pairs() =~= self.pairs());
        copy
    }
}

/// The names of `entries` beside what the entries hold, in their order.
pub open spec fn entry_pairs(entries: Seq<SymbolMapping>) -> Seq<(Seq<char>, EntryView)> {
    Seq::new(entries.len(), |i: int| (entries[i].symbol@, entries[i]@))
}

/// No two of `entries` have the same name, no entry has a context twice,
/// and none is without an identifier.
pub open spec fn entries_valid(entries: Seq<SymbolMapping>) -> bool {
    &&& distinct_keys(entry_pairs(entries))
    &&& forall|i: int|
        0 <= i < entries.len() ==> (#[trigger] entries[i]).wf() && entries[i].mappings@.len() > 0
}

impl View for SymbolMapping {
    type V = EntryView;

    open spec fn view(&self) -> EntryView {
        EntryView {
            bindings: as_map(self.pairs()),
            created_at: self.created_at,
            last_accessed: self.last_accessed,
        }
    }
}

impl SymbolMapping {
    /// The contexts and their identifiers, in the order in which they are
    /// kept.
    pub open spec fn pairs(&self) -> Seq<(ContextView, UID)> {
        Seq::new(self.mappings@.len(), |i: int| (self.mappings@[i].0@, self.mappings@[i].1))
    }

    /// No context stands twice.
    pub open spec fn wf(&self) -> bool {
        distinct_keys(self.pairs())
    }

    /// An entry for `symbol` without identifiers, made and last used at
    /// `now`.
    pub fn new_at(symbol: String, now: u64) -> (entry: Self)
        ensures
            entry.wf(),
            entry.symbol == symbol,
            entry.mappings@.len() == 0,
            entry@ == (EntryView { bindings: Map::empty(), created_at: now, last_accessed: now }),
    {
        let entry = SymbolMapping {
            symbol,
            mappings: Vec::new(),
            created_at: now,
            last_accessed: now,
        };
        assert(entry@.bindings =~= Map::empty());
        entry
    }

    /// An entry for `symbol` without identifiers, made and last used at the
    /// clock's reading, or at 0 when the clock cannot be read.
    pub fn new(symbol: String) -> (entry: Self)
        ensures
            entry.wf(),
            entry.symbol == symbol,
            entry.mappings@.len() == 0,
            entry@.bindings == Map::<ContextView, UID>::empty(),
            entry.created_at == entry.last_accessed,
    {
        Self::new_at(symbol, now_or_zero())
    }

    /// Where `context` stands among the mappings.
    fn find(&self, context: &Context) -> (at: Option<usize>)
        ensures
            at matches Some(i) ==> i < self.mappings@.len() && self.mappings@[i as int].0@
                == context@,
            at is None ==> !has_key(self.pairs(), context@),
    {
        let mut i: usize = 0;
        while i < self.mappings.len()
            invariant
                i <= self.mappings@.len(),
                forall|j: int| 0 <= j < i ==> (#[trigger] self.pairs()[j]).0 != context@,
            decreases self.mappings@.len() - i,
        {
            if self.mappings[i].0 == *context {
                return Some(i);
            }
            i = i + 1;
        }
        None
    }

    /// The identifier of the name in `context`, if it has one. The entry is
    /// left as it is.
    pub fn peek(&self, context: &Context) -> (found: Option<UID>)
        requires
            self.wf(),
        ensures
            found == self@.bindings.get(context@),
    {
        match self.find(context) {
            Some(i) => {
                proof {
                    lemma_pair_in_map(self.pairs(), i as int);
                }
                Some(self.mappings[i].1)
            },
            None => None,
        }
    }

    /// Whether the name has an identifier in `context`.
    pub fn has_mapping(&self, context: &Context) -> (found: bool)
        requires
            self.wf(),
        ensures
            found == self@.bindings.contains_key(context@),
    {
        self.peek(context).is_some()
    }

    /// The identifier of the name in `context`, if it has one; the entry
    /// counts as used at `now`.
    pub fn get_uid_at(&mut self, context: &Context, now: u64) -> (found: Option<UID>)
        requires
            old(self).wf(),
        ensures
            found == old(self)@.bindings.get(context@),
            *final(self) == (SymbolMapping { last_accessed: now, ..*old(self) }),
    {
        self.last_accessed = now;
        self.peek(context)
    }

    /// The identifier of the name in `context`, if it has one; the entry
    /// counts as used at the clock's reading, or at 0 when the clock cannot
    /// be read.
    pub fn get_uid(&mut self, context: &Context) -> (found: Option<UID>)
        requires
            old(self).wf(),
        ensures
            found == old(self)@.bindings.get(context@),
            final(self).symbol == old(self).symbol,
            final(self).mappings == old(self).mappings,
            final(self).created_at == old(self).created_at,
    {
        self.get_uid_at(context, now_or_zero())
    }

    /// Gives the name the identifier `uid` in `context`, in place of the one
    /// it had there, if any; the entry counts as used at `now`.
    pub fn set_uid_at(&mut self, context: Context, uid: UID, now: u64)
        requires
            old(self).wf(),
        ensures
            final(self).wf(),
            final(self).symbol == old(self).symbol,
            final(self)@ == (EntryView {
                bindings: old(self)@.bindings.insert(context@, uid),
                created_at: old(self).created_at,
                last_accessed: now,
            }),
    {
        self.last_accessed = now;
        let ghost before = self.pairs();
        match self.find(&context) {
            Some(i) => {
                let ghost key = context@;
                self.mappings.set(i, (context, uid));
                proof {
                    lemma_update_pair(before, i as int, uid);
                    assert(self.pairs() =~= before.update(i as int, (key, uid)));
                }
            },
            None => {
                let ghost key = context@;
                self.mappings.push((context, uid));
                proof {
                    lemma_push_pair(before, key, uid);
                    assert(self.pairs() =~= before.push((key, uid)));
                }
            },
        }
    }

    /// Gives the name the identifier `uid` in `context`, in place of the one
    /// it had there, if any; the entry counts as used at the clock's reading,
    /// or at 0 when the clock cannot be read.
    pub fn set_uid(&mut self, context: Context, uid: UID)
        requires
            old(self).wf(),
        ensures
            final(self).wf(),
            final(self).symbol == old(self).symbol,
            final(self)@.bindings == old(self)@.bindings.insert(context@, uid),
            final(self).created_at == old(self).created_at,
    {
        self.set_uid_at(context, uid, now_or_zero())
    }

    /// Takes from the name the identifier it has in `context`, and returns
    /// it. The times stay as they are.
    pub fn remove_uid(&mut self, context: &Context) -> (removed: Option<UID>)
        requires
            old(self).wf(),
        ensures
            final(self).wf(),
            removed == old(self)@.bindings.get(context@),
            final(self).symbol == old(self).symbol,
            final(self)@ == (EntryView {
                bindings: old(self)@.bindings.remove(context@),
                ..old(self)@
            }),
            removed is None ==> *final(self) == *old(self),
            removed is Some ==> final(self).mappings@.len() == old(self).mappings@.len() - 1,
    {
        let ghost before = self.pairs();
        match self.find(context) {
            Some(i) => {
                proof {
                    lemma_pair_in_map(before, i as int);
                    lemma_remove_pair(before, i as int);
                }
                let pair = self.mappings.remove(i);
                assert(self.pairs() =~= before.remove(i as int));
                Some(pair.1)
            },
            None => {
                assert(self@.bindings =~= old(self)@.bindings.remove(context@));
                None
            },
        }
    }

    /// The identifiers of the name, one for each context that has one.
    pub fn get_all_uids(&self) -> (uids: Vec<UID>)
        ensures
            uids@.len() == self.mappings@.len(),
            forall|i: int| 0 <= i < uids@.len() ==> uids@[i] == (#[trigger] self.mappings@[i]).1,
            self.wf() ==> forall|uid: UID| uids@.contains(uid) <==> self@.points_at(uid),
    {
        let mut uids: Vec<UID> = Vec::new();
        let mut i: usize = 0;
        while i < self.mappings.len()
            invariant
                i <= self.mappings@.len(),
                uids@.len() == i,
                forall|j: int| 0 <= j < i ==> uids@[j] == (#[trigger] self.mappings@[j]).1,
            decreases self.mappings@.len() - i,
        {
            uids.push(self.mappings[i].1);
            i = i + 1;
        }
        proof {
            if self.wf() {
                assert forall|uid: UID| uids@.contains(uid) <==> self@.points_at(uid) by {
                    self.lemma_points_at(uid);
                    if uids@.contains(uid) {
                        let j = choose|j: int| 0 <= j < uids@.len() && uids@[j] == uid;
                        assert(self.pairs()[j].1 == uid);
                    }
                }
            }
        }
        uids
    }

    /// The name points at `uid` exactly when some mapping holds it.
    pub proof fn lemma_points_at(&self, uid: UID)
        requires
            self.wf(),
        ensures
            self@.points_at(uid) <==> exists|i: int|
                0 <= i < self.pairs().len() && (#[trigger] self.pairs()[i]).1 == uid,
    {
        if self@.points_at(uid) {
            let context = choose|context: ContextView| #[trigger]
                self@.bindings.contains_key(context) && self@.bindings[context] == uid;
            lemma_key_in_list(self.pairs(), context);
        }
        if exists|i: int| 0 <= i < self.pairs().len() && (#[trigger] self.pairs()[i]).1 == uid {
            let i = choose|i: int|
                0 <= i < self.pairs().len() && (#[trigger] self.pairs()[i]).1 == uid;
            lemma_pair_in_map(self.pairs(), i);
        }
    }

    /// Whether the entry is fit for a registry: no context stands twice, and
    /// there is at least one.
    pub fn is_valid(&self) -> (valid: bool)
        ensures
            valid == (self.wf() && self.mappings@.len() > 0),
    {
        let mut j: usize = 0;
        while j < self.mappings.len()
            invariant
                j <= self.mappings@.len(),
                forall|a: int, b: int|
                    0 <= a < b < j ==> (#[trigger] self.pairs()[a]).0 != (
                    #[trigger] self.pairs()[b]).0,
            decreases self.mappings@.len() - j,
        {
            let mut k: usize = 0;
            while k < j
                invariant
                    k <= j,
                    j < self.mappings@.len(),
                    forall|a: int| 0 <= a < k ==> (#[trigger] self.pairs()[a]).0 != self.pairs()[j as int].0,
                decreases j - k,
            {
                if self.mappings[k].0 == self.mappings[j].0 {
                    assert(self.pairs()[k as int].0 == self.pairs()[j as int].0);
                    return false;
                }
                k = k + 1;
            }
            j = j + 1;
        }
        self.mappings.len() > 0
    }

    /// Whether some context resolves the name to `uid`.
    pub fn maps_to(&self, uid: UID) -> (found: bool)
        requires
            self.wf(),
        ensures
            found == self@.points_at(uid),
    {
        let mut i: usize = 0;
        while i < self.mappings.len()
            invariant
                i <= self.mappings@.len(),
                self.wf(),
                forall|j: int| 0 <= j < i ==> (#[trigger] self.pairs()[j]).1 != uid,
            decreases self.mappings@.len() - i,
        {
            if self.mappings[i].1 == uid {
                proof {
                    self.lemma_points_at(uid);
                    assert(self.pairs()[i as int].1 == uid);
                }
                return true;
            }
            i = i + 1;
        }
        proof {
            self.lemma_points_at(uid);
        }
        false
    }
}

} // verus!
