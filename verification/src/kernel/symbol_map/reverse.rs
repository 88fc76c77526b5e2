//! The way back from identifiers to names.

use crate::kernel::assoc::{
    as_map, distinct_keys, has_key, lemma_key_in_list, lemma_map_size, lemma_pair_in_map,
    lemma_push_pair, lemma_remove_pair, lemma_update_pair, place_of,
};
use crate::kernel::types::UID;
use vstd::prelude::*;

verus! {

/// The names that point at one identifier.
#[derive(Debug)]
struct ReverseSlot {
    uid: UID,
    /// No name stands twice, and there is at least one.
    symbols: Vec<String>,
}

impl ReverseSlot {
    /// The names, each beside nothing, so that they read as the keys of a
    /// map.
    spec fn pairs(&self) -> Seq<(Seq<char>, ())> {
        Seq::new(self.symbols@.len(), |k: int| (self.symbols@[k]@, ()))
    }

    /// The names, as a set.
    spec fn names(&self) -> Set<Seq<char>> {
        as_map(self.pairs()).dom()
    }

    spec fn wf(&self) -> bool {
        distinct_keys(self.pairs()) && self.symbols@.len() > 0
    }

    /// Where `name` stands among the names.
    fn find(&self, name: &String) -> (at: Option<usize>)
        ensures
            at matches Some(k) ==> k < self.symbols@.len() && self.symbols@[k as int]@ == name@,
            at is None ==> !has_key(self.pairs(), name@),
    {
        let mut k: usize = 0;
        while k < self.symbols.len()
            invariant
                k <= self.symbols@.len(),
                forall|j: int| 0 <= j < k ==> (#[trigger] self.pairs()[j]).0 != name@,
            decreases self.symbols@.len() - k,
        {
            if self.symbols[k] == *name {
                return Some(k);
            }
            k = k + 1;
        }
        None
    }
}

/// An index with `name` among the names of `uid`.
pub open spec fn with_link(index: Map<UID, Set<Seq<char>>>, uid: UID, name: Seq<char>) -> Map<
    UID,
    Set<Seq<char>>,
> {
    index.insert(
        uid,
        if index.contains_key(uid) {
            index[uid].insert(name)
        } else {
            set![name]
        },
    )
}

/// An index without `name` among the names of `uid`, and without `uid` if it
/// had no other name.
pub open spec fn without_link(index: Map<UID, Set<Seq<char>>>, uid: UID, name: Seq<char>) -> Map<
    UID,
    Set<Seq<char>>,
> {
    if index.contains_key(uid) && index[uid].contains(name) {
        if index[uid] == set![name] {
            index.remove(uid)
        } else {
            index.insert(uid, index[uid].remove(name))
        }
    } else {
        index
    }
}

/// The way back: for each identifier in use, the names that point at it.
#[derive(Debug)]
pub struct ReverseIndex {
    /// No identifier stands twice.
    slots: Vec<ReverseSlot>,
}

impl ReverseIndex {
    closed spec fn pairs(&self) -> Seq<(UID, Set<Seq<char>>)> {
        Seq::new(self.slots@.len(), |s: int| (self.slots@[s].uid, self.slots@[s].names()))
    }

    /// The index as a map from each identifier to its set of names.
    pub closed spec fn view(&self) -> Map<UID, Set<Seq<char>>> {
        as_map(self.pairs())
    }

    /// No identifier stands twice, and none is without a name.
    pub closed spec fn wf(&self) -> bool {
        &&& distinct_keys(self.pairs())
        &&& forall|s: int| 0 <= s < self.slots@.len() ==> (#[trigger] self.slots@[s]).wf()
    }

    /// The index holds finitely many identifiers, and each has a name.
    pub proof fn lemma_wf(&self)
        requires
            self.wf(),
        ensures
            self.view().dom().finite(),
            forall|uid: UID| #[trigger]
                self.view().contains_key(uid) ==> exists|name: Seq<char>|
                    self.view()[uid].contains(name),
    {
        lemma_map_size(self.pairs());
        assert forall|uid: UID| #[trigger] self.view().contains_key(uid) implies exists|
            name: Seq<char>,
        |
            self.view()[uid].contains(name) by {
            lemma_key_in_list(self.pairs(), uid);
            let s = place_of(self.pairs(), uid);
            lemma_pair_in_map(self.slots@[s].pairs(), 0);
        }
    }

    /// An index without identifiers.
    pub fn new() -> (index: Self)
        ensures
            index.wf(),
            index.view() == Map::<UID, Set<Seq<char>>>::empty(),
    {
        let index = ReverseIndex { slots: Vec::new() };
        index
    }

    /// How many identifiers have a name.
    pub fn len(&self) -> (count: usize)
        requires
            self.wf(),
        ensures
            count == self.view().dom().len(),
    {
        proof {
            lemma_map_size(self.pairs());
        }
        self.slots.len()
    }

    /// Where `uid` stands among the slots.
    fn find(&self, uid: UID) -> (at: Option<usize>)
        ensures
            at matches Some(s) ==> s < self.slots@.len() && self.slots@[s as int].uid == uid,
            at is None ==> !has_key(self.pairs(), uid),
    {
        let mut s: usize = 0;
        while s < self.slots.len()
            invariant
                s <= self.slots@.len(),
                forall|j: int| 0 <= j < s ==> (#[trigger] self.pairs()[j]).0 != uid,
            decreases self.slots@.len() - s,
        {
            if self.slots[s].uid == uid {
                return Some(s);
            }
            s = s + 1;
        }
        None
    }

    /// Puts `name` among the names of `uid`.
    pub fn link(&mut self, uid: UID, name: String)
        requires
            old(self).wf(),
        ensures
            final(self).wf(),
            final(self).view() == with_link(old(self).view(), uid, name@),
    {
        let ghost before = self.pairs();
        match self.find(uid) {
            Some(s) => {
                let ghost names = self.slots@[s as int].pairs();
                proof {
                    lemma_pair_in_map(before, s as int);
                }
                match self.slots[s].find(&name) {
                    Some(k) => {
                        proof {
                            lemma_pair_in_map(names, k as int);
                            assert(self.view()[uid].insert(name@) =~= self.view()[uid]);
                        }
                    },
                    None => {
                        let ghost key = name@;
                        self.slots[s].symbols.push(name);
                        proof {
                            lemma_push_pair(names, key, ());
                            assert(self.slots@[s as int].pairs() =~= names.push((key, ())));
                            lemma_update_pair(before, s as int, self.slots@[s as int].names());
                            assert(self.pairs() =~= before.update(
                                s as int,
                                (uid, self.slots@[s as int].names()),
                            ));
                        }
                    },
                }
            },
            None => {
                let ghost key = name@;
                let mut symbols: Vec<String> = Vec::new();
                symbols.push(name);
                let slot = ReverseSlot { uid, symbols };
                proof {
                    lemma_push_pair(Seq::<(Seq<char>, ())>::empty(), key, ());
                    assert(slot.pairs() =~= Seq::<(Seq<char>, ())>::empty().push((key, ())));
                    assert(slot.names() =~= set![key]);
                    lemma_push_pair(before, uid, slot.names());
                }
                self.slots.push(slot);
                assert(self.pairs() =~= before.push((uid, set![key])));
            },
        }
    }

    /// Takes `name` from the names of `uid`, and `uid` from the index if it
    /// had no other name.
    pub fn unlink(&mut self, uid: UID, name: &String)
        requires
            old(self).wf(),
        ensures
            final(self).wf(),
            final(self).view() == without_link(old(self).view(), uid, name@),
    {
        let ghost before = self.pairs();
        match self.find(uid) {
            Some(s) => {
                let ghost names = self.slots@[s as int].pairs();
                proof {
                    lemma_pair_in_map(before, s as int);
                }
                match self.slots[s].find(name) {
                    Some(k) => {
                        proof {
                            lemma_pair_in_map(names, k as int);
                            lemma_remove_pair(names, k as int);
                        }
                        if self.slots[s].symbols.len() == 1 {
                            proof {
                                assert(self.view()[uid] =~= set![name@]);
                                lemma_remove_pair(before, s as int);
                            }
                            self.slots.remove(s);
                            assert(self.pairs() =~= before.remove(s as int));
                        } else {
                            self.slots[s].symbols.remove(k);
                            proof {
                                assert(self.slots@[s as int].pairs() =~= names.remove(k as int));
                                let other = if k == 0 {
                                    1int
                                } else {
                                    0int
                                };
                                lemma_pair_in_map(names, other);
                                lemma_update_pair(before, s as int, self.slots@[s as int].names());
                                assert(self.pairs() =~= before.update(
                                    s as int,
                                    (uid, self.slots@[s as int].names()),
                                ));
                            }
                        }
                    },
                    None => {},
                }
            },
            None => {},
        }
    }

    /// The names of `uid`, each once.
    pub fn names(&self, uid: UID) -> (found: Vec<String>)
        requires
            self.wf(),
        ensures
            forall|i: int, j: int|
                0 <= i < j < found@.len() ==> (#[trigger] found@[i])@ != (#[trigger] found@[j])@,
            forall|name: Seq<char>|
                (exists|i: int| 0 <= i < found@.len() && (#[trigger] found@[i])@ == name) <==> (
                self.view().contains_key(uid) && self.view()[uid].contains(name)),
            self.view().contains_key(uid) <==> found@.len() > 0,
    {
        let mut found: Vec<String> = Vec::new();
        match self.find(uid) {
            Some(s) => {
                let slot = &self.slots[s];
                proof {
                    lemma_pair_in_map(self.pairs(), s as int);
                }
                let mut k: usize = 0;
                while k < slot.symbols.len()
                    invariant
                        k <= slot.symbols@.len(),
                        found@.len() == k,
                        forall|j: int| 0 <= j < k ==> (#[trigger] found@[j])@ == slot.pairs()[j].0,
                    decreases slot.symbols@.len() - k,
                {
                    found.push(slot.symbols[k].clone());
                    k = k + 1;
                }
                proof {
                    assert forall|name: Seq<char>|
                        (exists|i: int| 0 <= i < found@.len() && (#[trigger] found@[i])@ == name)
                            <==> (self.view().contains_key(uid) && self.view()[uid].contains(
                            name,
                        )) by {
                        if exists|i: int| 0 <= i < found@.len() && (#[trigger] found@[i])@ == name {
                            let i = choose|i: int|
                                0 <= i < found@.len() && (#[trigger] found@[i])@ == name;
                            lemma_pair_in_map(slot.pairs(), i);
                        }
                        if self.view()[uid].contains(name) {
                            lemma_key_in_list(slot.pairs(), name);
                            let i = place_of(slot.pairs(), name);
                            assert(found@[i]@ == name);
                        }
                    }
                }
            },
            None => {},
        }
        found
    }
}

/// `name` stands among the names of `uid` in `index`.
pub open spec fn linked(index: Map<UID, Set<Seq<char>>>, uid: UID, name: Seq<char>) -> bool {
    index.contains_key(uid) && index[uid].contains(name)
}

/// What [`with_link`] adds is the one link, and what [`without_link`] takes
/// is the one link.
pub proof fn lemma_links(index: Map<UID, Set<Seq<char>>>, uid: UID, name: Seq<char>)
    ensures
        forall|u: UID, n: Seq<char>| #[trigger]
            linked(with_link(index, uid, name), u, n) <==> (linked(index, u, n) || (u == uid && n
                == name)),
        forall|u: UID, n: Seq<char>| #[trigger]
            linked(without_link(index, uid, name), u, n) <==> (linked(index, u, n) && !(u == uid
                && n == name)),
{
}

} // verus!
