//! A map from ids to values, in the order of the ids.

use crate::text::{
    lemma_text_less_irreflexive, lemma_text_less_total, lemma_text_less_transitive, same_text,
    text_before, text_less,
};
use vstd::prelude::*;

verus! {

/// Entries in the order of their ids, each id once.
#[derive(Debug, Clone)]
pub struct IdMap<V> {
    pub entries: Vec<(String, V)>,
}

impl<V> IdMap<V> {
    /// The id of an entry.
    pub open spec fn id(self, i: int) -> Seq<char> {
        self.entries@[i].0@
    }

    /// Each id is before the ids that follow it.
    pub open spec fn wf(self) -> bool {
        forall|i: int, j: int|
            0 <= i < j < self.entries@.len() ==> text_less(#[trigger] self.id(i), #[trigger] self.id(j))
    }

    /// Is there an entry with this id?
    pub open spec fn has(self, id: Seq<char>) -> bool {
        exists|i: int| 0 <= i < self.entries@.len() && #[trigger] self.id(i) == id
    }

    /// Where the entry with this id is.
    pub open spec fn place(self, id: Seq<char>) -> int {
        choose|i: int| 0 <= i < self.entries@.len() && #[trigger] self.id(i) == id
    }
}

impl<V> View for IdMap<V> {
    type V = Map<Seq<char>, V>;

    open spec fn view(&self) -> Map<Seq<char>, V> {
        Map::new(|id: Seq<char>| self.has(id), |id: Seq<char>| self.entries@[self.place(id)].1)
    }
}

/// In a well-formed map each id stands in one place.
pub proof fn lemma_one_place<V>(m: IdMap<V>, i: int)
    requires
        m.wf(),
        0 <= i < m.entries@.len(),
    ensures
        m@.contains_key(m.id(i)),
        m.place(m.id(i)) == i,
        m@[m.id(i)] == m.entries@[i].1,
{
    let id = m.id(i);
    assert(m.has(id));
    let k = m.place(id);
    assert(0 <= k < m.entries@.len() && m.id(k) == id);
    if k < i {
        assert(text_less(m.id(k), m.id(i)));
        lemma_text_less_irreflexive(id);
    } else if i < k {
        assert(text_less(m.id(i), m.id(k)));
        lemma_text_less_irreflexive(id);
    }
}

/// Two well-formed maps whose entries agree entry for entry with a third map
/// are that map: how a change of the entries is read as a change of the map.
proof fn lemma_is_map<V>(m: IdMap<V>, model: Map<Seq<char>, V>)
    requires
        m.wf(),
        forall|i: int|
            0 <= i < m.entries@.len() ==> model.contains_key(#[trigger] m.id(i)) && model[m.id(i)]
                == m.entries@[i].1,
        forall|id: Seq<char>| #[trigger] model.contains_key(id) ==> m.has(id),
    ensures
        m@ == model,
{
    assert forall|id: Seq<char>| #[trigger] m@.contains_key(id) implies model.contains_key(id)
        && m@[id] == model[id] by {
        let k = m.place(id);
        assert(0 <= k < m.entries@.len() && m.id(k) == id);
    }
    assert(m@ =~= model);
}

impl<V> IdMap<V> {
    pub fn new() -> (m: IdMap<V>)
        ensures
            m.wf(),
            m@ == Map::<Seq<char>, V>::empty(),
            m.entries@.len() == 0,
    {
        let m = IdMap { entries: Vec::new() };
        assert(m@ =~= Map::<Seq<char>, V>::empty());
        m
    }

    /// The first place whose id is not before `id`.
    fn seek(&self, id: &str) -> (at: usize)
        requires
            self.wf(),
        ensures
            at <= self.entries@.len(),
            forall|i: int| 0 <= i < at ==> text_less(#[trigger] self.id(i), id@),
            forall|i: int| at <= i < self.entries@.len() ==> !text_less(#[trigger] self.id(i), id@),
    {
        let mut at: usize = 0;
        while at < self.entries.len() && text_before(self.entries[at].0.as_str(), id)
            invariant
                at <= self.entries@.len(),
                forall|i: int| 0 <= i < at ==> text_less(#[trigger] self.id(i), id@),
            decreases self.entries@.len() - at,
        {
            at += 1;
        }
        proof {
            assert forall|i: int| at <= i < self.entries@.len() implies !text_less(
                #[trigger] self.id(i),
                id@,
            ) by {
                if text_less(self.id(i), id@) && i > at {
                    lemma_text_less_transitive(self.id(at as int), self.id(i), id@);
                }
            }
        }
        at
    }

    /// The value of an id.
    pub fn get(&self, id: &str) -> (v: Option<&V>)
        requires
            self.wf(),
        ensures
            match v {
                Some(value) => self@.contains_key(id@) && *value == self@[id@],
                None => !self@.contains_key(id@),
            },
    {
        let at = self.seek(id);
        if at < self.entries.len() && same_text(self.entries[at].0.as_str(), id) {
            proof {
                lemma_one_place(*self, at as int);
            }
            return Some(&self.entries[at].1);
        }
        proof {
            if self.has(id@) {
                let k = self.place(id@);
                assert(self.id(k) == id@);
                lemma_text_less_irreflexive(id@);
                if k > at {
                    lemma_text_less_total(self.id(at as int), id@);
                }
            }
        }
        None
    }

    /// Sets the value of an id.
    pub fn insert(&mut self, id: String, v: V)
        requires
            old(self).wf(),
        ensures
            final(self).wf(),
            final(self)@ == old(self)@.insert(id@, v),
    {
        let at = self.seek(id.as_str());
        let ghost name = id@;
        let ghost before = *self;
        if at < self.entries.len() && same_text(self.entries[at].0.as_str(), id.as_str()) {
            self.entries.set(at, (id, v));
            proof {
                assert(forall|i: int|
                    0 <= i < self.entries@.len() ==> #[trigger] self.id(i) == before.id(i));
                assert forall|i: int| 0 <= i < self.entries@.len() implies before@.insert(
                    name,
                    v,
                ).contains_key(#[trigger] self.id(i)) && before@.insert(name, v)[self.id(i)]
                    == self.entries@[i].1 by {
                    lemma_one_place(before, i);
                    if i != at && self.id(i) == name {
                        lemma_one_place(before, at as int);
                    }
                }
                assert forall|k: Seq<char>| #[trigger] before@.insert(name, v).contains_key(
                    k,
                ) implies self.has(k) by {
                    if k == name {
                        assert(self.id(at as int) == name);
                    } else {
                        let p = before.place(k);
                        assert(self.id(p) == k);
                    }
                }
                lemma_is_map(*self, before@.insert(name, v));
            }
        } else {
            proof {
                // the id is not there: it would be at `at`
                assert forall|i: int| at <= i < before.entries@.len() implies text_less(
                    name,
                    #[trigger] before.id(i),
                ) by {
                    lemma_text_less_total(before.id(at as int), name);
                    if i > at {
                        lemma_text_less_transitive(name, before.id(at as int), before.id(i));
                    }
                }
            }
            self.entries.insert(at, (id, v));
            proof {
                assert(self.id(at as int) == name);
                assert(forall|i: int| 0 <= i < at ==> #[trigger] self.id(i) == before.id(i));
                assert(forall|i: int|
                    at < i < self.entries@.len() ==> #[trigger] self.id(i) == before.id(i - 1));
                assert forall|i: int, j: int|
                    0 <= i < j < self.entries@.len() implies text_less(
                    #[trigger] self.id(i),
                    #[trigger] self.id(j),
                ) by {
                    if i < at && at < j {
                        assert(text_less(before.id(i), before.id(j - 1)));
                    } else if at < i {
                        assert(text_less(before.id(i - 1), before.id(j - 1)));
                    } else if j < at {
                        assert(text_less(before.id(i), before.id(j)));
                    } else if i == at {
                        assert(text_less(name, before.id(j - 1)));
                    }
                }
                assert forall|i: int| 0 <= i < self.entries@.len() implies before@.insert(
                    name,
                    v,
                ).contains_key(#[trigger] self.id(i)) && before@.insert(name, v)[self.id(i)]
                    == self.entries@[i].1 by {
                    lemma_text_less_irreflexive(name);
                    if i < at {
                        lemma_one_place(before, i);
                    } else if i > at {
                        lemma_one_place(before, i - 1);
                    }
                }
                assert forall|k: Seq<char>| #[trigger] before@.insert(name, v).contains_key(
                    k,
                ) implies self.has(k) by {
                    if k == name {
                        assert(self.id(at as int) == name);
                    } else {
                        let p = before.place(k);
                        if p < at {
                            assert(self.id(p) == k);
                        } else {
                            assert(self.id(p + 1) == k);
                        }
                    }
                }
                lemma_is_map(*self, before@.insert(name, v));
            }
        }
    }

    /// Removes an id. Tells whether it was there.
    pub fn remove(&mut self, id: &str) -> (found: bool)
        requires
            old(self).wf(),
        ensures
            final(self).wf(),
            final(self)@ == old(self)@.remove(id@),
            found == old(self)@.contains_key(id@),
            found ==> final(self).entries@ == old(self).entries@.remove(old(self).place(id@)),
            !found ==> final(self).entries@ == old(self).entries@,
    {
        let at = self.seek(id);
        let ghost before = *self;
        if at < self.entries.len() && same_text(self.entries[at].0.as_str(), id) {
            let _ = self.entries.remove(at);
            proof {
                lemma_one_place(before, at as int);
                assert(forall|i: int| 0 <= i < at ==> #[trigger] self.id(i) == before.id(i));
                assert(forall|i: int|
                    at <= i < self.entries@.len() ==> #[trigger] self.id(i) == before.id(i + 1));
                assert forall|i: int, j: int|
                    0 <= i < j < self.entries@.len() implies text_less(
                    #[trigger] self.id(i),
                    #[trigger] self.id(j),
                ) by {
                    let i2 = if i < at { i } else { i + 1 };
                    let j2 = if j < at { j } else { j + 1 };
                    assert(text_less(before.id(i2), before.id(j2)));
                }
                assert forall|i: int| 0 <= i < self.entries@.len() implies before@.remove(
                    id@,
                ).contains_key(#[trigger] self.id(i)) && before@.remove(id@)[self.id(i)]
                    == self.entries@[i].1 by {
                    let i2 = if i < at { i } else { i + 1 };
                    lemma_one_place(before, i2);
                    if before.id(i2) == id@ {
                        assert(before.place(id@) == at);
                    }
                }
                assert forall|k: Seq<char>| #[trigger] before@.remove(id@).contains_key(
                    k,
                ) implies self.has(k) by {
                    let p = before.place(k);
                    assert(before.id(p) == k);
                    if p < at {
                        assert(self.id(p) == k);
                    } else {
                        assert(self.id(p - 1) == k);
                    }
                }
                lemma_is_map(*self, before@.remove(id@));
            }
            return true;
        }
        proof {
            if self.has(id@) {
                let k = self.place(id@);
                assert(self.id(k) == id@);
                lemma_text_less_irreflexive(id@);
                if k > at {
                    lemma_text_less_total(self.id(at as int), id@);
                }
            }
            assert(before@.remove(id@) =~= before@);
        }
        false
    }
}

} // verus!
