//! A small map keyed by device id.

use vstd::prelude::*;
use crate::text;
use crate::text::str_eq;

verus! {

/// A map from ids to values. It lists its ids in the order in which they came.
#[derive(Debug)]
pub struct Table<T> {
    entries: Vec<(String, T)>,
}

/// The ids of a series of entries.
pub open spec fn ids_of<T>(entries: Seq<(String, T)>) -> Seq<Seq<char>> {
    entries.map_values(|e: (String, T)| e.0@)
}

/// The map that entries with distinct ids stand for.
pub open spec fn map_of<T>(entries: Seq<(String, T)>) -> Map<Seq<char>, T> {
    Map::new(
        |id: Seq<char>| ids_of(entries).contains(id),
        |id: Seq<char>| entries[ids_of(entries).index_of(id)].1,
    )
}

impl<T> View for Table<T> {
    type V = Map<Seq<char>, T>;

    /// The values by id.
    closed spec fn view(&self) -> Map<Seq<char>, T> {
        map_of(self.entries@)
    }
}

/// An entry is found under its id.
proof fn lemma_map_of<T>(entries: Seq<(String, T)>, i: int)
    requires
        ids_of(entries).no_duplicates(),
        0 <= i < entries.len(),
    ensures
        map_of(entries).dom().contains(entries[i].0@),
        map_of(entries)[entries[i].0@] == entries[i].1,
        ids_of(entries).index_of(entries[i].0@) == i,
{
    let ids = ids_of(entries);
    assert(ids[i] == entries[i].0@);
    assert(ids.contains(entries[i].0@));
    let k = ids.index_of(entries[i].0@);
    assert(ids[k] == ids[i]);
}

impl<T> Table<T> {
    /// The ids, oldest first.
    pub closed spec fn ids(&self) -> Seq<Seq<char>> {
        ids_of(self.entries@)
    }

    /// What every operation keeps: every id stands once, and the ids are those of the
    /// map.
    pub open spec fn wf(&self) -> bool {
        &&& self.ids().no_duplicates()
        &&& forall|id: Seq<char>| #[trigger] self@.dom().contains(id) <==> self.ids().contains(id)
    }

    /// An empty table.
    pub fn new() -> (r: Table<T>)
        ensures
            r.wf(),
            r@ == Map::<Seq<char>, T>::empty(),
            r.ids() == Seq::<Seq<char>>::empty(),
    {
        let r = Table { entries: Vec::new() };
        proof {
            assert(r@ =~= Map::<Seq<char>, T>::empty());
            assert(r.ids() =~= Seq::<Seq<char>>::empty());
        }
        r
    }

    fn index(&self, id: &str) -> (r: Option<usize>)
        requires
            self.wf(),
        ensures
            match r {
                Some(i) => i < self.entries@.len() && self.entries@[i as int].0@ == id@
                    && self@.dom().contains(id@) && self@[id@] == self.entries@[i as int].1
                    && self.ids().index_of(id@) == i,
                None => !self@.dom().contains(id@),
            },
    {
        let mut i: usize = 0;
        while i < self.entries.len()
            invariant
                i <= self.entries.len(),
                self.wf(),
                forall|j: int| 0 <= j < i ==> (#[trigger] self.entries@[j]).0@ != id@,
            decreases self.entries.len() - i,
        {
            if str_eq(self.entries[i].0.as_str(), id) {
                proof {
                    lemma_map_of(self.entries@, i as int);
                }
                return Some(i);
            }
            i += 1;
        }
        proof {
            if self.ids().contains(id@) {
                let k = choose|k: int| 0 <= k < self.ids().len() && self.ids()[k] == id@;
                assert(self.entries@[k].0@ == id@);
            }
        }
        None
    }

    /// The value of an id.
    pub fn get(&self, id: &str) -> (r: Option<&T>)
        requires
            self.wf(),
        ensures
            match r {
                Some(v) => self@.dom().contains(id@) && *v == self@[id@],
                None => !self@.dom().contains(id@),
            },
    {
        match self.index(id) {
            Some(i) => Some(&self.entries[i].1),
            None => None,
        }
    }

    /// Whether the table has an entry for an id.
    pub fn contains(&self, id: &str) -> (r: bool)
        requires
            self.wf(),
        ensures
            r == self@.dom().contains(id@),
    {
        self.index(id).is_some()
    }

    /// Remove the entry of an id and return its value.
    pub fn remove(&mut self, id: &str) -> (r: Option<T>)
        requires
            old(self).wf(),
        ensures
            final(self).wf(),
            final(self)@ == old(self)@.remove(id@),
            match r {
                Some(v) => old(self)@.dom().contains(id@) && v == old(self)@[id@]
                    && final(self).ids() == old(self).ids().remove(old(self).ids().index_of(id@)),
                None => !old(self)@.dom().contains(id@) && *final(self) == *old(self),
            },
    {
        match self.index(id) {
            Some(i) => {
                let ghost before = self.entries@;
                let (_, v) = self.entries.remove(i);
                proof {
                    lemma_removed(before, i as int);
                    assert(self@ =~= map_of(before).remove(id@));
                }
                Some(v)
            },
            None => {
                proof {
                    assert(self@.remove(id@) =~= self@);
                }
                None
            },
        }
    }

    /// Set the value of an id and return the one that it replaces.
    ///
    /// An id that had a value goes to the end of the order.
    pub fn insert(&mut self, id: String, value: T) -> (r: Option<T>)
        requires
            old(self).wf(),
        ensures
            final(self).wf(),
            final(self)@ == old(self)@.insert(id@, value),
            match r {
                Some(v) => old(self)@.dom().contains(id@) && v == old(self)@[id@]
                    && final(self).ids() == old(self).ids().remove(
                    old(self).ids().index_of(id@),
                ).push(id@),
                None => !old(self)@.dom().contains(id@) && final(self).ids() == old(
                    self,
                ).ids().push(id@),
            },
    {
        let had = self.remove(id.as_str());
        let ghost before = self.entries@;
        let ghost key = id@;
        self.entries.push((id, value));
        proof {
            lemma_pushed(before, (id, value));
            assert(self@ =~= map_of(before).insert(key, value));
            assert(map_of(before).insert(key, value) =~= old(self)@.insert(key, value));
        }
        had
    }

    /// The ids, oldest first.
    pub fn keys(&self) -> (out: Vec<String>)
        ensures
            text::views(out@) == self.ids(),
    {
        let mut out: Vec<String> = Vec::new();
        let mut i: usize = 0;
        while i < self.entries.len()
            invariant
                i <= self.entries.len(),
                out@.len() == i,
                forall|j: int| 0 <= j < i ==> (#[trigger] out@[j])@ == self.entries@[j].0@,
            decreases self.entries.len() - i,
        {
            out.push(self.entries[i].0.clone());
            i += 1;
        }
        proof {
            assert(text::views(out@) =~= self.ids());
        }
        out
    }

    /// Number of entries.
    pub fn len(&self) -> (n: usize)
        ensures
            n == self.ids().len(),
    {
        self.entries.len()
    }
}

/// Removing one of several distinct entries removes its id.
proof fn lemma_removed<T>(before: Seq<(String, T)>, i: int)
    requires
        ids_of(before).no_duplicates(),
        0 <= i < before.len(),
    ensures
        ids_of(before.remove(i)) == ids_of(before).remove(i),
        ids_of(before.remove(i)).no_duplicates(),
        map_of(before.remove(i)) =~= map_of(before).remove(before[i].0@),
{
    let after = before.remove(i);
    let key = before[i].0@;
    assert(ids_of(after) =~= ids_of(before).remove(i));
    assert forall|a: int, b: int| 0 <= a < ids_of(after).len() && 0 <= b < ids_of(after).len() && a
        != b implies ids_of(after)[a] != ids_of(after)[b] by {
        let a0 = if a < i { a } else { a + 1 };
        let b0 = if b < i { b } else { b + 1 };
        assert(ids_of(before)[a0] != ids_of(before)[b0]);
    }
    assert forall|id: Seq<char>| #[trigger] ids_of(after).contains(id) <==> ids_of(before).contains(
        id,
    ) && id != key by {
        if ids_of(after).contains(id) {
            let k = choose|k: int| 0 <= k < ids_of(after).len() && ids_of(after)[k] == id;
            let k0 = if k < i { k } else { k + 1 };
            assert(ids_of(before)[k0] == id);
            assert(ids_of(before)[i] == key);
        }
        if ids_of(before).contains(id) && id != key {
            let k = choose|k: int| 0 <= k < ids_of(before).len() && ids_of(before)[k] == id;
            assert(ids_of(before)[i] == key);
            let k1 = if k < i { k } else { k - 1 };
            assert(ids_of(after)[k1] == id);
        }
    }
    assert forall|id: Seq<char>| #[trigger] ids_of(after).contains(id) implies map_of(after)[id]
        == map_of(before)[id] by {
        let k = ids_of(after).index_of(id);
        let k0 = if k < i { k } else { k + 1 };
        assert(after[k] == before[k0]);
        lemma_map_of(after, k);
        lemma_map_of(before, k0);
    }
}

/// Adding an entry with a new id adds its id.
proof fn lemma_pushed<T>(before: Seq<(String, T)>, e: (String, T))
    requires
        ids_of(before).no_duplicates(),
        !ids_of(before).contains(e.0@),
    ensures
        ids_of(before.push(e)) == ids_of(before).push(e.0@),
        ids_of(before.push(e)).no_duplicates(),
        map_of(before.push(e)) =~= map_of(before).insert(e.0@, e.1),
{
    let after = before.push(e);
    assert(ids_of(after) =~= ids_of(before).push(e.0@));
    assert forall|a: int, b: int| 0 <= a < ids_of(after).len() && 0 <= b < ids_of(after).len() && a
        != b implies ids_of(after)[a] != ids_of(after)[b] by {
        if a < before.len() && b < before.len() {
            assert(ids_of(before)[a] != ids_of(before)[b]);
        } else if a < before.len() {
            assert(ids_of(before).contains(ids_of(before)[a]));
        } else {
            assert(ids_of(before).contains(ids_of(before)[b]));
        }
    }
    assert forall|id: Seq<char>| #[trigger] ids_of(after).contains(id) <==> ids_of(before).contains(
        id,
    ) || id == e.0@ by {
        if ids_of(before).contains(id) {
            let k = choose|k: int| 0 <= k < ids_of(before).len() && ids_of(before)[k] == id;
            assert(ids_of(after)[k] == id);
        }
        if id == e.0@ {
            assert(ids_of(after)[before.len() as int] == id);
        }
        if ids_of(after).contains(id) {
            let k = choose|k: int| 0 <= k < ids_of(after).len() && ids_of(after)[k] == id;
            if k < before.len() {
                assert(ids_of(before)[k] == id);
            }
        }
    }
    assert forall|id: Seq<char>| #[trigger] ids_of(after).contains(id) implies map_of(after)[id]
        == map_of(before).insert(e.0@, e.1)[id] by {
        let k = ids_of(after).index_of(id);
        lemma_map_of(after, k);
        if k < before.len() {
            lemma_map_of(before, k);
        }
    }
}

} // verus!
