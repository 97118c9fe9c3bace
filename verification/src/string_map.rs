//! A map from strings to values, kept as a list of entries with distinct
//! keys.

use vstd::prelude::*;

verus! {

/// No key occurs twice in a list of entries.
pub open spec fn distinct_keys<T>(entries: Seq<(Seq<char>, T)>) -> bool {
    forall|i: int, j: int|
        #![trigger entries[i], entries[j]]
        0 <= i < j < entries.len() ==> entries[i].0 != entries[j].0
}

/// The map that a list of entries stands for.
pub open spec fn map_of<T>(entries: Seq<(Seq<char>, T)>) -> Map<Seq<char>, T>
    decreases entries.len(),
{
    if entries.len() == 0 {
        Map::empty()
    } else {
        map_of(entries.drop_last()).insert(entries.last().0, entries.last().1)
    }
}

/// The entries before the last have distinct keys where all entries have.
proof fn lemma_distinct_front<T>(entries: Seq<(Seq<char>, T)>)
    requires
        distinct_keys(entries),
        entries.len() > 0,
    ensures
        distinct_keys(entries.drop_last()),
{
    let front = entries.drop_last();
    assert forall|a: int, b: int|
        #![trigger front[a], front[b]]
        0 <= a < b < front.len() implies front[a].0 != front[b].0 by {
        assert(entries[a].0 != entries[b].0);
    }
}

/// A key is in the map exactly when some entry has it.
pub proof fn lemma_map_of_dom<T>(entries: Seq<(Seq<char>, T)>, key: Seq<char>)
    ensures
        map_of(entries).contains_key(key) <==> exists|i: int|
            0 <= i < entries.len() && (#[trigger] entries[i]).0 == key,
    decreases entries.len(),
{
    if entries.len() > 0 {
        let front = entries.drop_last();
        lemma_map_of_dom(front, key);
        if map_of(front).contains_key(key) {
            let i = choose|i: int| 0 <= i < front.len() && (#[trigger] front[i]).0 == key;
            assert(entries[i].0 == key);
        }
        if entries.last().0 == key {
            assert(entries[entries.len() - 1].0 == key);
        }
        if exists|i: int| 0 <= i < entries.len() && (#[trigger] entries[i]).0 == key {
            let i = choose|i: int| 0 <= i < entries.len() && (#[trigger] entries[i]).0 == key;
            if i < front.len() {
                assert(front[i].0 == key);
            }
        }
    }
}

/// Where no key occurs twice, the map holds the value of each entry under
/// the key of that entry.
pub proof fn lemma_map_of_entry<T>(entries: Seq<(Seq<char>, T)>, i: int)
    requires
        distinct_keys(entries),
        0 <= i < entries.len(),
    ensures
        map_of(entries).contains_key(entries[i].0),
        map_of(entries)[entries[i].0] == entries[i].1,
    decreases entries.len(),
{
    if i < entries.len() - 1 {
        lemma_distinct_front(entries);
        lemma_map_of_entry(entries.drop_last(), i);
        assert(entries[i].0 != entries.last().0);
    }
}

/// A map from strings to values of type `V`.
#[derive(Debug)]
pub struct StringMap<V> {
    entries: Vec<(String, V)>,
}

impl<V> StringMap<V> {
    /// No key occurs twice among the entries.
    #[verifier::type_invariant]
    spec fn keys_are_distinct(self) -> bool {
        forall|i: int, j: int|
            #![trigger self.entries[i], self.entries[j]]
            0 <= i < j < self.entries.len() ==> self.entries[i].0@ != self.entries[j].0@
    }
}

impl<V: DeepView> View for StringMap<V> {
    type V = Map<Seq<char>, V::V>;

    closed spec fn view(&self) -> Map<Seq<char>, V::V> {
        map_of(self.entries.deep_view())
    }
}

impl<V: DeepView> StringMap<V> {
    /// The empty map.
    pub fn new() -> (r: Self)
        ensures
            r@ == Map::<Seq<char>, V::V>::empty(),
    {
        StringMap { entries: Vec::new() }
    }

    /// The map that a list of entries stands for. Where a key occurs more
    /// than once, its last entry counts.
    pub fn from_entries(entries: Vec<(String, V)>) -> (r: Self)
        ensures
            r@ == map_of(entries.deep_view()),
    {
        let ghost all = entries.deep_view();
        let ghost items = entries@;
        let mut map = StringMap::new();
        for entry in it: entries.into_iter()
            invariant
                it.seq() == items,
                all.len() == items.len(),
                forall|i: int| 0 <= i < items.len() ==> all[i] == (items[i].0@, items[i].1.deep_view()),
                map@ == map_of(all.take(it.index() as int)),
        {
            proof {
                assert(all.take(it.index() + 1).drop_last() == all.take(it.index() as int));
            }
            map.insert(entry.0, entry.1);
        }
        assert(all.take(all.len() as int) == all);
        map
    }

    /// The entries of the map, each key once.
    pub fn entries(&self) -> (r: &Vec<(String, V)>)
        ensures
            distinct_keys(r.deep_view()),
            self@ == map_of(r.deep_view()),
    {
        proof {
            use_type_invariant(self);
        }
        &self.entries
    }

    /// The position of `key` among the entries.
    fn position(&self, key: &str) -> (r: Option<usize>)
        ensures
            match r {
                Some(i) => i < self.entries.len() && self.entries[i as int].0@ == key@,
                None => forall|i: int| 0 <= i < self.entries.len() ==> self.entries[i].0@ != key@,
            },
    {
        let wanted = key.to_owned();
        let mut i: usize = 0;
        while i < self.entries.len()
            invariant
                i <= self.entries.len(),
                wanted@ == key@,
                forall|j: int| 0 <= j < i ==> self.entries[j].0@ != key@,
            decreases self.entries.len() - i,
        {
            if self.entries[i].0 == wanted {
                return Some(i);
            }
            i += 1;
        }
        None
    }

    /// The value stored under `key`, if there is one.
    pub fn get(&self, key: &str) -> (r: Option<&V>)
        ensures
            match r {
                Some(value) => self@.contains_key(key@) && self@[key@] == value.deep_view(),
                None => !self@.contains_key(key@),
            },
    {
        proof {
            use_type_invariant(self);
            lemma_map_of_dom(self.entries.deep_view(), key@);
        }
        match self.position(key) {
            Some(i) => {
                proof {
                    lemma_map_of_entry(self.entries.deep_view(), i as int);
                }
                Some(&self.entries[i].1)
            },
            None => None,
        }
    }

    /// Stores `value` under `key`, in place of what was stored there.
    pub fn insert(&mut self, key: String, value: V)
        ensures
            final(self)@ == old(self)@.insert(key@, value.deep_view()),
    {
        proof {
            use_type_invariant(&*self);
        }
        let found = self.position(key.as_str());
        let mut entries: Vec<(String, V)> = Vec::new();
        std::mem::swap(&mut entries, &mut self.entries);
        let ghost before = entries.deep_view();
        match found {
            Some(i) => {
                entries.set(i, (key, value));
                proof {
                    lemma_update_entry(before, i as int, value.deep_view());
                    assert(entries.deep_view() == before.update(i as int, (key@, value.deep_view())));
                }
            },
            None => {
                entries.push((key, value));
                assert(entries.deep_view().drop_last() == before);
            },
        }
        self.entries = entries;
    }
}

/// Replacing the value of an entry replaces the value under its key.
proof fn lemma_update_entry<T>(entries: Seq<(Seq<char>, T)>, i: int, value: T)
    requires
        distinct_keys(entries),
        0 <= i < entries.len(),
    ensures
        distinct_keys(entries.update(i, (entries[i].0, value))),
        map_of(entries.update(i, (entries[i].0, value))) == map_of(entries).insert(
            entries[i].0,
            value,
        ),
    decreases entries.len(),
{
    let key = entries[i].0;
    let after = entries.update(i, (key, value));
    assert forall|a: int, b: int|
        #![trigger after[a], after[b]]
        0 <= a < b < after.len() implies after[a].0 != after[b].0 by {
        assert(entries[a].0 != entries[b].0);
    }
    let front = entries.drop_last();
    if i == entries.len() - 1 {
        assert(after.drop_last() == front);
    } else {
        lemma_distinct_front(entries);
        lemma_update_entry(front, i, value);
        assert(after.drop_last() == front.update(i, (key, value)));
        assert(entries[i].0 != entries.last().0);
    }
}

} // verus!
