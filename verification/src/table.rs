//! A table keyed by text, in which no key occurs twice.

use crate::text::same_text;
use vstd::prelude::*;

verus! {

/// Whether a list of entries has a key.
spec fn holds<V>(entries: Seq<(String, V)>, key: Seq<char>) -> bool {
    exists|i: int| 0 <= i < entries.len() && (#[trigger] entries[i]).0@ == key
}

/// Where a list of entries has a key.
spec fn place<V>(entries: Seq<(String, V)>, key: Seq<char>) -> int {
    choose|i: int| 0 <= i < entries.len() && (#[trigger] entries[i]).0@ == key
}

/// Whether no key occurs twice.
spec fn unique<V>(entries: Seq<(String, V)>) -> bool {
    forall|i: int, j: int|
        0 <= i < entries.len() && 0 <= j < entries.len() && (#[trigger] entries[i]).0@ == (
        #[trigger] entries[j]).0@ ==> i == j
}

/// The map that a list of entries stands for.
spec fn as_map<V>(entries: Seq<(String, V)>) -> Map<Seq<char>, V> {
    Map::new(|key: Seq<char>| holds(entries, key), |key: Seq<char>| entries[place(entries, key)].1)
}

/// Every entry is in the map.
proof fn lemma_entry<V>(entries: Seq<(String, V)>, i: int)
    requires
        unique(entries),
        0 <= i < entries.len(),
    ensures
        as_map(entries).contains_key(entries[i].0@),
        as_map(entries)[entries[i].0@] == entries[i].1,
{
    let key = entries[i].0@;
    assert(holds(entries, key));
    let p = place(entries, key);
    assert(entries[p].0@ == key);
}

/// What changing the value at one place does.
spec fn changed_at<V>(entries: Seq<(String, V)>, i: int, v: V) -> bool {
    let after = entries.update(i, (entries[i].0, v));
    &&& unique(after)
    &&& as_map(after) == as_map(entries).insert(entries[i].0@, v)
    &&& after.map_values(|entry: (String, V)| entry.0@) == entries.map_values(|entry: (String, V)| entry.0@)
}

proof fn lemma_value_changed<V>(entries: Seq<(String, V)>, i: int, v: V)
    requires
        unique(entries),
        0 <= i < entries.len(),
    ensures
        changed_at(entries, i, v),
{
    let after = entries.update(i, (entries[i].0, v));
    assert forall|p: int, q: int|
        0 <= p < after.len() && 0 <= q < after.len() && (#[trigger] after[p]).0@ == (
        #[trigger] after[q]).0@ implies p == q by {
        assert(entries[p].0@ == entries[q].0@);
    }
    lemma_same_map(after, as_map(entries).insert(entries[i].0@, v), entries, i);
    assert(after.map_values(|entry: (String, V)| entry.0@) =~= entries.map_values(
        |entry: (String, V)| entry.0@,
    ));
}

/// A table keyed by text.
pub struct Table<V> {
    entries: Vec<(String, V)>,
}

impl<V> View for Table<V> {
    type V = Map<Seq<char>, V>;

    closed spec fn view(&self) -> Map<Seq<char>, V> {
        as_map(self.entries@)
    }
}

impl<V> Table<V> {
    /// No key occurs twice.
    pub closed spec fn wf(&self) -> bool {
        unique(self.entries@)
    }

    /// The keys in the order in which the table is walked.
    pub closed spec fn keys(&self) -> Seq<Seq<char>> {
        self.entries@.map_values(|entry: (String, V)| entry.0@)
    }

    /// The keys are those of the map, each once.
    pub proof fn lemma_keys(&self)
        requires
            self.wf(),
        ensures
            forall|i: int|
                0 <= i < self.keys().len() ==> self@.contains_key(#[trigger] self.keys()[i]),
            forall|key: Seq<char>| #[trigger]
                self@.contains_key(key) ==> exists|i: int|
                    0 <= i < self.keys().len() && #[trigger] self.keys()[i] == key,
            self.keys().no_duplicates(),
    {
        let keys = self.keys();
        assert forall|i: int| 0 <= i < keys.len() implies self@.contains_key(
            #[trigger] keys[i],
        ) by {
            lemma_entry(self.entries@, i);
        }
        assert forall|key: Seq<char>| #[trigger] self@.contains_key(key) implies exists|i: int|
            0 <= i < keys.len() && #[trigger] keys[i] == key by {
            let i = place(self.entries@, key);
            assert(keys[i] == key);
        }
        assert forall|i: int, j: int|
            0 <= i < keys.len() && 0 <= j < keys.len() && i != j implies keys[i] != keys[j] by {
            assert(keys[i] == self.entries@[i].0@ && keys[j] == self.entries@[j].0@);
        }
    }

    /// An empty table.
    pub fn new() -> (table: Table<V>)
        ensures
            table.wf(),
            table@ == Map::<Seq<char>, V>::empty(),
    {
        let table = Table { entries: Vec::new() };
        assert(table@ =~= Map::<Seq<char>, V>::empty());
        table
    }

    /// How many entries there are.
    pub fn len(&self) -> (n: usize)
        ensures
            n == self.keys().len(),
    {
        self.entries.len()
    }

    /// The key at a place of the walk.
    pub fn key_at(&self, i: usize) -> (key: &str)
        requires
            i < self.keys().len(),
        ensures
            key@ == self.keys()[i as int],
    {
        self.entries[i].0.as_str()
    }

    /// The place of a key in the walk.
    pub fn find(&self, key: &str) -> (place: Option<usize>)
        requires
            self.wf(),
        ensures
            match place {
                Some(i) => i < self.keys().len() && self.keys()[i as int] == key@
                    && self@.contains_key(key@),
                None => !self@.contains_key(key@),
            },
    {
        let mut i: usize = 0;
        while i < self.entries.len()
            invariant
                i <= self.entries@.len(),
                self.wf(),
                forall|j: int| 0 <= j < i ==> (#[trigger] self.entries@[j]).0@ != key@,
            decreases self.entries@.len() - i,
        {
            if same_text(self.entries[i].0.as_str(), key) {
                proof {
                    lemma_entry(self.entries@, i as int);
                }
                return Some(i);
            }
            i += 1;
        }
        None
    }

    /// Whether there is an entry for a key.
    pub fn contains(&self, key: &str) -> (found: bool)
        requires
            self.wf(),
        ensures
            found == self@.contains_key(key@),
    {
        self.find(key).is_some()
    }

    /// The value for a key.
    pub fn get(&self, key: &str) -> (value: Option<&V>)
        requires
            self.wf(),
        ensures
            match value {
                Some(value) => self@.contains_key(key@) && *value == self@[key@],
                None => !self@.contains_key(key@),
            },
    {
        match self.find(key) {
            Some(i) => {
                proof {
                    lemma_entry(self.entries@, i as int);
                }
                Some(&self.entries[i].1)
            },
            None => None,
        }
    }

    /// The value at a place of the walk, to be changed there.
    pub fn value_mut(&mut self, i: usize) -> (value: &mut V)
        requires
            old(self).wf(),
            i < old(self).keys().len(),
        ensures
            *value == old(self)@[old(self).keys()[i as int]],
            final(self).wf(),
            final(self).keys() == old(self).keys(),
            final(self)@ == old(self)@.insert(old(self).keys()[i as int], *final(value)),
    {
        proof {
            lemma_entry(self.entries@, i as int);
            let entries = self.entries@;
            let key = entries[i as int].0;
            assert forall|v: V| #![trigger entries.update(i as int, (key, v))]
                changed_at(entries, i as int, v) by {
                lemma_value_changed(entries, i as int, v);
            }
        }
        &mut self.entries[i].1
    }

    /// Adds an entry, or replaces the one for the same key.
    pub fn insert(&mut self, key: String, value: V)
        requires
            old(self).wf(),
        ensures
            final(self).wf(),
            final(self)@ == old(self)@.insert(key@, value),
    {
        let ghost before = self.entries@;
        let ghost k = key@;
        match self.find(key.as_str()) {
            Some(i) => {
                self.entries.set(i, (key, value));
                proof {
                    let after = self.entries@;
                    assert forall|j: int| 0 <= j < after.len() implies (#[trigger] after[j]).0@
                        == before[j].0@ by {}
                    assert(unique(after)) by {
                        assert forall|p: int, q: int|
                            0 <= p < after.len() && 0 <= q < after.len() && (
                            #[trigger] after[p]).0@ == (#[trigger] after[q]).0@ implies p == q by {
                            assert(before[p].0@ == before[q].0@);
                        }
                    }
                    lemma_same_map(after, as_map(before).insert(k, value), before, i as int);
                }
            },
            None => {
                self.entries.push((key, value));
                proof {
                    let after = self.entries@;
                    assert forall|j: int| 0 <= j < before.len() implies (#[trigger] before[j]).0@ != k by {
                        lemma_entry(before, j);
                    }
                    assert(unique(after)) by {
                        assert forall|p: int, q: int|
                            0 <= p < after.len() && 0 <= q < after.len() && (
                            #[trigger] after[p]).0@ == (#[trigger] after[q]).0@ implies p == q by {
                            if p < before.len() && q < before.len() {
                                assert(before[p].0@ == before[q].0@);
                            } else if p < before.len() {
                                assert(before[p].0@ != k);
                            } else if q < before.len() {
                                assert(before[q].0@ != k);
                            }
                        }
                    }
                    let n = before.len() as int;
                    lemma_same_map(after, as_map(before).insert(k, value), before, n);
                }
            },
        }
    }

    /// Takes out the entry for a key, if there is one, and returns its value.
    pub fn remove(&mut self, key: &str) -> (value: Option<V>)
        requires
            old(self).wf(),
        ensures
            final(self).wf(),
            final(self)@ == old(self)@.remove(key@),
            match value {
                Some(value) => old(self)@.contains_key(key@) && value == old(self)@[key@],
                None => !old(self)@.contains_key(key@),
            },
    {
        match self.find(key) {
            Some(i) => {
                proof {
                    lemma_entry(self.entries@, i as int);
                    lemma_removed(self.entries@, i as int);
                }
                Some(self.entries.remove(i).1)
            },
            None => {
                assert(self@.remove(key@) =~= self@);
                None
            },
        }
    }
}

impl Table<String> {
    /// The table with its values read as text.
    pub open spec fn texts(&self) -> Map<Seq<char>, Seq<char>> {
        self@.map_values(|value: String| value@)
    }

    /// Takes out every entry with a given value.
    pub fn remove_value(&mut self, value: &str)
        requires
            old(self).wf(),
        ensures
            final(self).wf(),
            final(self).texts() == without_value(old(self).texts(), value@),
    {
        let mut i: usize = 0;
        let ghost before = self@;
        while i < self.entries.len()
            invariant
                self.wf(),
                i <= self.entries@.len(),
                forall|j: int| 0 <= j < i ==> (#[trigger] self.entries@[j]).1@ != value@,
                forall|key: Seq<char>| #[trigger]
                    self@.contains_key(key) ==> before.contains_key(key) && before[key] == self@[key],
                forall|key: Seq<char>|
                    before.contains_key(key) && (#[trigger] before[key])@ != value@
                        ==> self@.contains_key(key),
            decreases self.entries@.len() - i,
        {
            proof {
                lemma_entry(self.entries@, i as int);
            }
            if same_text(self.entries[i].1.as_str(), value) {
                proof {
                    lemma_removed(self.entries@, i as int);
                }
                let ghost m = self@;
                let ghost k = self.entries@[i as int].0@;
                self.entries.remove(i);
                assert(self@ == m.remove(k));
            } else {
                i += 1;
            }
        }
        proof {
            let goal = without_value(before.map_values(|v: String| v@), value@);
            assert forall|key: Seq<char>| #[trigger] self.texts().contains_key(key) implies goal.contains_key(
                key,
            ) && goal[key] == self.texts()[key] by {
                let p = place(self.entries@, key);
                assert(self@.contains_key(key));
                lemma_entry(self.entries@, p);
            }
            assert forall|key: Seq<char>| #[trigger] goal.contains_key(key) implies self.texts().contains_key(
                key,
            ) by {
                assert(before[key]@ != value@);
            }
            assert(self.texts() =~= goal);
        }
    }
}

/// A map without the entries that have a given value.
pub open spec fn without_value(m: Map<Seq<char>, Seq<char>>, value: Seq<char>) -> Map<
    Seq<char>,
    Seq<char>,
> {
    Map::new(|key: Seq<char>| m.contains_key(key) && m[key] != value, |key: Seq<char>| m[key])
}

/// Taking out one entry takes its key out of the map.
proof fn lemma_removed<V>(entries: Seq<(String, V)>, i: int)
    requires
        unique(entries),
        0 <= i < entries.len(),
    ensures
        unique(entries.remove(i)),
        as_map(entries.remove(i)) == as_map(entries).remove(entries[i].0@),
{
    let after = entries.remove(i);
    let expected = as_map(entries).remove(entries[i].0@);
    assert forall|p: int| 0 <= p < after.len() implies #[trigger] after[p] == entries[if p < i {
        p
    } else {
        p + 1
    }] by {}
    assert forall|p: int, q: int|
        0 <= p < after.len() && 0 <= q < after.len() && (#[trigger] after[p]).0@ == (
        #[trigger] after[q]).0@ implies p == q by {
        let (s, t) = (if p < i { p } else { p + 1 }, if q < i { q } else { q + 1 });
        assert(entries[s].0@ == entries[t].0@);
    }
    let m = as_map(after);
    assert forall|key: Seq<char>| #[trigger] m.contains_key(key) implies expected.contains_key(key)
        && m[key] == expected[key] by {
        let p = place(after, key);
        assert(after[p].0@ == key);
        lemma_entry(after, p);
        let s = if p < i { p } else { p + 1 };
        assert(entries[s].0@ == key);
        lemma_entry(entries, s);
    }
    assert forall|key: Seq<char>| #[trigger] expected.contains_key(key) implies m.contains_key(key) by {
        let s = place(entries, key);
        assert(entries[s].0@ == key);
        let p = if s < i { s } else { s - 1 };
        assert(after[p].0@ == key);
    }
    assert(m =~= expected);
}

/// Entries that agree with a list before but at one place, where a key has a new
/// value, stand for the map with that value put in.
proof fn lemma_same_map<V>(
    after: Seq<(String, V)>,
    expected: Map<Seq<char>, V>,
    before: Seq<(String, V)>,
    i: int,
)
    requires
        unique(before),
        unique(after),
        0 <= i < after.len(),
        after.len() == before.len() || (i == before.len() && after.len() == before.len() + 1),
        i < before.len() ==> after[i].0@ == before[i].0@,
        forall|j: int| 0 <= j < before.len() && j != i ==> #[trigger] after[j] == before[j],
        expected == as_map(before).insert(after[i].0@, after[i].1),
    ensures
        as_map(after) == expected,
{
    let m = as_map(after);
    assert forall|key: Seq<char>| #[trigger] m.contains_key(key) <==> expected.contains_key(key) by {
        if m.contains_key(key) {
            let p = place(after, key);
            assert(after[p].0@ == key);
            if p != i {
                assert(before[p].0@ == key);
            }
        }
        if expected.contains_key(key) && key != after[i].0@ {
            let p = place(before, key);
            assert(before[p].0@ == key);
            assert(after[p].0@ == key);
        }
        if key == after[i].0@ {
            assert(holds(after, key));
        }
    }
    assert forall|key: Seq<char>| #[trigger] m.contains_key(key) implies m[key] == expected[key] by {
        let p = place(after, key);
        assert(after[p].0@ == key);
        lemma_entry(after, p);
        if p == i {
        } else {
            assert(before[p].0@ == key);
            lemma_entry(before, p);
            assert(key != after[i].0@);
        }
    }
    assert(m =~= expected);
}

} // verus!
