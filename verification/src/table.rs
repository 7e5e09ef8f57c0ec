//! A small table under keys of two texts.
use vstd::prelude::*;

use crate::text::same;

verus! {

/// The key of a table as characters.
pub type KeyView = (Seq<char>, Seq<char>);

/// Values under keys of two texts, each key at most once.
#[derive(Debug)]
pub struct PairTable<V> {
    entries: Vec<((String, String), V)>,
}

spec fn key_of(key: (String, String)) -> KeyView {
    (key.0@, key.1@)
}

/// What a list of entries comes to: a later entry replaces an earlier one under its key.
spec fn contents<V>(entries: Seq<((String, String), V)>) -> Map<KeyView, V>
    decreases entries.len(),
{
    if entries.len() == 0 {
        Map::empty()
    } else {
        contents(entries.drop_last()).insert(key_of(entries.last().0), entries.last().1)
    }
}

impl<V> View for PairTable<V> {
    type V = Map<KeyView, V>;

    closed spec fn view(&self) -> Map<KeyView, V> {
        contents(self.entries@)
    }
}

/// The last entry under a key decides what the table holds there.
proof fn lemma_last_match<V>(entries: Seq<((String, String), V)>, key: KeyView, i: int)
    requires
        0 <= i < entries.len(),
        key_of(entries[i].0) == key,
        forall|j: int| i < j < entries.len() ==> key_of(#[trigger] entries[j].0) != key,
    ensures
        contents(entries).contains_key(key),
        contents(entries)[key] == entries[i].1,
    decreases entries.len(),
{
    if i < entries.len() - 1 {
        let rest = entries.drop_last();
        assert(key_of(entries[entries.len() - 1].0) != key);
        assert forall|j: int| i < j < rest.len() implies key_of(#[trigger] rest[j].0) != key by {
            assert(rest[j] == entries[j]);
        }
        lemma_last_match(rest, key, i);
    }
}

proof fn lemma_no_match<V>(entries: Seq<((String, String), V)>, key: KeyView)
    requires
        forall|j: int| 0 <= j < entries.len() ==> key_of(#[trigger] entries[j].0) != key,
    ensures
        !contents(entries).contains_key(key),
    decreases entries.len(),
{
    if entries.len() > 0 {
        let rest = entries.drop_last();
        assert forall|j: int| 0 <= j < rest.len() implies key_of(#[trigger] rest[j].0) != key by {
            assert(rest[j] == entries[j]);
        }
        assert(key_of(entries[entries.len() - 1].0) != key);
        lemma_no_match(rest, key);
    }
}

proof fn lemma_replaced<V>(
    entries: Seq<((String, String), V)>,
    i: int,
    entry: ((String, String), V),
)
    requires
        0 <= i < entries.len(),
        key_of(entry.0) == key_of(entries[i].0),
        forall|j: int|
            i < j < entries.len() ==> key_of(#[trigger] entries[j].0) != key_of(entry.0),
    ensures
        contents(entries.update(i, entry)) == contents(entries).insert(key_of(entry.0), entry.1),
    decreases entries.len(),
{
    let changed = entries.update(i, entry);
    if i == entries.len() - 1 {
        assert(changed.drop_last() =~= entries.drop_last());
        assert(contents(changed) =~= contents(entries).insert(key_of(entry.0), entry.1));
    } else {
        let rest = entries.drop_last();
        assert(key_of(entries[entries.len() - 1].0) != key_of(entry.0));
        assert forall|j: int| i < j < rest.len() implies key_of(#[trigger] rest[j].0) != key_of(
            entry.0,
        ) by {
            assert(rest[j] == entries[j]);
        }
        lemma_replaced(rest, i, entry);
        assert(changed.drop_last() =~= rest.update(i, entry));
        assert(contents(changed) =~= contents(entries).insert(key_of(entry.0), entry.1));
    }
}

impl<V: Copy> PairTable<V> {
    pub fn new() -> (result: PairTable<V>)
        ensures
            result@ == Map::<KeyView, V>::empty(),
    {
        PairTable { entries: Vec::new() }
    }

    /// The position of the last entry under a key, or the number of entries.
    fn position(&self, first: &str, second: &str) -> (result: usize)
        ensures
            result <= self.entries@.len(),
            result < self.entries@.len() ==> key_of(self.entries@[result as int].0) == (
                first@,
                second@,
            ),
            result < self.entries@.len() ==> forall|j: int|
                result < j < self.entries@.len() ==> key_of(#[trigger] self.entries@[j].0) != (
                    first@,
                    second@,
                ),
            result == self.entries@.len() ==> forall|j: int|
                0 <= j < self.entries@.len() ==> key_of(#[trigger] self.entries@[j].0) != (
                    first@,
                    second@,
                ),
    {
        let count: usize = self.entries.len();
        let mut i: usize = count;
        while i > 0
            invariant
                i <= count == self.entries@.len(),
                forall|j: int|
                    i <= j < count ==> key_of(#[trigger] self.entries@[j].0) != (first@, second@),
            decreases i,
        {
            let entry = &self.entries[i - 1];
            if same(entry.0.0.as_str(), first) && same(entry.0.1.as_str(), second) {
                return i - 1;
            }
            i = i - 1;
        }
        count
    }

    /// The value under a key, if there is one.
    pub fn get(&self, first: &str, second: &str) -> (result: Option<V>)
        ensures
            result == (if self@.contains_key((first@, second@)) {
                Some(self@[(first@, second@)])
            } else {
                None
            }),
    {
        let i: usize = self.position(first, second);
        if i < self.entries.len() {
            proof {
                lemma_last_match(self.entries@, (first@, second@), i as int);
            }
            Some(self.entries[i].1)
        } else {
            proof {
                lemma_no_match(self.entries@, (first@, second@));
            }
            None
        }
    }

    /// Puts a value under a key, in place of the one that was there.
    pub fn insert(&mut self, first: &str, second: &str, value: V)
        ensures
            final(self)@ == old(self)@.insert((first@, second@), value),
    {
        let i: usize = self.position(first, second);
        let entry = ((first.to_owned(), second.to_owned()), value);
        let ghost before = self.entries@;
        if i < self.entries.len() {
            proof {
                lemma_replaced(before, i as int, entry);
            }
            self.entries.set(i, entry);
        } else {
            self.entries.push(entry);
            proof {
                assert(self.entries@.drop_last() =~= before);
            }
        }
    }

    /// Removes the value under a key.
    pub fn remove(&mut self, first: &str, second: &str)
        ensures
            final(self)@ == old(self)@.remove((first@, second@)),
    {
        let mut kept: Vec<((String, String), V)> = Vec::new();
        let mut i: usize = 0;
        let ghost key = (first@, second@);
        proof {
            assert(contents(self.entries@.take(0)) =~= Map::<KeyView, V>::empty());
            assert(contents(kept@) =~= contents(self.entries@.take(0)).remove(key));
        }
        while i < self.entries.len()
            invariant
                *self == *old(self),
                key == (first@, second@),
                i <= self.entries@.len(),
                contents(kept@) == contents(self.entries@.take(i as int)).remove(key),
            decreases self.entries@.len() - i,
        {
            let entry = &self.entries[i];
            proof {
                assert(self.entries@.take(i + 1).drop_last() =~= self.entries@.take(i as int));
            }
            if !(same(entry.0.0.as_str(), first) && same(entry.0.1.as_str(), second)) {
                let ghost before = kept@;
                kept.push(((entry.0.0.clone(), entry.0.1.clone()), entry.1));
                proof {
                    assert(kept@.drop_last() =~= before);
                    assert(contents(kept@) =~= contents(self.entries@.take(i + 1)).remove(key));
                }
            } else {
                proof {
                    assert(contents(kept@) =~= contents(self.entries@.take(i + 1)).remove(key));
                }
            }
            i = i + 1;
        }
        proof {
            assert(self.entries@.take(i as int) =~= self.entries@);
        }
        self.entries = kept;
    }
}

} // verus!
