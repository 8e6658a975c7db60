//! A dictionary keyed by strings, kept in insertion order.

use vstd::prelude::*;

verus! {

/// Whether `key` has an entry among `entries`.
pub open spec fn has_key<V>(entries: Seq<(Seq<char>, V)>, key: Seq<char>) -> bool {
    exists|i: int| 0 <= i < entries.len() && entries[i].0 == key
}

/// Whether `i` is the first position among `entries` that holds `key`.
pub open spec fn is_first<V>(entries: Seq<(Seq<char>, V)>, key: Seq<char>, i: int) -> bool {
    &&& 0 <= i < entries.len()
    &&& entries[i].0 == key
    &&& forall|j: int| 0 <= j < i ==> entries[j].0 != key
}

/// The first position among `entries` that holds `key`, where it has one.
pub open spec fn position_of<V>(entries: Seq<(Seq<char>, V)>, key: Seq<char>) -> int {
    choose|i: int| is_first(entries, key, i)
}

/// No key occurs twice.
pub open spec fn distinct<V>(entries: Seq<(Seq<char>, V)>) -> bool {
    forall|i: int, j: int| 0 <= i < j < entries.len() ==> entries[i].0 != entries[j].0
}

/// The first position that holds a key is the only one that is first.
pub proof fn lemma_first_is_position<V>(entries: Seq<(Seq<char>, V)>, key: Seq<char>, i: int)
    requires
        is_first(entries, key, i),
    ensures
        position_of(entries, key) == i,
        has_key(entries, key),
{
    let p = position_of(entries, key);
    assert(is_first(entries, key, p));
    if p < i {
        assert(entries[p].0 != key);
    }
    if i < p {
        assert(entries[i].0 != key);
    }
}

/// A key that has an entry has a first one.
pub proof fn lemma_has_first<V>(entries: Seq<(Seq<char>, V)>, key: Seq<char>)
    requires
        has_key(entries, key),
    ensures
        is_first(entries, key, position_of(entries, key)),
{
    let w = choose|i: int| 0 <= i < entries.len() && entries[i].0 == key;
    lemma_first_below(entries, key, w);
}

proof fn lemma_first_below<V>(entries: Seq<(Seq<char>, V)>, key: Seq<char>, w: int)
    requires
        0 <= w < entries.len(),
        entries[w].0 == key,
    ensures
        exists|i: int| is_first(entries, key, i),
    decreases w,
{
    if exists|j: int| 0 <= j < w && entries[j].0 == key {
        let j = choose|j: int| 0 <= j < w && entries[j].0 == key;
        lemma_first_below(entries, key, j);
    } else {
        assert(is_first(entries, key, w));
    }
}

/// The entries with `value` under `key`: in the place of the key's first
/// entry where it has one, at the end where it has none.
pub open spec fn put<V>(entries: Seq<(Seq<char>, V)>, key: Seq<char>, value: V) -> Seq<
    (Seq<char>, V),
> {
    if has_key(entries, key) {
        entries.update(position_of(entries, key), (key, value))
    } else {
        entries.push((key, value))
    }
}

/// Putting a value under a key keeps distinct keys distinct.
pub proof fn lemma_put_distinct<V>(entries: Seq<(Seq<char>, V)>, key: Seq<char>, value: V)
    requires
        distinct(entries),
    ensures
        distinct(put(entries, key, value)),
{
    if has_key(entries, key) {
        lemma_has_first(entries, key);
    }
}

/// A map from strings to `V` that remembers the order in which its keys
/// came. Its view is the sequence of its entries, each key by its
/// characters. `insert` never adds a key that is there already.
#[derive(Debug)]
pub struct Dict<V> {
    pub(crate) entries: Vec<(String, V)>,
}

impl<V> View for Dict<V> {
    type V = Seq<(Seq<char>, V)>;

    closed spec fn view(&self) -> Seq<(Seq<char>, V)> {
        Seq::new(self.entries@.len(), |i: int| (self.entries@[i].0@, self.entries@[i].1))
    }
}

impl<V> Dict<V> {
    /// An empty dictionary.
    pub fn new() -> (dict: Self)
        ensures
            dict@ == Seq::<(Seq<char>, V)>::empty(),
    {
        let dict = Dict { entries: Vec::new() };
        assert(dict@ =~= Seq::empty());
        dict
    }

    /// The number of entries.
    pub fn len(&self) -> (len: usize)
        ensures
            len == self@.len(),
    {
        self.entries.len()
    }

    /// The first position at which `key` has an entry.
    pub fn find(&self, key: &str) -> (found: Option<usize>)
        ensures
            match found {
                Some(i) => is_first(self@, key@, i as int) && i == position_of(self@, key@),
                None => !has_key(self@, key@),
            },
    {
        let wanted = key.to_owned();
        let n = self.entries.len();
        let mut i: usize = 0;
        while i < n
            invariant
                i <= n,
                n == self@.len(),
                wanted@ == key@,
                forall|k: int| 0 <= k < i ==> self@[k].0 != key@,
            decreases n - i,
        {
            if self.entries[i].0 == wanted {
                proof {
                    lemma_first_is_position(self@, key@, i as int);
                }
                return Some(i);
            }
            i += 1;
        }
        None
    }

    /// Whether `key` has an entry.
    pub fn contains_key(&self, key: &str) -> (found: bool)
        ensures
            found == has_key(self@, key@),
    {
        self.find(key).is_some()
    }

    /// The value under `key`.
    pub fn get(&self, key: &str) -> (value: Option<&V>)
        ensures
            match value {
                Some(v) => has_key(self@, key@) && *v == self@[position_of(self@, key@)].1,
                None => !has_key(self@, key@),
            },
    {
        match self.find(key) {
            Some(i) => Some(&self.entries[i].1),
            None => None,
        }
    }

    /// The key at `index`, in insertion order.
    pub fn key_at(&self, index: usize) -> (key: &String)
        requires
            index < self@.len(),
        ensures
            key@ == self@[index as int].0,
    {
        &self.entries[index].0
    }

    /// The value at `index`, in insertion order.
    pub fn value_at(&self, index: usize) -> (value: &V)
        requires
            index < self@.len(),
        ensures
            *value == self@[index as int].1,
    {
        &self.entries[index].1
    }

    /// The value at `index`, to change in place.
    pub fn value_at_mut(&mut self, index: usize) -> (value: &mut V)
        requires
            index < old(self)@.len(),
        ensures
            *value == old(self)@[index as int].1,
            final(self)@ == old(self)@.update(
                index as int,
                (old(self)@[index as int].0, *final(value)),
            ),
    {
        let ghost before = self@;
        let value = &mut self.entries[index].1;
        proof {
            assert(after_borrow(self)@ =~= before.update(
                index as int,
                (before[index as int].0, *final(value)),
            ));
        }
        value
    }

    /// Puts `value` under `key`. A key that is there keeps its place and
    /// gets the new value, and the old value is returned; a new key goes to
    /// the end. Keys that were distinct stay so.
    pub fn insert(&mut self, key: String, value: V) -> (previous: Option<V>)
        ensures
            final(self)@ == put(old(self)@, key@, value),
            distinct(old(self)@) ==> distinct(final(self)@),
            previous == if has_key(old(self)@, key@) {
                Some(old(self)@[position_of(old(self)@, key@)].1)
            } else {
                None
            },
    {
        let ghost before = self@;
        proof {
            if distinct(before) {
                lemma_put_distinct(before, key@, value);
            }
        }
        match self.find(key.as_str()) {
            Some(i) => {
                let mut previous = value;
                core::mem::swap(&mut self.entries[i].1, &mut previous);
                assert(self@ =~= before.update(i as int, (key@, value)));
                Some(previous)
            },
            None => {
                self.entries.push((key, value));
                assert(self@ =~= before.push((key@, value)));
                None
            },
        }
    }
}

/// The entries of a dictionary of strings, each value by its characters too.
pub open spec fn texts(entries: Seq<(Seq<char>, String)>) -> Seq<(Seq<char>, Seq<char>)> {
    Seq::new(entries.len(), |i: int| (entries[i].0, entries[i].1@))
}

/// Read as text, the entries have the keys they had, each where it was.
pub proof fn lemma_texts_keys(entries: Seq<(Seq<char>, String)>, key: Seq<char>)
    ensures
        has_key(texts(entries), key) == has_key(entries, key),
        has_key(entries, key) ==> position_of(texts(entries), key) == position_of(entries, key),
{
    if has_key(entries, key) {
        lemma_has_first(entries, key);
        let p = position_of(entries, key);
        assert(is_first(texts(entries), key, p)) by {
            assert forall|j: int| 0 <= j < p implies texts(entries)[j].0 != key by {
                assert(entries[j].0 != key);
            }
        }
        lemma_first_is_position(texts(entries), key, p);
    }
    if has_key(texts(entries), key) {
        let w = choose|i: int| 0 <= i < texts(entries).len() && texts(entries)[i].0 == key;
        assert(entries[w].0 == key);
    }
}

/// Putting a string under a key and reading the entries as text is putting
/// the string's text under the key in the entries read as text.
pub proof fn lemma_texts_put(entries: Seq<(Seq<char>, String)>, key: Seq<char>, value: String)
    ensures
        texts(put(entries, key, value)) == put(texts(entries), key, value@),
{
    lemma_texts_keys(entries, key);
    if has_key(entries, key) {
        lemma_has_first(entries, key);
    }
    assert(texts(put(entries, key, value)) =~= put(texts(entries), key, value@));
}

impl Clone for Dict<String> {
    fn clone(&self) -> (copy: Self)
        ensures
            copy@ == self@,
    {
        let mut entries: Vec<(String, String)> = Vec::new();
        let n = self.entries.len();
        let mut i: usize = 0;
        while i < n
            invariant
                i <= n,
                n == self.entries@.len(),
                entries@.len() == i,
                forall|k: int|
                    0 <= k < i ==> entries@[k].0@ == self.entries@[k].0@ && entries@[k].1
                        == self.entries@[k].1,
            decreases n - i,
        {
            entries.push((self.entries[i].0.clone(), self.entries[i].1.clone()));
            i += 1;
        }
        let copy = Dict { entries };
        assert(copy@ =~= self@);
        copy
    }
}

} // verus!
