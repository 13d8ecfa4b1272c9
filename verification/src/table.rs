use vstd::prelude::*;

use crate::ids::InfoHash;

verus! {

/// A map keyed by info hash. The keys keep the order in which they came in.
#[derive(Debug)]
pub struct InfoHashMap<V> {
    entries: Vec<(InfoHash, V)>,
}

impl<V> View for InfoHashMap<V> {
    type V = Map<InfoHash, V>;

    closed spec fn view(&self) -> Map<InfoHash, V> {
        contents(self.entries@)
    }
}

/// The keys of a list of entries.
spec fn entry_keys<V>(entries: Seq<(InfoHash, V)>) -> Seq<InfoHash> {
    Seq::new(entries.len(), |i: int| entries[i].0)
}

/// The map that a list of entries stands for: the first entry of a key counts.
spec fn contents<V>(entries: Seq<(InfoHash, V)>) -> Map<InfoHash, V> {
    Map::new(
        |key: InfoHash| entry_keys(entries).contains(key),
        |key: InfoHash| entries[first_position(entry_keys(entries), key)].1,
    )
}

/// Another value in the first place of a key is another value under that key.
proof fn lemma_contents_update<V>(
    entries: Seq<(InfoHash, V)>,
    position: int,
    key: InfoHash,
    value: V,
)
    requires
        0 <= position < entries.len(),
        entries[position].0 == key,
        position == first_position(entry_keys(entries), key),
    ensures
        contents(entries.update(position, (key, value))) == contents(entries).insert(key, value),
        entry_keys(entries.update(position, (key, value))) == entry_keys(entries),
{
    let after = entries.update(position, (key, value));
    let keys = entry_keys(entries);
    assert(entry_keys(after) =~= keys);
    assert(keys[position] == key);
    assert forall|other: InfoHash| keys.contains(other) implies 0 <= first_position(keys, other)
        < entries.len() && (other != key ==> first_position(keys, other) != position) by {
        lemma_first_position(keys, other);
    }
    assert(contents(after) =~= contents(entries).insert(key, value));
}

/// The first place of `key` in `keys`, or the length where it is missing.
spec fn first_position(keys: Seq<InfoHash>, key: InfoHash) -> int
    decreases keys.len(),
{
    if keys.len() == 0 || keys[0] == key {
        0
    } else {
        1 + first_position(keys.drop_first(), key)
    }
}

proof fn lemma_first_position(keys: Seq<InfoHash>, key: InfoHash)
    ensures
        0 <= first_position(keys, key) <= keys.len(),
        first_position(keys, key) < keys.len() <==> keys.contains(key),
        keys.contains(key) ==> keys[first_position(keys, key)] == key,
        forall|j: int| 0 <= j < first_position(keys, key) ==> keys[j] != key,
    decreases keys.len(),
{
    if keys.len() > 0 && keys[0] != key {
        let rest = keys.drop_first();
        lemma_first_position(rest, key);
        assert forall|j: int| 0 <= j < first_position(keys, key) implies keys[j] != key by {
            if j > 0 {
                assert(keys[j] == rest[j - 1]);
            }
        }
        if keys.contains(key) {
            let j = choose|j: int| 0 <= j < keys.len() && keys[j] == key;
            assert(rest[j - 1] == key);
        }
        if rest.contains(key) {
            assert(keys[first_position(keys, key)] == key);
        }
    } else if keys.len() > 0 {
        assert(keys[0] == key);
    }
}

/// A place that holds `key` and has no earlier one before it is the first place of `key`.
proof fn lemma_first_position_is(keys: Seq<InfoHash>, key: InfoHash, position: int)
    requires
        0 <= position < keys.len(),
        keys[position] == key,
        forall|j: int| 0 <= j < position ==> keys[j] != key,
    ensures
        first_position(keys, key) == position,
{
    lemma_first_position(keys, key);
    assert(keys.contains(key));
}

impl<V> InfoHashMap<V> {
    /// The keys, oldest first.
    pub closed spec fn keys(&self) -> Seq<InfoHash> {
        entry_keys(self.entries@)
    }

    /// No key occurs twice.
    pub open spec fn wf(&self) -> bool {
        self.keys().no_duplicates()
    }

    /// The keys are the map's domain, each once.
    pub proof fn lemma_domain(&self)
        ensures
            self@.dom() == self.keys().to_set(),
            self@.dom().finite(),
            self.wf() ==> self@.len() == self.keys().len(),
            forall|key: InfoHash|
                #![trigger self@.contains_key(key)]
                self@.contains_key(key) <==> self.keys().contains(key),
    {
        assert(self@.dom() =~= self.keys().to_set());
        if self.wf() {
            self.keys().unique_seq_to_set();
        }
    }

    /// A map without entries.
    pub fn new() -> (map: Self)
        ensures
            map@ == Map::<InfoHash, V>::empty(),
            map.keys() == Seq::<InfoHash>::empty(),
            map.wf(),
    {
        let map = InfoHashMap { entries: Vec::new() };
        assert(map.keys() =~= Seq::<InfoHash>::empty());
        assert(map@ =~= Map::<InfoHash, V>::empty());
        map
    }

    /// The number of keys.
    pub fn len(&self) -> (len: usize)
        ensures
            len == self.keys().len(),
            self.wf() ==> len == self@.len(),
    {
        proof {
            self.lemma_domain();
        }
        self.entries.len()
    }

    /// Whether there are no keys.
    pub fn is_empty(&self) -> (empty: bool)
        ensures
            empty == (self.keys().len() == 0),
            empty == (self@ == Map::<InfoHash, V>::empty()),
    {
        proof {
            self.lemma_domain();
            if self.keys().len() == 0 {
                assert(self@ =~= Map::<InfoHash, V>::empty());
            } else {
                assert(self.keys().contains(self.keys()[0]));
                assert(self@.contains_key(self.keys()[0]));
            }
        }
        self.entries.len() == 0
    }

    /// The first place of `key` among the keys.
    fn position(&self, key: &InfoHash) -> (position: Option<usize>)
        ensures
            position.is_some() <==> self.keys().contains(*key),
            position.is_some() ==> position.unwrap() < self.entries@.len()
                && self.keys()[position.unwrap() as int] == *key
                && position.unwrap() == first_position(self.keys(), *key),
    {
        let mut i: usize = 0;
        while i < self.entries.len()
            invariant
                0 <= i <= self.entries@.len(),
                forall|j: int| 0 <= j < i ==> self.keys()[j] != *key,
            decreases self.entries@.len() - i,
        {
            if self.entries[i].0 == *key {
                proof {
                    assert(self.keys()[i as int] == *key);
                    lemma_first_position_is(self.keys(), *key, i as int);
                }
                return Some(i);
            }
            i = i + 1;
        }
        None
    }

    /// Whether the map holds `key`.
    pub fn contains_key(&self, key: &InfoHash) -> (found: bool)
        ensures
            found == self@.contains_key(*key),
    {
        self.position(key).is_some()
    }

    /// The value under `key`.
    pub fn get(&self, key: &InfoHash) -> (value: Option<&V>)
        ensures
            value.is_some() <==> self@.contains_key(*key),
            value.is_some() ==> *value.unwrap() == self@[*key],
    {
        match self.position(key) {
            Some(i) => Some(&self.entries[i].1),
            None => None,
        }
    }

    /// The value under `key`, to be changed in place.
    pub fn get_mut(&mut self, key: &InfoHash) -> (value: Option<&mut V>)
        ensures
            value.is_some() <==> old(self)@.contains_key(*key),
            match value {
                Some(value) => {
                    &&& *value == old(self)@[*key]
                    &&& final(self)@ == old(self)@.insert(*key, *final(value))
                },
                None => final(self)@ == old(self)@,
            },
            final(self).keys() == old(self).keys(),
    {
        match self.position(key) {
            Some(i) => {
                proof {
                    assert forall|value: V|
                        #![trigger old(self).entries@.update(i as int, (*key, value))]
                        contents(old(self).entries@.update(i as int, (*key, value))) == old(
                            self,
                        )@.insert(*key, value) && entry_keys(
                            old(self).entries@.update(i as int, (*key, value)),
                        ) == old(self).keys() by {
                        lemma_contents_update(old(self).entries@, i as int, *key, value);
                    }
                }
                let entry = &mut self.entries[i];
                Some(&mut entry.1)
            },
            None => None,
        }
    }

    /// The key at `index`, counted from the oldest.
    pub fn key_at(&self, index: usize) -> (key: InfoHash)
        requires
            index < self.keys().len(),
        ensures
            key == self.keys()[index as int],
            self@.contains_key(key),
    {
        proof {
            self.lemma_domain();
            assert(self.keys().contains(self.keys()[index as int]));
        }
        self.entries[index].0
    }

    /// The value at `index`, counted from the oldest.
    pub fn value_at(&self, index: usize) -> (value: &V)
        requires
            self.wf(),
            index < self.keys().len(),
        ensures
            self@.contains_key(self.keys()[index as int]),
            *value == self@[self.keys()[index as int]],
    {
        proof {
            let key = self.keys()[index as int];
            assert(self.keys().contains(key));
            lemma_first_position_is(self.keys(), key, index as int);
        }
        &self.entries[index].1
    }

    /// Puts `value` under `key` and hands back the value that was there.
    pub fn insert(&mut self, key: InfoHash, value: V) -> (previous: Option<V>)
        ensures
            final(self)@ == old(self)@.insert(key, value),
            previous.is_some() <==> old(self)@.contains_key(key),
            previous.is_some() ==> previous.unwrap() == old(self)@[key],
            final(self).keys() == keys_after_insert(old(self).keys(), key),
            old(self).wf() ==> final(self).wf(),
    {
        let found = self.position(&key);
        match found {
            Some(i) => {
                let mut entry = (key, value);
                core::mem::swap(&mut self.entries[i], &mut entry);
                proof {
                    lemma_contents_update(old(self).entries@, i as int, key, value);
                }
                Some(entry.1)
            },
            None => {
                self.entries.push((key, value));
                proof {
                    let before = old(self).keys();
                    assert(self.keys() =~= before.push(key));
                    lemma_first_position_is(self.keys(), key, before.len() as int);
                    assert forall|other: InfoHash| before.contains(other) implies first_position(
                        self.keys(),
                        other,
                    ) == first_position(before, other) && first_position(before, other)
                        < before.len() by {
                        lemma_first_position(before, other);
                        lemma_first_position_is(
                            self.keys(),
                            other,
                            first_position(before, other),
                        );
                    }
                    assert forall|other: InfoHash|
                        self.keys().contains(other) <==> before.contains(other) || other
                            == key by {
                        if before.contains(other) {
                            assert(self.keys()[before.index_of(other)] == other);
                        }
                        if other == key {
                            assert(self.keys()[before.len() as int] == other);
                        }
                    }
                    assert forall|other: InfoHash| before.contains(other) implies self@[other]
                        == old(self)@[other] by {
                        lemma_first_position(before, other);
                    }
                    assert(self@[key] == value);
                    assert(self@.dom() =~= old(self)@.insert(key, value).dom());
                    assert(self@ =~= old(self)@.insert(key, value));
                }
                None
            },
        }
    }

    /// Takes `key` out and hands back its value.
    pub fn remove(&mut self, key: &InfoHash) -> (value: Option<V>)
        requires
            old(self).wf(),
        ensures
            final(self)@ == old(self)@.remove(*key),
            value.is_some() <==> old(self)@.contains_key(*key),
            value.is_some() ==> value.unwrap() == old(self)@[*key],
            final(self).keys() == keys_after_remove(old(self).keys(), *key),
            final(self).wf(),
    {
        match self.position(key) {
            Some(i) => {
                let entry = self.entries.remove(i);
                proof {
                    let before = old(self).keys();
                    assert(before.index_of(*key) == i);
                    assert(self.keys() =~= before.remove(i as int));
                    assert forall|other: InfoHash|
                        self.keys().contains(other) <==> before.contains(other) && other
                            != key by {
                        if self.keys().contains(other) {
                            let j = self.keys().index_of(other);
                            assert(before[if j < i { j } else { j + 1 }] == other);
                        }
                        if before.contains(other) && other != key {
                            let j = before.index_of(other);
                            assert(self.keys()[if j < i { j } else { j - 1 }] == other);
                        }
                    }
                    assert forall|other: InfoHash| self.keys().contains(other) implies self@[other]
                        == old(self)@[other] by {
                        lemma_first_position(before, other);
                        lemma_first_position(self.keys(), other);
                        let j = first_position(self.keys(), other);
                        let k = if j < i { j } else { j + 1 };
                        lemma_first_position_is(before, other, k);
                    }
                    assert(self@ =~= old(self)@.remove(*key));
                }
                Some(entry.1)
            },
            None => {
                assert(self@ =~= old(self)@.remove(*key));
                None
            },
        }
    }

    /// Takes every entry out.
    pub fn clear(&mut self)
        ensures
            final(self)@ == Map::<InfoHash, V>::empty(),
            final(self).keys() == Seq::<InfoHash>::empty(),
            final(self).wf(),
    {
        self.entries.clear();
        assert(self.keys() =~= Seq::<InfoHash>::empty());
        assert(self@ =~= Map::<InfoHash, V>::empty());
    }
}

/// The keys once `key` has been put in: a new key comes last.
pub open spec fn keys_after_insert(keys: Seq<InfoHash>, key: InfoHash) -> Seq<InfoHash> {
    if keys.contains(key) {
        keys
    } else {
        keys.push(key)
    }
}

/// The keys once `key` has been taken out.
pub open spec fn keys_after_remove(keys: Seq<InfoHash>, key: InfoHash) -> Seq<InfoHash> {
    if keys.contains(key) {
        keys.remove(keys.index_of(key))
    } else {
        keys
    }
}

} // verus!
