//! The map that backs the field of a variant carrying a value.

use vstd::prelude::*;

verus! {

/// The value a variant carries, used as a key.
#[derive(Debug, PartialEq, Eq)]
pub enum Key {
    Int(i128),
    Text(String),
}

impl Clone for Key {
    fn clone(&self) -> (r: Self)
        ensures
            r == *self,
    {
        match self {
            Key::Int(n) => Key::Int(*n),
            Key::Text(s) => Key::Text(s.clone()),
        }
    }
}

/// A key as a plain value.
pub enum KeyModel {
    Int(i128),
    Text(Seq<char>),
}

impl View for Key {
    type V = KeyModel;

    open spec fn view(&self) -> KeyModel {
        match self {
            Key::Int(n) => KeyModel::Int(*n),
            Key::Text(s) => KeyModel::Text(s@),
        }
    }
}

/// Whether two keys are the same value.
pub fn same_key(a: &Key, b: &Key) -> (r: bool)
    ensures
        r == (a@ == b@),
{
    match (a, b) {
        (Key::Int(x), Key::Int(y)) => *x == *y,
        (Key::Text(x), Key::Text(y)) => *x == *y,
        _ => false,
    }
}

pub open spec fn key_views(ks: Seq<Key>) -> Seq<KeyModel> {
    ks.map_values(|k: Key| k@)
}

/// A map from keys to payloads: its entries, each key at most once.
#[derive(Debug, PartialEq, Eq)]
pub struct KeyedMap<T> {
    keys: Vec<Key>,
    values: Vec<T>,
}

pub open spec fn keys_distinct(ks: Seq<KeyModel>) -> bool {
    forall|i: int, j: int| 0 <= i < j < ks.len() ==> ks[i] != ks[j]
}

/// The position of key `k` among `ks`.
pub open spec fn position_of(ks: Seq<KeyModel>, k: KeyModel) -> int {
    choose|i: int| 0 <= i < ks.len() && ks[i] == k
}

/// The map whose entries pair each key with the payload at its position.
pub closed spec fn map_of<T>(keys: Seq<Key>, values: Seq<T>) -> Map<KeyModel, T> {
    Map::new(
        |k: KeyModel| key_views(keys).contains(k),
        |k: KeyModel| values[position_of(key_views(keys), k)],
    )
}

/// Changing the payload at one position changes the entry of that key alone.
proof fn lemma_map_update<T>(keys: Seq<Key>, values: Seq<T>, i: int)
    requires
        keys_distinct(key_views(keys)),
        keys.len() == values.len(),
        0 <= i < keys.len(),
    ensures
        forall|y: T|
            #[trigger] map_of(keys, values.update(i, y)) == map_of(keys, values).insert(keys[i]@, y),
{
    let ks = key_views(keys);
    assert forall|y: T| #[trigger] map_of(keys, values.update(i, y)) == map_of(keys, values).insert(keys[i]@, y) by {
        let m = map_of(keys, values.update(i, y));
        let n = map_of(keys, values).insert(keys[i]@, y);
        assert(ks[i] == keys[i]@);
        assert forall|k: KeyModel| #[trigger] m.contains_key(k) implies m[k] == n[k] by {
            let p = position_of(ks, k);
            assert(0 <= p < ks.len() && ks[p] == k);
            if p != i {
                assert(ks[p] != ks[i]);
            } else {
                assert(ks[position_of(ks, ks[i])] == ks[i]);
            }
        }
        assert(m =~= n);
    }
}

impl<T> View for KeyedMap<T> {
    type V = Map<KeyModel, T>;

    closed spec fn view(&self) -> Map<KeyModel, T> {
        map_of(self.keys@, self.values@)
    }
}

impl<T> KeyedMap<T> {
    #[verifier::type_invariant]
    spec fn inv(&self) -> bool {
        &&& self.keys@.len() == self.values@.len()
        &&& keys_distinct(key_views(self.keys@))
    }

    proof fn lemma_at(&self, i: int)
        requires
            self.inv(),
            0 <= i < self.keys@.len(),
        ensures
            self@.contains_key(self.keys@[i]@),
            self@[self.keys@[i]@] == self.values@[i],
    {
        let ks = key_views(self.keys@);
        assert(ks[i] == self.keys@[i]@);
        let p = position_of(ks, ks[i]);
        assert(ks[p] == ks[i]);
    }

    proof fn lemma_position(ks: Seq<KeyModel>, i: int)
        requires
            keys_distinct(ks),
            0 <= i < ks.len(),
        ensures
            position_of(ks, ks[i]) == i,
    {
        let p = position_of(ks, ks[i]);
        assert(0 <= p < ks.len() && ks[p] == ks[i]);
    }

    /// An empty map.
    pub fn new() -> (m: Self)
        ensures
            m@ == Map::<KeyModel, T>::empty(),
    {
        let m = KeyedMap { keys: Vec::new(), values: Vec::new() };
        assert(m@ =~= Map::<KeyModel, T>::empty());
        m
    }

    /// The position of `key` among the entries, if it is there.
    fn find(&self, key: &Key) -> (r: Option<usize>)
        ensures
            match r {
                Some(i) => i < self.keys@.len() && self.keys@[i as int]@ == key@,
                None => !self@.contains_key(key@),
            },
    {
        let mut i: usize = 0;
        while i < self.keys.len()
            invariant
                i <= self.keys@.len(),
                forall|j: int| 0 <= j < i ==> self.keys@[j]@ != key@,
            decreases self.keys@.len() - i,
        {
            if same_key(&self.keys[i], key) {
                return Some(i);
            }
            i += 1;
        }
        proof {
            if key_views(self.keys@).contains(key@) {
                let j = choose|j: int| 0 <= j < key_views(self.keys@).len() && key_views(self.keys@)[j] == key@;
                assert(self.keys@[j]@ == key@);
            }
        }
        None
    }

    /// Whether `key` has an entry.
    pub fn contains_key(&self, key: &Key) -> (r: bool)
        ensures
            r == self@.contains_key(key@),
    {
        match self.find(key) {
            Some(i) => {
                proof {
                    use_type_invariant(self);
                    self.lemma_at(i as int);
                }
                true
            },
            None => false,
        }
    }

    /// A mutable reference to the payload of `key`, if it has an entry.
    pub fn get_mut(&mut self, key: &Key) -> (r: Option<&mut T>)
        ensures
            match r {
                Some(x) => old(self)@.contains_key(key@) && *x == old(self)@[key@] && final(self)@
                    == old(self)@.insert(key@, *final(x)),
                None => !old(self)@.contains_key(key@) && final(self)@ == old(self)@,
            },
    {
        proof {
            use_type_invariant(&*self);
        }
        let ghost ks = key_views(self.keys@);
        let ghost old_map = self@;
        match self.find(key) {
            Some(i) => {
                proof {
                    self.lemma_at(i as int);
                    Self::lemma_position(ks, i as int);
                }
                proof {
                    lemma_map_update(self.keys@, self.values@, i as int);
                }
                let x = &mut self.values[i];
                Some(x)
            },
            None => None,
        }
    }

    /// Gives `key` the payload `value`; returns the payload it had, if any.
    pub fn insert(&mut self, key: Key, value: T) -> (r: Option<T>)
        ensures
            final(self)@ == old(self)@.insert(key@, value),
            r == (if old(self)@.contains_key(key@) {
                Some(old(self)@[key@])
            } else {
                None
            }),
    {
        proof {
            use_type_invariant(&*self);
        }
        let ghost ks = key_views(self.keys@);
        let ghost old_map = self@;
        match self.find(&key) {
            Some(i) => {
                proof {
                    self.lemma_at(i as int);
                    Self::lemma_position(ks, i as int);
                }
                let mut v = value;
                let ghost vals = self.values@;
                core::mem::swap(&mut self.values[i], &mut v);
                proof {
                    assert(key_views(self.keys@) == ks);
                    assert forall|k: KeyModel| #[trigger] self@.contains_key(k) implies self@[k]
                        == old_map.insert(key@, value)[k] by {
                        let p = position_of(ks, k);
                        Self::lemma_position(ks, p);
                    }
                    assert(self@ =~= old_map.insert(key@, value));
                }
                Some(v)
            },
            None => {
                let ghost kv = key@;
                let mut taken = KeyedMap::new();
                core::mem::swap(self, &mut taken);
                let KeyedMap { mut keys, mut values } = taken;
                keys.push(key);
                values.push(value);
                proof {
                    assert(keys_distinct(key_views(keys@))) by {
                        let ks2 = key_views(keys@);
                        assert(ks2 =~= ks.push(kv));
                        assert forall|i: int, j: int| 0 <= i < j < ks2.len() implies ks2[i] != ks2[j] by {
                            if j == ks.len() {
                                assert(ks[i] == ks2[i]);
                            }
                        }
                    }
                }
                *self = KeyedMap { keys, values };
                proof {
                    let ks2 = key_views(self.keys@);
                    assert(ks2 =~= ks.push(kv));
                    assert(!ks.contains(kv));
                    assert(keys_distinct(ks2)) by {
                        assert forall|i: int, j: int| 0 <= i < j < ks2.len() implies ks2[i] != ks2[j] by {
                            if j == ks.len() {
                                assert(ks[i] == ks2[i]);
                            }
                        }
                    }
                    Self::lemma_position(ks2, ks.len() as int);
                    assert forall|k: KeyModel| #[trigger] self@.contains_key(k) implies self@[k]
                        == old_map.insert(kv, value)[k] by {
                        if k != kv {
                            let p = choose|p: int| 0 <= p < ks2.len() && ks2[p] == k;
                            assert(p < ks.len());
                            assert(ks[p] == k);
                            Self::lemma_position(ks, p);
                            Self::lemma_position(ks2, p);
                        }
                    }
                    assert forall|k: KeyModel| #[trigger] old_map.insert(kv, value).contains_key(k) implies self@.contains_key(k) by {
                        if k != kv {
                            let p = choose|p: int| 0 <= p < ks.len() && ks[p] == k;
                            assert(ks2[p] == k);
                        } else {
                            assert(ks2[ks.len() as int] == kv);
                        }
                    }
                    assert(self@ =~= old_map.insert(kv, value));
                }
                None
            },
        }
    }

    /// The payload of `key`, if it has an entry.
    pub fn get(&self, key: &Key) -> (r: Option<&T>)
        ensures
            match r {
                Some(x) => self@.contains_key(key@) && *x == self@[key@],
                None => !self@.contains_key(key@),
            },
    {
        proof {
            use_type_invariant(self);
        }
        match self.find(key) {
            Some(i) => {
                proof {
                    self.lemma_at(i as int);
                }
                Some(&self.values[i])
            },
            None => None,
        }
    }
}

impl<T: Clone> Clone for KeyedMap<T> {
    /// The same keys, each with a clone of its payload.
    fn clone(&self) -> (r: Self)
        ensures
            r@.dom() == self@.dom(),
            forall|k: KeyModel| #[trigger] r@.contains_key(k) ==> cloned::<T>(self@[k], r@[k]),
    {
        proof {
            use_type_invariant(self);
        }
        let mut keys: Vec<Key> = Vec::new();
        let mut values: Vec<T> = Vec::new();
        let mut i: usize = 0;
        while i < self.keys.len()
            invariant
                self.inv(),
                i <= self.keys@.len(),
                keys@ == self.keys@.take(i as int),
                values@.len() == i,
                forall|j: int| 0 <= j < i ==> cloned::<T>(self.values@[j], #[trigger] values@[j]),
            decreases self.keys@.len() - i,
        {
            keys.push(self.keys[i].clone());
            values.push(self.values[i].clone());
            assert(keys@ =~= self.keys@.take(i + 1));
            i += 1;
        }
        assert(keys@ =~= self.keys@);
        let r = KeyedMap { keys, values };
        proof {
            assert(key_views(r.keys@) == key_views(self.keys@));
            assert(r@.dom() =~= self@.dom());
            assert forall|k: KeyModel| #[trigger] r@.contains_key(k) implies cloned::<T>(self@[k], r@[k]) by {
                let p = position_of(key_views(self.keys@), k);
                assert(r@[k] == r.values@[p]);
                assert(self@[k] == self.values@[p]);
            }
        }
        r
    }
}

} // verus!
