//! The record at run time: one slot per variant, and access by variant value.

use crate::keyed::{Key, KeyModel, KeyedMap};
use crate::layout::{FieldLayout, RecordLayout, SlotKind};
use vstd::prelude::*;

verus! {

/// The field of one variant: a payload, or a map from the variant's value
/// to a payload.
#[derive(Clone, Debug, PartialEq, Eq)]
pub enum Slot<T> {
    Direct(T),
    Keyed(KeyedMap<T>),
}

/// A field as a plain value: its payload, or its map.
pub enum SlotModel<T> {
    Direct(T),
    Keyed(Map<KeyModel, T>),
}

impl<T> View for Slot<T> {
    type V = SlotModel<T>;

    open spec fn view(&self) -> SlotModel<T> {
        match self {
            Slot::Direct(x) => SlotModel::Direct(*x),
            Slot::Keyed(m) => SlotModel::Keyed(m@),
        }
    }
}

/// A value of the enum: the position of its variant, and the value the
/// variant carries, if it carries one.
#[derive(Clone, Debug, PartialEq, Eq)]
pub struct VariantValue {
    pub index: usize,
    pub key: Option<Key>,
}

/// The value of the variant at position `i`, which carries none.
pub open spec fn plain_variant(i: int) -> VariantValue {
    VariantValue { index: i as usize, key: None }
}

pub open spec fn key_model(v: VariantValue) -> Option<KeyModel> {
    match v.key {
        Some(k) => Some(k@),
        None => None,
    }
}

/// The record: its fields, in the order of the variants.
#[derive(Clone, Debug, PartialEq, Eq)]
pub struct VariantsRecord<T> {
    pub slots: Vec<Slot<T>>,
}

pub open spec fn slot_views<T>(s: Seq<Slot<T>>) -> Seq<SlotModel<T>> {
    s.map_values(|x: Slot<T>| x@)
}

impl<T> View for VariantsRecord<T> {
    type V = Seq<SlotModel<T>>;

    open spec fn view(&self) -> Seq<SlotModel<T>> {
        slot_views(self.slots@)
    }
}

/// The enum value `v` fits the record `r`: its variant has a field, which is
/// keyed exactly when the variant carries a value.
pub open spec fn accepts<T>(r: Seq<SlotModel<T>>, v: VariantValue) -> bool {
    &&& v.index < r.len()
    &&& (r[v.index as int] is Direct <==> v.key is None)
}

/// The payload that `r` holds for `v`: the field of a variant without
/// values, or the entry of the carried value in a keyed field.
pub open spec fn lookup<T>(r: Seq<SlotModel<T>>, v: VariantValue) -> Option<T> {
    match r[v.index as int] {
        SlotModel::Direct(x) => Some(x),
        SlotModel::Keyed(m) => match key_model(v) {
            Some(k) => if m.contains_key(k) {
                Some(m[k])
            } else {
                None
            },
            None => None,
        },
    }
}

/// `r` with the payload `x` for `v`.
pub open spec fn store<T>(r: Seq<SlotModel<T>>, v: VariantValue, x: T) -> Seq<SlotModel<T>> {
    r.update(
        v.index as int,
        match r[v.index as int] {
            SlotModel::Direct(_) => SlotModel::Direct(x),
            SlotModel::Keyed(m) => SlotModel::Keyed(m.insert(key_model(v)->Some_0, x)),
        },
    )
}

/// How many of the fields hold one payload directly.
pub open spec fn direct_count(fs: Seq<FieldLayout>) -> nat
    decreases fs.len(),
{
    if fs.len() == 0 {
        0
    } else {
        direct_count(fs.drop_last()) + if fs.last().slot is Direct {
            1nat
        } else {
            0nat
        }
    }
}

/// The fields of a new record: each direct field takes the next argument,
/// each keyed field starts empty.
pub open spec fn initial_slots<T>(fs: Seq<FieldLayout>, args: Seq<T>) -> Seq<SlotModel<T>> {
    Seq::new(
        fs.len(),
        |i: int|
            if fs[i].slot is Direct {
                SlotModel::Direct(args[direct_count(fs.take(i)) as int])
            } else {
                SlotModel::Keyed(Map::empty())
            },
    )
}

proof fn lemma_views_update<T>(s: Seq<Slot<T>>, i: int)
    requires
        0 <= i < s.len(),
    ensures
        forall|x: Slot<T>| #[trigger] slot_views(s.update(i, x)) == slot_views(s).update(i, x@),
{
    assert forall|x: Slot<T>| #[trigger] slot_views(s.update(i, x)) == slot_views(s).update(i, x@) by {
        assert(slot_views(s.update(i, x)) =~= slot_views(s).update(i, x@));
    }
}

impl<T> VariantsRecord<T> {
    /// A record of the given layout: one argument per field of a variant
    /// without values, in order; every keyed field empty.
    pub fn new(layout: &RecordLayout, args: Vec<T>) -> (r: Self)
        requires
            args@.len() == direct_count(layout.fields@),
        ensures
            r@ == initial_slots(layout.fields@, args@),
    {
        let ghost fs = layout.fields@;
        let ghost all = args@;
        let mut rest = args;
        let mut slots: Vec<Slot<T>> = Vec::new();
        let mut i: usize = 0;
        while i < layout.fields.len()
            invariant
                fs == layout.fields@,
                i <= fs.len(),
                all.len() == direct_count(fs),
                rest@ == all.skip(direct_count(fs.take(i as int)) as int),
                slot_views(slots@) == initial_slots(fs.take(i as int), all),
            decreases fs.len() - i,
        {
            proof {
                assert(fs.take(i + 1).drop_last() =~= fs.take(i as int));
                lemma_direct_count_prefix(fs, i + 1);
            }
            let ghost before = slot_views(slots@);
            let ghost dc = direct_count(fs.take(i as int));
            match &layout.fields[i].slot {
                SlotKind::Direct => {
                    assert(rest@.len() > 0);
                    let x = rest.remove(0);
                    assert(x == all[dc as int]);
                    slots.push(Slot::Direct(x));
                    assert(slot_views(slots@) =~= before.push(SlotModel::Direct(all[dc as int])));
                    assert(rest@ =~= all.skip(direct_count(fs.take(i + 1)) as int));
                },
                SlotKind::Keyed(_, _) => {
                    let m = KeyedMap::new();
                    slots.push(Slot::Keyed(m));
                    assert(slot_views(slots@) =~= before.push(SlotModel::Keyed(Map::empty())));
                },
            }
            proof {
                let a = initial_slots(fs.take(i + 1), all);
                let b = initial_slots(fs.take(i as int), all);
                assert forall|j: int| 0 <= j < i implies a[j] == b[j] by {
                    assert(fs.take(i + 1)[j] == fs.take(i as int)[j]);
                    assert(fs.take(i + 1).take(j) =~= fs.take(i as int).take(j));
                }
                assert(fs.take(i + 1).take(i as int) =~= fs.take(i as int));
                assert(fs.take(i + 1)[i as int] == fs[i as int]);
                assert(slot_views(slots@) =~= a);
            }
            i += 1;
        }
        assert(fs.take(i as int) =~= fs);
        VariantsRecord { slots }
    }

    /// The payload for `v`. The variant's value must have an entry.
    pub fn get_unchecked(&self, v: &VariantValue) -> (r: &T)
        requires
            accepts(self@, *v),
            lookup(self@, *v) is Some,
        ensures
            lookup(self@, *v) == Some(*r),
    {
        match &self.slots[v.index] {
            Slot::Direct(x) => x,
            Slot::Keyed(m) => match &v.key {
                Some(k) => match m.get(k) {
                    Some(x) => x,
                    None => unreached(),
                },
                None => unreached(),
            },
        }
    }

    /// The payload for `v`, or none where the variant's value has no entry.
    pub fn get(&self, v: &VariantValue) -> (r: Option<&T>)
        requires
            accepts(self@, *v),
        ensures
            match r {
                Some(x) => lookup(self@, *v) == Some(*x),
                None => lookup(self@, *v) is None,
            },
    {
        match &self.slots[v.index] {
            Slot::Direct(x) => Some(x),
            Slot::Keyed(m) => match &v.key {
                Some(k) => m.get(k),
                None => None,
            },
        }
    }

    /// A mutable reference to the payload for `v`. The variant's value must
    /// have an entry.
    pub fn get_mut_unchecked(&mut self, v: &VariantValue) -> (r: &mut T)
        requires
            accepts(old(self)@, *v),
            lookup(old(self)@, *v) is Some,
        ensures
            lookup(old(self)@, *v) == Some(*r),
            final(self)@ == store(old(self)@, *v, *final(r)),
    {
        proof {
            lemma_views_update(self.slots@, v.index as int);
        }
        match &mut self.slots[v.index] {
            Slot::Direct(x) => x,
            Slot::Keyed(m) => match &v.key {
                Some(k) => match m.get_mut(k) {
                    Some(x) => x,
                    None => unreached(),
                },
                None => unreached(),
            },
        }
    }

    /// A mutable reference to the payload for `v`, or none where the
    /// variant's value has no entry.
    pub fn get_mut(&mut self, v: &VariantValue) -> (r: Option<&mut T>)
        requires
            accepts(old(self)@, *v),
        ensures
            match r {
                Some(x) => lookup(old(self)@, *v) == Some(*x) && final(self)@ == store(
                    old(self)@,
                    *v,
                    *final(x),
                ),
                None => lookup(old(self)@, *v) is None && final(self)@ == old(self)@,
            },
    {
        proof {
            lemma_views_update(self.slots@, v.index as int);
            assert(slot_views(self.slots@).update(v.index as int, self.slots@[v.index as int]@)
                =~= slot_views(self.slots@));
        }
        match &mut self.slots[v.index] {
            Slot::Direct(x) => Some(x),
            Slot::Keyed(m) => match &v.key {
                Some(k) => m.get_mut(k),
                None => unreached(),
            },
        }
    }
}

impl<T: Default> VariantsRecord<T> {
    /// A record of the given layout whose direct fields hold `T::default()`
    /// and whose keyed fields are empty.
    pub fn from_default(layout: &RecordLayout) -> (r: Self)
        ensures
            r@.len() == layout.fields@.len(),
            forall|i: int|
                0 <= i < r@.len() ==> if layout.fields@[i].slot is Direct {
                    #[trigger] r@[i] is Direct
                } else {
                    r@[i] == SlotModel::<T>::Keyed(Map::empty())
                },
    {
        let mut slots: Vec<Slot<T>> = Vec::new();
        let mut i: usize = 0;
        while i < layout.fields.len()
            invariant
                i <= layout.fields@.len(),
                slots@.len() == i,
                forall|j: int|
                    0 <= j < i ==> if layout.fields@[j].slot is Direct {
                        #[trigger] slots@[j]@ is Direct
                    } else {
                        slots@[j]@ == SlotModel::<T>::Keyed(Map::empty())
                    },
            decreases layout.fields@.len() - i,
        {
            match &layout.fields[i].slot {
                SlotKind::Direct => {
                    slots.push(Slot::Direct(T::default()));
                },
                SlotKind::Keyed(_, _) => {
                    slots.push(Slot::Keyed(KeyedMap::new()));
                },
            }
            i += 1;
        }
        VariantsRecord { slots }
    }
}

proof fn lemma_direct_count_prefix(fs: Seq<FieldLayout>, n: int)
    requires
        0 <= n <= fs.len(),
    ensures
        direct_count(fs.take(n)) <= direct_count(fs),
    decreases fs.len(),
{
    if n < fs.len() {
        assert(fs.drop_last().take(n) =~= fs.take(n));
        lemma_direct_count_prefix(fs.drop_last(), n);
    } else {
        assert(fs.take(n) =~= fs);
    }
}

} // verus!
