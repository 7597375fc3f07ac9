//! What holds of every generated record.

use crate::directives::directives_of;
use crate::keyed::KeyModel;
use crate::layout::{
    direct_names, field_names, generates, generation_error, rename_from, variant_error,
    variant_field_name, variants_error, EnumDescription, FieldLayout, RecordLayout,
    VariantDescription, VariantFields,
};
use crate::naming::{safe_ident_of, snake_of};
use crate::record::{
    accepts, direct_count, initial_slots, key_model, lookup, plain_variant, store, SlotModel, VariantValue,
};
use vstd::prelude::*;

verus! {

proof fn lemma_all_direct(fs: Seq<FieldLayout>, n: int)
    requires
        0 <= n <= fs.len(),
        forall|i: int| 0 <= i < fs.len() ==> (#[trigger] fs[i]).slot is Direct,
    ensures
        direct_count(fs.take(n)) == n,
        direct_names(fs.take(n)) == fs.take(n).map_values(|f: FieldLayout| f.name@),
    decreases n,
{
    if n > 0 {
        lemma_all_direct(fs, n - 1);
        assert(fs.take(n).drop_last() =~= fs.take(n - 1));
        assert(fs.take(n).map_values(|f: FieldLayout| f.name@) =~= fs.take(n - 1).map_values(
            |f: FieldLayout| f.name@,
        ).push(fs[n - 1].name@));
    }
}

/// For an enum whose variants carry no values, the constructor takes one
/// argument per variant, named after the variant's field and in declaration
/// order, and the record it builds holds each argument as the payload of the
/// variant at the argument's position.
pub proof fn law_plain_enum_constructor<T>(e: EnumDescription, l: RecordLayout, args: Seq<T>)
    requires
        generates(e, l),
        forall|i: int| 0 <= i < e.variants@.len() ==> (#[trigger] e.variants@[i]).fields is Unit,
        args.len() == e.variants@.len(),
    ensures
        direct_count(l.fields@) == e.variants@.len(),
        direct_names(l.fields@) == l.fields@.map_values(|f: FieldLayout| f.name@),
        forall|i: int|
            0 <= i < args.len() ==> accepts(initial_slots(l.fields@, args), plain_variant(i))
                && lookup(initial_slots(l.fields@, args), plain_variant(i)) == Some(#[trigger] args[i]),
{
    let fs = l.fields@;
    assert(fs.len() == e.variants@.len());
    assert(l.fields.len() == fs.len());
    assert forall|i: int| 0 <= i < fs.len() implies (#[trigger] fs[i]).slot is Direct by {
        assert(e.variants@[i].fields is Unit);
    }
    lemma_all_direct(fs, fs.len() as int);
    assert(fs.take(fs.len() as int) =~= fs);
    assert forall|i: int| 0 <= i < args.len() implies accepts(initial_slots(l.fields@, args), plain_variant(i))
        && lookup(initial_slots(l.fields@, args), plain_variant(i)) == Some(#[trigger] args[i]) by {
        lemma_all_direct(fs, i);
        assert(plain_variant(i).index as int == i);
        assert(fs[i].slot is Direct);
        assert(initial_slots(fs, args)[i] == SlotModel::Direct(args[i]));
    }
}

/// The checked read finds a payload exactly where the unchecked read has
/// one to give, and then the same one: it finds none only for a keyed field
/// without an entry for the variant's value, where the unchecked read is
/// refused. A field of a variant without values always has its payload.
pub proof fn law_checked_read<T>(r: Seq<SlotModel<T>>, v: VariantValue)
    requires
        accepts(r, v),
    ensures
        lookup(r, v) is None <==> match r[v.index as int] {
            SlotModel::Keyed(m) => !m.contains_key(key_model(v)->Some_0),
            SlotModel::Direct(_) => false,
        },
        r[v.index as int] matches SlotModel::Direct(x) ==> lookup(r, v) == Some(x),
        r[v.index as int] matches SlotModel::Keyed(m) ==> (m.contains_key(key_model(v)->Some_0)
            ==> lookup(r, v) == Some(m[key_model(v)->Some_0])),
{
}

/// A payload written for `v` is what a later read for `v` gives, and what
/// the variant's field then holds; the other fields keep theirs.
pub proof fn law_write_then_read<T>(r: Seq<SlotModel<T>>, v: VariantValue, x: T)
    requires
        accepts(r, v),
    ensures
        accepts(store(r, v, x), v),
        lookup(store(r, v, x), v) == Some(x),
        match store(r, v, x)[v.index as int] {
            SlotModel::Direct(y) => y == x,
            SlotModel::Keyed(m) => m.contains_key(key_model(v)->Some_0) && m[key_model(v)->Some_0]
                == x,
        },
        store(r, v, x).len() == r.len(),
        forall|j: int| 0 <= j < r.len() && j != v.index ==> #[trigger] store(r, v, x)[j] == r[j],
{
}

/// Each field is named after its variant: the explicit field name where
/// one is given, else the variant's name in snake case; escaped where the
/// name is a keyword.
pub proof fn law_field_names(e: EnumDescription, l: RecordLayout, i: int)
    requires
        generates(e, l),
        0 <= i < l.fields@.len(),
    ensures
        l.fields@[i].name@ == match rename_from(e.variants@[i].attrs@, 0) {
            Some(n) => safe_ident_of(n),
            None => safe_ident_of(snake_of(e.variants@[i].name@)),
        },
        l.fields@[i].variant@ == e.variants@[i].name@,
{
    assert(field_names(e.variants@)[i] == variant_field_name(e.variants@[i]));
}

proof fn lemma_variant_problem_found(
    vs: Seq<VariantDescription>,
    names: Seq<Seq<char>>,
    j: int,
    k: int,
)
    requires
        0 <= j <= k < vs.len(),
        variant_error(vs[k], k as usize) is Some,
    ensures
        variants_error(vs, names, j) is Some,
    decreases k - j,
{
    if variant_error(vs[j], j as usize) is None && j < k {
        lemma_variant_problem_found(vs, names, j + 1, k);
    }
}

/// An enum with a variant that carries two values or more is refused: no
/// record is generated for it.
pub proof fn law_multi_value_variant_refused(e: EnumDescription, k: int)
    requires
        0 <= k < e.variants@.len(),
        match e.variants@[k].fields {
            VariantFields::Unnamed(ts) => ts@.len() >= 2,
            VariantFields::Named(ns) => ns@.len() >= 2,
            VariantFields::Unit => false,
        },
    ensures
        generation_error(e) is Some,
        forall|l: RecordLayout| !generates(e, l),
{
    lemma_variant_problem_found(e.variants@, field_names(e.variants@), 0, k);
}

/// An enum without variants, whose directives are well formed, yields a
/// unit record: no fields, hence no constructor or accessors, and only the
/// derives of its directives.
pub proof fn law_empty_enum(e: EnumDescription, l: RecordLayout)
    requires
        e.variants@.len() == 0,
        directives_of(e.attrs@) is Ok,
    ensures
        generation_error(e) is None,
        generates(e, l) ==> l.fields@.len() == 0 && l.bounds@.len() == 0 && l.attrs@.len() == 0
            && direct_count(l.fields@) == 0,
{
}

} // verus!
