//! From the description of an enum to the layout of its record.

use crate::directives::{directives_of, read_directives, same_text, AttrArg, AttrDesc, DirectivesModel};
use crate::error::GenError;
use crate::naming::{field_ident, field_ident_for};
use crate::tokens::views;
use vstd::prelude::*;
use vstd::string::StringExecFns;

verus! {

/// The one field of a variant written with braces.
#[derive(Clone, Debug, PartialEq, Eq)]
pub struct NamedField {
    pub name: String,
    pub ty: String,
}

/// The values a variant carries; types are given as their text.
#[derive(Clone, Debug, PartialEq, Eq)]
pub enum VariantFields {
    /// `V`
    Unit,
    /// `V(A, ...)`
    Unnamed(Vec<String>),
    /// `V { a: A, ... }`
    Named(Vec<NamedField>),
}

#[derive(Clone, Debug, PartialEq, Eq)]
pub struct VariantDescription {
    pub name: String,
    pub attrs: Vec<AttrDesc>,
    pub fields: VariantFields,
}

/// An enum: its name, its visibility as written (empty where private), its
/// attributes and its variants in declaration order.
#[derive(Clone, Debug, PartialEq, Eq)]
pub struct EnumDescription {
    pub name: String,
    pub visibility: String,
    pub attrs: Vec<AttrDesc>,
    pub variants: Vec<VariantDescription>,
}

/// How a record field holds its payload.
#[derive(Clone, Debug, PartialEq, Eq)]
pub enum SlotKind {
    /// One payload, for a variant without values.
    Direct,
    /// A map from the variant's value to a payload: the value's type, and
    /// the name of the variant's field where it is written with braces.
    Keyed(String, Option<String>),
}

#[derive(Clone, Debug, PartialEq, Eq)]
pub struct FieldLayout {
    /// The field's identifier, escaped where it is a keyword.
    pub name: String,
    /// The variant it stands for.
    pub variant: String,
    pub slot: SlotKind,
}

/// The record generated for an enum. With no fields it is a unit record
/// with no operations.
#[derive(Clone, Debug, PartialEq, Eq)]
pub struct RecordLayout {
    pub name: String,
    pub enum_name: String,
    pub visibility: String,
    pub fields: Vec<FieldLayout>,
    pub derives: Vec<String>,
    pub bounds: Vec<String>,
    pub attrs: Vec<String>,
}

/// The first field-name attribute from position `k` on whose value is not a
/// string literal.
pub open spec fn field_name_error(attrs: Seq<AttrDesc>, v: usize, k: int) -> Option<GenError>
    decreases attrs.len() - k,
{
    if k < 0 || k >= attrs.len() {
        None
    } else if attrs[k].name@ == "field_name"@ && attrs[k].arg is OtherValue {
        Some(GenError::FieldNameNotString(v, k as usize))
    } else {
        field_name_error(attrs, v, k + 1)
    }
}

/// The value of the first field-name attribute from position `k` on that
/// holds a string literal.
pub open spec fn rename_from(attrs: Seq<AttrDesc>, k: int) -> Option<Seq<char>>
    decreases attrs.len() - k,
{
    if k < 0 || k >= attrs.len() {
        None
    } else if attrs[k].name@ == "field_name"@ && attrs[k].arg is StrValue {
        Some(attrs[k].arg->StrValue_0@)
    } else {
        rename_from(attrs, k + 1)
    }
}

pub open spec fn supported_shape(f: VariantFields) -> bool {
    match f {
        VariantFields::Unit => true,
        VariantFields::Unnamed(ts) => ts@.len() == 1,
        VariantFields::Named(ns) => ns@.len() == 1,
    }
}

/// What is wrong with the variant at position `i` on its own, if anything.
pub open spec fn variant_error(v: VariantDescription, i: usize) -> Option<GenError> {
    match field_name_error(v.attrs@, i, 0) {
        Some(e) => Some(e),
        None => if supported_shape(v.fields) {
            None
        } else {
            Some(GenError::UnsupportedVariant(i))
        },
    }
}

/// The field name that a variant gets.
pub open spec fn variant_field_name(v: VariantDescription) -> Seq<char> {
    field_ident(v.name@, rename_from(v.attrs@, 0))
}

/// The field names of the variants, in order.
pub open spec fn field_names(vs: Seq<VariantDescription>) -> Seq<Seq<char>> {
    vs.map_values(|v: VariantDescription| variant_field_name(v))
}

/// The first problem among the variants from position `k` on, where they
/// get the field names `names`: one of the variant's own, or a field name
/// that an earlier variant has already taken.
pub open spec fn variants_error(vs: Seq<VariantDescription>, names: Seq<Seq<char>>, k: int) -> Option<
    GenError,
>
    decreases vs.len() - k,
{
    if k < 0 || k >= vs.len() {
        None
    } else {
        match variant_error(vs[k], k as usize) {
            Some(e) => Some(e),
            None => if exists|j: int| 0 <= j < k && #[trigger] names[j] == names[k] {
                Some(GenError::DuplicateField(k as usize))
            } else {
                variants_error(vs, names, k + 1)
            },
        }
    }
}

/// Why the enum yields no record where its variants get the field names
/// `names`, if it does not: its directives first, then its variants in
/// order. An enum without variants is never refused for its variants.
pub open spec fn error_with_names(e: EnumDescription, names: Seq<Seq<char>>) -> Option<GenError> {
    match directives_of(e.attrs@) {
        Err(x) => Some(x),
        Ok(_) => if e.variants@.len() == 0 {
            None
        } else {
            variants_error(e.variants@, names, 0)
        },
    }
}

/// Why the enum yields no record, if it does not.
pub open spec fn generation_error(e: EnumDescription) -> Option<GenError> {
    error_with_names(e, field_names(e.variants@))
}

/// The field named `name` that stands for variant `v`.
pub open spec fn field_matches(v: VariantDescription, name: Seq<char>, f: FieldLayout) -> bool {
    &&& f.name@ == name
    &&& f.variant@ == v.name@
    &&& match v.fields {
        VariantFields::Unit => f.slot is Direct,
        VariantFields::Unnamed(ts) => match f.slot {
            SlotKind::Keyed(t, b) => t@ == ts@[0]@ && b is None,
            SlotKind::Direct => false,
        },
        VariantFields::Named(ns) => match f.slot {
            SlotKind::Keyed(t, b) => t@ == ns@[0].ty@ && (b matches Some(n) && n@ == ns@[0].name@),
            SlotKind::Direct => false,
        },
    }
}

/// The record's name: the one the directives give, else the enum's name
/// followed by `Struct`.
pub open spec fn record_name(e: EnumDescription, d: DirectivesModel) -> Seq<char> {
    match d.name {
        Some(n) => n,
        None => e.name@ + "Struct"@,
    }
}

/// `l` is the record of enum `e` under directives `d`, where the variants
/// get the field names `names`: one field per variant in declaration order.
/// A unit record keeps only the derives.
pub open spec fn layout_matches(
    e: EnumDescription,
    d: DirectivesModel,
    names: Seq<Seq<char>>,
    l: RecordLayout,
) -> bool {
    &&& l.name@ == record_name(e, d)
    &&& l.enum_name@ == e.name@
    &&& l.visibility@ == e.visibility@
    &&& views(l.derives@) == d.derives
    &&& if e.variants@.len() == 0 {
        &&& l.fields@.len() == 0
        &&& l.bounds@.len() == 0
        &&& l.attrs@.len() == 0
    } else {
        &&& views(l.bounds@) == d.bounds
        &&& views(l.attrs@) == d.attrs
        &&& l.fields@.len() == e.variants@.len()
        &&& forall|i: int|
            0 <= i < l.fields@.len() ==> field_matches(e.variants@[i], names[i], #[trigger] l.fields@[i])
    }
}

/// `l` is what enum `e` generates where its variants get the field names
/// `names`.
pub open spec fn generates_with_names(e: EnumDescription, names: Seq<Seq<char>>, l: RecordLayout) -> bool {
    match directives_of(e.attrs@) {
        Ok(d) => error_with_names(e, names) is None && layout_matches(e, d, names, l),
        Err(_) => false,
    }
}

/// `l` is what enum `e` generates.
pub open spec fn generates(e: EnumDescription, l: RecordLayout) -> bool {
    generates_with_names(e, field_names(e.variants@), l)
}

/// No two fields of the layout share a name.
pub open spec fn names_distinct(l: RecordLayout) -> bool {
    forall|i: int, j: int|
        0 <= i < j < l.fields@.len() ==> #[trigger] l.fields@[i].name@ != #[trigger] l.fields@[j].name@
}

/// The names of the fields that hold one payload directly, in order: the
/// parameters of the record's constructor.
pub open spec fn direct_names(fs: Seq<FieldLayout>) -> Seq<Seq<char>>
    decreases fs.len(),
{
    if fs.len() == 0 {
        Seq::empty()
    } else if fs.last().slot is Direct {
        direct_names(fs.drop_last()).push(fs.last().name@)
    } else {
        direct_names(fs.drop_last())
    }
}

impl RecordLayout {
    /// The names of the constructor's parameters, in order.
    pub fn constructor_params(&self) -> (r: Vec<String>)
        ensures
            views(r@) == direct_names(self.fields@),
    {
        let mut r: Vec<String> = Vec::new();
        let mut i: usize = 0;
        while i < self.fields.len()
            invariant
                i <= self.fields@.len(),
                views(r@) == direct_names(self.fields@.take(i as int)),
            decreases self.fields@.len() - i,
        {
            assert(self.fields@.take(i + 1).drop_last() =~= self.fields@.take(i as int));
            let f = &self.fields[i];
            if let SlotKind::Direct = f.slot {
                let ghost before = views(r@);
                r.push(f.name.clone());
                assert(views(r@) =~= before.push(f.name@));
            }
            i += 1;
        }
        assert(self.fields@.take(i as int) =~= self.fields@);
        r
    }
}

/// The first string value among a variant's field-name attributes.
fn first_rename(attrs: &Vec<AttrDesc>) -> (r: Option<String>)
    ensures
        rename_from(attrs@, 0) == match r {
            Some(s) => Some(s@),
            None => None::<Seq<char>>,
        },
{
    let mut i: usize = 0;
    while i < attrs.len()
        invariant
            i <= attrs@.len(),
            rename_from(attrs@, 0) == rename_from(attrs@, i as int),
        decreases attrs@.len() - i,
    {
        let a = &attrs[i];
        if same_text(a.name.as_str(), "field_name") {
            if let AttrArg::StrValue(s) = &a.arg {
                return Some(s.clone());
            }
        }
        i += 1;
    }
    None
}

/// The first field-name attribute of variant `v` whose value is not a
/// string literal.
fn check_field_names(attrs: &Vec<AttrDesc>, v: usize) -> (r: Option<GenError>)
    ensures
        r == field_name_error(attrs@, v, 0),
{
    let mut i: usize = 0;
    while i < attrs.len()
        invariant
            i <= attrs@.len(),
            field_name_error(attrs@, v, 0) == field_name_error(attrs@, v, i as int),
        decreases attrs@.len() - i,
    {
        let a = &attrs[i];
        if same_text(a.name.as_str(), "field_name") {
            if let AttrArg::OtherValue(_) = &a.arg {
                return Some(GenError::FieldNameNotString(v, i));
            }
        }
        i += 1;
    }
    None
}

/// Generates the record of an enum whose variants get the field names
/// `names`, in order: its name, the enum's visibility, one field per
/// variant, and what the directives ask. A variant without values gets a
/// direct field; one with a single value, in parentheses or braces, a field
/// keyed by that value. Any other variant, a malformed directive or two
/// variants with one field name refuse the enum, with the first such
/// problem. An enum without variants gets a unit record that keeps only the
/// derives.
pub fn layout_with_names(input: &EnumDescription, names: Vec<String>) -> (r: Result<RecordLayout, GenError>)
    requires
        names@.len() == input.variants@.len(),
    ensures
        match r {
            Ok(l) => generates_with_names(*input, views(names@), l) && names_distinct(l),
            Err(e) => error_with_names(*input, views(names@)) == Some(e),
        },
{
    let d = match read_directives(&input.attrs) {
        Ok(d) => d,
        Err(e) => {
            return Err(e);
        },
    };
    let name = match &d.name {
        Some(n) => n.clone(),
        None => input.name.clone().concat("Struct"),
    };
    if input.variants.len() == 0 {
        let layout = RecordLayout {
            name,
            enum_name: input.name.clone(),
            visibility: input.visibility.clone(),
            fields: Vec::new(),
            derives: d.derives,
            bounds: Vec::new(),
            attrs: Vec::new(),
        };
        return Ok(layout);
    }
    let ghost vs = input.variants@;
    let ghost ns = views(names@);
    let mut fields: Vec<FieldLayout> = Vec::new();
    let mut i: usize = 0;
    while i < input.variants.len()
        invariant
            vs == input.variants@,
            ns == views(names@),
            ns.len() == vs.len(),
            vs.len() > 0,
            directives_of(input.attrs@) == Ok::<DirectivesModel, GenError>(d@),
            name@ == record_name(*input, d@),
            i <= vs.len(),
            fields@.len() == i,
            variants_error(vs, ns, 0) == variants_error(vs, ns, i as int),
            forall|j: int| 0 <= j < i ==> field_matches(vs[j], ns[j], #[trigger] fields@[j]),
            forall|j: int, k: int|
                0 <= j < k < i ==> #[trigger] fields@[j].name@ != #[trigger] fields@[k].name@,
        decreases vs.len() - i,
    {
        let v = &input.variants[i];
        if let Some(e) = check_field_names(&v.attrs, i) {
            assert(variant_error(vs[i as int], i) == Some(e));
            return Err(e);
        }
        let slot = match &v.fields {
            VariantFields::Unit => SlotKind::Direct,
            VariantFields::Unnamed(ts) => {
                if ts.len() != 1 {
                    assert(variant_error(vs[i as int], i) == Some(GenError::UnsupportedVariant(i)));
                    return Err(GenError::UnsupportedVariant(i));
                }
                SlotKind::Keyed(ts[0].clone(), None)
            },
            VariantFields::Named(ns) => {
                if ns.len() != 1 {
                    assert(variant_error(vs[i as int], i) == Some(GenError::UnsupportedVariant(i)));
                    return Err(GenError::UnsupportedVariant(i));
                }
                SlotKind::Keyed(ns[0].ty.clone(), Some(ns[0].name.clone()))
            },
        };
        assert(variant_error(vs[i as int], i) is None);
        let field_name = names[i].clone();
        assert(field_name@ == ns[i as int]);
        let mut j: usize = 0;
        while j < fields.len()
            invariant
                vs == input.variants@,
                ns == views(names@),
                ns.len() == vs.len(),
                i < vs.len(),
                fields@.len() == i,
                field_name@ == ns[i as int],
                vs.len() > 0,
                directives_of(input.attrs@) == Ok::<DirectivesModel, GenError>(d@),
                variants_error(vs, ns, 0) == variants_error(vs, ns, i as int),
                variant_error(vs[i as int], i) is None,
                j <= fields@.len(),
                forall|m: int| 0 <= m < i ==> field_matches(vs[m], ns[m], #[trigger] fields@[m]),
                forall|m: int| 0 <= m < j ==> #[trigger] fields@[m].name@ != field_name@,
            decreases fields@.len() - j,
        {
            if fields[j].name == field_name {
                assert(field_matches(vs[j as int], ns[j as int], fields@[j as int]));
                assert(ns[j as int] == ns[i as int]);
                return Err(GenError::DuplicateField(i));
            }
            j += 1;
        }
        proof {
            assert forall|m: int| 0 <= m < i implies #[trigger] ns[m] != ns[i as int] by {
                assert(field_matches(vs[m], ns[m], fields@[m]));
            }
        }
        fields.push(FieldLayout { name: field_name, variant: v.name.clone(), slot });
        i += 1;
    }
    let layout = RecordLayout {
        name,
        enum_name: input.name.clone(),
        visibility: input.visibility.clone(),
        fields,
        derives: d.derives,
        bounds: d.bounds,
        attrs: d.attrs,
    };
    Ok(layout)
}

/// Generates the record of an enum: as `layout_with_names`, where each
/// variant's field name is its explicit field name, else its name in snake
/// case, escaped where it is a keyword.
pub fn variants_struct(input: &EnumDescription) -> (r: Result<RecordLayout, GenError>)
    ensures
        match r {
            Ok(l) => generates(*input, l) && names_distinct(l),
            Err(e) => generation_error(*input) == Some(e),
        },
{
    let ghost all = field_names(input.variants@);
    let mut names: Vec<String> = Vec::new();
    let mut i: usize = 0;
    while i < input.variants.len()
        invariant
            i <= input.variants@.len(),
            all == field_names(input.variants@),
            views(names@) == all.take(i as int),
        decreases input.variants@.len() - i,
    {
        let v = &input.variants[i];
        let n = match first_rename(&v.attrs) {
            Some(n) => field_ident_for(v.name.as_str(), Some(n.as_str())),
            None => field_ident_for(v.name.as_str(), None),
        };
        let ghost before = views(names@);
        names.push(n);
        assert(views(names@) =~= before.push(n@));
        assert(all[i as int] == variant_field_name(input.variants@[i as int]));
        assert(views(names@) =~= all.take(i + 1));
        i += 1;
    }
    assert(all.take(i as int) =~= all);
    layout_with_names(input, names)
}

} // verus!
