//! Writing the record out as Rust source: its declaration, constructor,
//! accessors and indexing.

use crate::layout::{direct_names, FieldLayout, RecordLayout, SlotKind};
use crate::tokens::views;
use vstd::prelude::*;
use vstd::string::StringExecFns;

verus! {

/// The items, with `sep` between each two.
pub open spec fn join(items: Seq<Seq<char>>, sep: Seq<char>) -> Seq<char>
    decreases items.len(),
{
    if items.len() == 0 {
        Seq::empty()
    } else if items.len() == 1 {
        items[0]
    } else {
        join(items.drop_last(), sep) + sep + items.last()
    }
}

/// Joins the strings with `sep` between each two.
pub fn join_texts(items: &Vec<String>, sep: &str) -> (r: String)
    ensures
        r@ == join(views(items@), sep@),
{
    let mut out = String::new();
    let mut i: usize = 0;
    while i < items.len()
        invariant
            i <= items@.len(),
            out@ == join(views(items@).take(i as int), sep@),
        decreases items@.len() - i,
    {
        let ghost before = out@;
        assert(views(items@).take(i + 1).drop_last() =~= views(items@).take(i as int));
        if i > 0 {
            out.append(sep);
        }
        out.append(items[i].as_str());
        proof {
            if i == 0 {
                assert(before =~= Seq::<char>::empty());
                assert(out@ =~= views(items@).take(1)[0]);
            }
        }
        i += 1;
    }
    assert(views(items@).take(i as int) =~= views(items@));
    out
}

/// How an accessor reaches a payload: by reference or mutable reference,
/// failing on a missing key or answering none.
#[derive(Clone, Copy, Debug, PartialEq, Eq, Structural)]
pub enum Access {
    Ref,
    Mut,
    CheckedRef,
    CheckedMut,
}

/// The piece of the record's text that one field contributes to a list.
#[derive(Clone, Copy, Debug, PartialEq, Eq, Structural)]
pub enum Piece {
    /// Its declaration in the record.
    Decl,
    /// Its initialisation in the constructor.
    Init,
    /// Its arm in an accessor's match.
    Arm(Access),
}

/// The pattern that matches the field's variant, binding a carried value.
pub open spec fn arm_pattern(e: Seq<char>, f: FieldLayout) -> Seq<char> {
    match f.slot {
        SlotKind::Direct => "&"@ + e + "::"@ + f.variant@,
        SlotKind::Keyed(_, None) => "&"@ + e + "::"@ + f.variant@ + "(key)"@,
        SlotKind::Keyed(_, Some(b)) => "&"@ + e + "::"@ + f.variant@ + " { "@ + b@ + " }"@,
    }
}

/// The name the pattern binds the carried value to.
pub open spec fn key_name(f: FieldLayout) -> Seq<char> {
    match f.slot {
        SlotKind::Keyed(_, Some(b)) => b@,
        _ => "key"@,
    }
}

pub open spec fn missing_key() -> Seq<char> {
    ".expect(\"tuple variant key not found in hashmap\")"@
}

pub open spec fn arm_body(f: FieldLayout, a: Access) -> Seq<char> {
    match f.slot {
        SlotKind::Direct => match a {
            Access::Ref => " => &self."@ + f.name@,
            Access::Mut => " => &mut self."@ + f.name@,
            Access::CheckedRef => " => Some(&self."@ + f.name@ + ")"@,
            Access::CheckedMut => " => Some(&mut self."@ + f.name@ + ")"@,
        },
        SlotKind::Keyed(_, _) => match a {
            Access::Ref => " => self."@ + f.name@ + ".get(&"@ + key_name(f) + ")"@ + missing_key(),
            Access::Mut => " => self."@ + f.name@ + ".get_mut(&"@ + key_name(f) + ")"@ + missing_key(),
            Access::CheckedRef => " => self."@ + f.name@ + ".get(&"@ + key_name(f) + ")"@,
            Access::CheckedMut => " => self."@ + f.name@ + ".get_mut(&"@ + key_name(f) + ")"@,
        },
    }
}

/// The text that field `f` of a record for enum `e` contributes.
pub open spec fn piece_text(e: Seq<char>, f: FieldLayout, k: Piece) -> Seq<char> {
    match k {
        Piece::Decl => match f.slot {
            SlotKind::Direct => "pub "@ + f.name@ + ": T"@,
            SlotKind::Keyed(ty, _) => "pub "@ + f.name@ + ": std::collections::HashMap<"@ + ty@
                + ", T>"@,
        },
        Piece::Init => match f.slot {
            SlotKind::Direct => f.name@,
            SlotKind::Keyed(_, _) => f.name@ + ": std::collections::HashMap::new()"@,
        },
        Piece::Arm(a) => arm_pattern(e, f) + arm_body(f, a),
    }
}

fn text(s: &str) -> (r: String)
    ensures
        r@ == s@,
{
    s.to_owned()
}

fn arm_pattern_text(e: &str, f: &FieldLayout) -> (r: String)
    ensures
        r@ == arm_pattern(e@, *f),
{
    let mut s = text("&");
    s.append(e);
    s.append("::");
    s.append(f.variant.as_str());
    match &f.slot {
        SlotKind::Direct => {},
        SlotKind::Keyed(_, None) => {
            s.append("(key)");
        },
        SlotKind::Keyed(_, Some(b)) => {
            s.append(" { ");
            s.append(b.as_str());
            s.append(" }");
        },
    }
    s
}

fn arm_body_text(f: &FieldLayout, a: Access) -> (r: String)
    ensures
        r@ == arm_body(*f, a),
{
    let name = f.name.as_str();
    match &f.slot {
        SlotKind::Direct => {
            let mut s = match a {
                Access::Ref => text(" => &self."),
                Access::Mut => text(" => &mut self."),
                Access::CheckedRef => text(" => Some(&self."),
                Access::CheckedMut => text(" => Some(&mut self."),
            };
            s.append(name);
            match a {
                Access::CheckedRef | Access::CheckedMut => {
                    s.append(")");
                },
                _ => {},
            }
            s
        },
        SlotKind::Keyed(_, b) => {
            let mut s = text(" => self.");
            s.append(name);
            match a {
                Access::Ref | Access::CheckedRef => {
                    s.append(".get(&");
                },
                _ => {
                    s.append(".get_mut(&");
                },
            }
            match b {
                Some(b) => {
                    s.append(b.as_str());
                },
                None => {
                    s.append("key");
                },
            }
            s.append(")");
            match a {
                Access::Ref | Access::Mut => {
                    s.append(".expect(\"tuple variant key not found in hashmap\")");
                },
                _ => {},
            }
            s
        },
    }
}

fn piece(e: &str, f: &FieldLayout, k: Piece) -> (r: String)
    ensures
        r@ == piece_text(e@, *f, k),
{
    let name = f.name.as_str();
    match k {
        Piece::Decl => {
            let mut s = text("pub ");
            s.append(name);
            match &f.slot {
                SlotKind::Direct => {
                    s.append(": T");
                },
                SlotKind::Keyed(ty, _) => {
                    s.append(": std::collections::HashMap<");
                    s.append(ty.as_str());
                    s.append(", T>");
                },
            }
            s
        },
        Piece::Init => {
            let mut s = text(name);
            if let SlotKind::Keyed(_, _) = &f.slot {
                s.append(": std::collections::HashMap::new()");
            }
            s
        },
        Piece::Arm(a) => {
            let p = arm_pattern_text(e, f);
            let b = arm_body_text(f, a);
            p.concat(b.as_str())
        },
    }
}

pub open spec fn pieces_of(l: RecordLayout, k: Piece) -> Seq<Seq<char>> {
    l.fields@.map_values(|f: FieldLayout| piece_text(l.enum_name@, f, k))
}

fn pieces(l: &RecordLayout, k: Piece) -> (r: Vec<String>)
    ensures
        views(r@) == pieces_of(*l, k),
{
    let mut r: Vec<String> = Vec::new();
    let mut i: usize = 0;
    while i < l.fields.len()
        invariant
            i <= l.fields@.len(),
            views(r@) == pieces_of(*l, k).take(i as int),
        decreases l.fields@.len() - i,
    {
        let p = piece(l.enum_name.as_str(), &l.fields[i], k);
        let ghost before = views(r@);
        r.push(p);
        assert(views(r@) =~= before.push(p@));
        assert(pieces_of(*l, k)[i as int] == piece_text(l.enum_name@, l.fields@[i as int], k));
        assert(views(r@) =~= pieces_of(*l, k).take(i + 1));
        i += 1;
    }
    assert(pieces_of(*l, k).take(i as int) =~= pieces_of(*l, k));
    r
}

pub open spec fn generic_params(l: RecordLayout) -> Seq<char> {
    "<T: "@ + join(views(l.bounds@), " + "@) + ">"@
}

pub open spec fn derive_line(l: RecordLayout) -> Seq<char> {
    "#[derive("@ + join(views(l.derives@), ", "@) + ")]\n"@
}

pub open spec fn attr_line(a: Seq<char>) -> Seq<char> {
    "#["@ + a + "]\n"@
}

pub open spec fn attr_lines(l: RecordLayout) -> Seq<char> {
    join(views(l.attrs@).map_values(|a: Seq<char>| attr_line(a)), Seq::empty())
}

/// The record's declaration, with its derives, raw attributes and fields.
pub open spec fn declaration(l: RecordLayout) -> Seq<char> {
    derive_line(l) + attr_lines(l) + l.visibility@ + " struct "@ + l.name@ + generic_params(l)
        + " {\n    "@ + join(pieces_of(l, Piece::Decl), ",\n    "@) + "\n}\n"@
}

pub open spec fn param_text(n: Seq<char>) -> Seq<char> {
    n + ": T"@
}

/// The constructor: one parameter per direct field, every map empty.
pub open spec fn constructor(l: RecordLayout) -> Seq<char> {
    "    pub fn new("@ + join(direct_names(l.fields@).map_values(|n: Seq<char>| param_text(n)), ", "@)
        + ") -> "@ + l.name@ + "<T> {\n        "@ + l.name@ + " { "@ + join(pieces_of(l, Piece::Init), ", "@)
        + " }\n    }\n"@
}

/// One accessor: a match on the enum value with one arm per field.
pub open spec fn accessor(
    l: RecordLayout,
    name: Seq<char>,
    receiver: Seq<char>,
    result: Seq<char>,
    a: Access,
) -> Seq<char> {
    "    pub fn "@ + name + "("@ + receiver + ", var: &"@ + l.enum_name@ + ") -> "@ + result
        + " {\n        match var {\n            "@ + join(pieces_of(l, Piece::Arm(a)), ",\n            "@)
        + "\n        }\n    }\n"@
}

pub open spec fn impl_block(l: RecordLayout) -> Seq<char> {
    "impl"@ + generic_params(l) + " "@ + l.name@ + "<T> {\n"@ + constructor(l) + accessor(
        l,
        "get_unchecked"@,
        "&self"@,
        "&T"@,
        Access::Ref,
    ) + accessor(l, "get_mut_unchecked"@, "&mut self"@, "&mut T"@, Access::Mut) + accessor(
        l,
        "get"@,
        "&self"@,
        "Option<&T>"@,
        Access::CheckedRef,
    ) + accessor(l, "get_mut"@, "&mut self"@, "Option<&mut T>"@, Access::CheckedMut) + "}\n"@
}

/// Indexing by an enum value, or by a reference to one, through the
/// unchecked accessors.
pub open spec fn index_impl(l: RecordLayout, by_ref: bool) -> Seq<char> {
    let r = if by_ref {
        "&"@
    } else {
        ""@
    };
    let arg = if by_ref {
        "var)"@
    } else {
        "&var)"@
    };
    "impl"@ + generic_params(l) + " std::ops::Index<"@ + r + l.enum_name@ + "> for "@ + l.name@
        + "<T> {\n    type Output = T;\n    fn index(&self, var: "@ + r + l.enum_name@
        + ") -> &T {\n        self.get_unchecked("@ + arg + "\n    }\n}\n"@ + "impl"@ + generic_params(l)
        + " std::ops::IndexMut<"@ + r + l.enum_name@ + "> for "@ + l.name@
        + "<T> {\n    fn index_mut(&mut self, var: "@ + r + l.enum_name@
        + ") -> &mut T {\n        self.get_mut_unchecked("@ + arg + "\n    }\n}\n"@
}

/// The Rust source of the record: a unit record with its derives where it
/// has no fields; else its declaration, its constructor and accessors, and
/// indexing.
pub open spec fn record_text(l: RecordLayout) -> Seq<char> {
    if l.fields@.len() == 0 {
        derive_line(l) + l.visibility@ + " struct "@ + l.name@ + ";\n"@
    } else {
        declaration(l) + impl_block(l) + index_impl(l, false) + index_impl(l, true)
    }
}

fn generic_params_text(l: &RecordLayout) -> (r: String)
    ensures
        r@ == generic_params(*l),
{
    let mut s = text("<T: ");
    s.append(join_texts(&l.bounds, " + ").as_str());
    s.append(">");
    s
}

fn derive_line_text(l: &RecordLayout) -> (r: String)
    ensures
        r@ == derive_line(*l),
{
    let mut s = text("#[derive(");
    s.append(join_texts(&l.derives, ", ").as_str());
    s.append(")]\n");
    s
}

fn attr_lines_text(l: &RecordLayout) -> (r: String)
    ensures
        r@ == attr_lines(*l),
{
    let mut lines: Vec<String> = Vec::new();
    let mut i: usize = 0;
    let ghost all = views(l.attrs@).map_values(|a: Seq<char>| attr_line(a));
    while i < l.attrs.len()
        invariant
            i <= l.attrs@.len(),
            all == views(l.attrs@).map_values(|a: Seq<char>| attr_line(a)),
            views(lines@) == all.take(i as int),
        decreases l.attrs@.len() - i,
    {
        let mut s = text("#[");
        s.append(l.attrs[i].as_str());
        s.append("]\n");
        let ghost before = views(lines@);
        lines.push(s);
        assert(views(lines@) =~= before.push(s@));
        assert(all[i as int] == attr_line(l.attrs@[i as int]@));
        assert(views(lines@) =~= all.take(i + 1));
        i += 1;
    }
    assert(all.take(i as int) =~= all);
    proof {
        reveal_strlit("");
    }
    let r = join_texts(&lines, "");
    assert(""@ =~= Seq::<char>::empty());
    r
}

fn declaration_text(l: &RecordLayout) -> (r: String)
    ensures
        r@ == declaration(*l),
{
    let mut s = derive_line_text(l);
    s.append(attr_lines_text(l).as_str());
    s.append(l.visibility.as_str());
    s.append(" struct ");
    s.append(l.name.as_str());
    s.append(generic_params_text(l).as_str());
    s.append(" {\n    ");
    s.append(join_texts(&pieces(l, Piece::Decl), ",\n    ").as_str());
    s.append("\n}\n");
    s
}

fn constructor_text(l: &RecordLayout) -> (r: String)
    ensures
        r@ == constructor(*l),
{
    let names = l.constructor_params();
    let ghost all = direct_names(l.fields@).map_values(|n: Seq<char>| param_text(n));
    let mut params: Vec<String> = Vec::new();
    let mut i: usize = 0;
    while i < names.len()
        invariant
            i <= names@.len(),
            views(names@) == direct_names(l.fields@),
            all == direct_names(l.fields@).map_values(|n: Seq<char>| param_text(n)),
            views(params@) == all.take(i as int),
        decreases names@.len() - i,
    {
        let p = names[i].clone().concat(": T");
        let ghost before = views(params@);
        params.push(p);
        assert(views(params@) =~= before.push(p@));
        assert(all[i as int] == param_text(names@[i as int]@));
        assert(views(params@) =~= all.take(i + 1));
        i += 1;
    }
    assert(all.take(i as int) =~= all);
    let mut s = text("    pub fn new(");
    s.append(join_texts(&params, ", ").as_str());
    s.append(") -> ");
    s.append(l.name.as_str());
    s.append("<T> {\n        ");
    s.append(l.name.as_str());
    s.append(" { ");
    s.append(join_texts(&pieces(l, Piece::Init), ", ").as_str());
    s.append(" }\n    }\n");
    s
}

fn accessor_text(l: &RecordLayout, name: &str, receiver: &str, result: &str, a: Access) -> (r: String)
    ensures
        r@ == accessor(*l, name@, receiver@, result@, a),
{
    let mut s = text("    pub fn ");
    s.append(name);
    s.append("(");
    s.append(receiver);
    s.append(", var: &");
    s.append(l.enum_name.as_str());
    s.append(") -> ");
    s.append(result);
    s.append(" {\n        match var {\n            ");
    s.append(join_texts(&pieces(l, Piece::Arm(a)), ",\n            ").as_str());
    s.append("\n        }\n    }\n");
    s
}

fn impl_block_text(l: &RecordLayout) -> (r: String)
    ensures
        r@ == impl_block(*l),
{
    let mut s = text("impl");
    s.append(generic_params_text(l).as_str());
    s.append(" ");
    s.append(l.name.as_str());
    s.append("<T> {\n");
    s.append(constructor_text(l).as_str());
    s.append(accessor_text(l, "get_unchecked", "&self", "&T", Access::Ref).as_str());
    s.append(accessor_text(l, "get_mut_unchecked", "&mut self", "&mut T", Access::Mut).as_str());
    s.append(accessor_text(l, "get", "&self", "Option<&T>", Access::CheckedRef).as_str());
    s.append(accessor_text(l, "get_mut", "&mut self", "Option<&mut T>", Access::CheckedMut).as_str());
    s.append("}\n");
    s
}

fn index_impl_text(l: &RecordLayout, by_ref: bool) -> (r: String)
    ensures
        r@ == index_impl(*l, by_ref),
{
    let g = generic_params_text(l);
    let e = l.enum_name.as_str();
    let n = l.name.as_str();
    let r = if by_ref {
        "&"
    } else {
        ""
    };
    let arg = if by_ref {
        "var)"
    } else {
        "&var)"
    };
    let mut s = text("impl");
    s.append(g.as_str());
    s.append(" std::ops::Index<");
    s.append(r);
    s.append(e);
    s.append("> for ");
    s.append(n);
    s.append("<T> {\n    type Output = T;\n    fn index(&self, var: ");
    s.append(r);
    s.append(e);
    s.append(") -> &T {\n        self.get_unchecked(");
    s.append(arg);
    s.append("\n    }\n}\n");
    s.append("impl");
    s.append(g.as_str());
    s.append(" std::ops::IndexMut<");
    s.append(r);
    s.append(e);
    s.append("> for ");
    s.append(n);
    s.append("<T> {\n    fn index_mut(&mut self, var: ");
    s.append(r);
    s.append(e);
    s.append(") -> &mut T {\n        self.get_mut_unchecked(");
    s.append(arg);
    s.append("\n    }\n}\n");
    s
}

/// Writes the record out as Rust source.
pub fn render(l: &RecordLayout) -> (r: String)
    ensures
        r@ == record_text(*l),
{
    if l.fields.len() == 0 {
        let mut s = derive_line_text(l);
        s.append(l.visibility.as_str());
        s.append(" struct ");
        s.append(l.name.as_str());
        s.append(";\n");
        return s;
    }
    let mut s = declaration_text(l);
    s.append(impl_block_text(l).as_str());
    s.append(index_impl_text(l, false).as_str());
    s.append(index_impl_text(l, true).as_str());
    s
}

} // verus!
