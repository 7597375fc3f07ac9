//! Reading the directives that the enum's attributes carry.

use crate::error::GenError;
use crate::tokens::{parse_path_list, path_list, views, Tok};
use vstd::prelude::*;

verus! {

/// How an attribute is written after its name.
#[derive(Clone, Debug, PartialEq, Eq)]
pub enum AttrArg {
    /// `#[name]`
    Bare,
    /// `#[name = "text"]`, with the string's value.
    StrValue(String),
    /// `#[name = value]` where the value is not a string literal; its text.
    OtherValue(String),
    /// `#[name(...)]`: the tokens inside the parentheses, and their text.
    List(Vec<Tok>, String),
}

/// An attribute of the enum or of one of its variants.
#[derive(Clone, Debug, PartialEq, Eq)]
pub struct AttrDesc {
    pub name: String,
    pub arg: AttrArg,
}

/// What the enum's directives ask of the record.
#[derive(Clone, Debug, PartialEq, Eq)]
pub struct Directives {
    /// The record's name, where one is given.
    pub name: Option<String>,
    /// Bounds on the payload type, each a path, without repeats.
    pub bounds: Vec<String>,
    /// Derives for the record, each a path, without repeats.
    pub derives: Vec<String>,
    /// Raw attributes for the record, in order.
    pub attrs: Vec<String>,
}

/// What the directives ask, as sequences of characters.
pub struct DirectivesModel {
    pub name: Option<Seq<char>>,
    pub bounds: Seq<Seq<char>>,
    pub derives: Seq<Seq<char>>,
    pub attrs: Seq<Seq<char>>,
}

impl View for Directives {
    type V = DirectivesModel;

    open spec fn view(&self) -> DirectivesModel {
        DirectivesModel {
            name: match self.name {
                Some(n) => Some(n@),
                None => None,
            },
            bounds: views(self.bounds@),
            derives: views(self.derives@),
            attrs: views(self.attrs@),
        }
    }
}

pub open spec fn no_directives() -> DirectivesModel {
    DirectivesModel {
        name: None,
        bounds: Seq::empty(),
        derives: Seq::empty(),
        attrs: Seq::empty(),
    }
}

/// `xs` followed by those of `ys` that it does not hold yet, first ones first.
pub open spec fn union_of(xs: Seq<Seq<char>>, ys: Seq<Seq<char>>) -> Seq<Seq<char>>
    decreases ys.len(),
{
    if ys.len() == 0 {
        xs
    } else {
        let u = union_of(xs, ys.drop_last());
        if u.contains(ys.last()) {
            u
        } else {
            u.push(ys.last())
        }
    }
}

/// The effect of the enum's attribute `a`, at position `i`, on what the
/// directives before it asked. Attributes of other names are ignored.
pub open spec fn apply_directive(d: DirectivesModel, a: AttrDesc, i: usize) -> Result<
    DirectivesModel,
    GenError,
> {
    if a.name@ == "struct_name"@ {
        match a.arg {
            AttrArg::StrValue(s) => Ok(DirectivesModel { name: Some(s@), ..d }),
            AttrArg::OtherValue(_) => Err(GenError::StructNameNotString(i)),
            _ => Ok(d),
        }
    } else if a.name@ == "struct_bounds"@ {
        match a.arg {
            AttrArg::List(toks, _) => match path_list(toks@, '+') {
                Ok(ps) => Ok(DirectivesModel { bounds: union_of(d.bounds, ps), ..d }),
                Err(k) => Err(GenError::NotAPath(i, k as usize)),
            },
            _ => Err(GenError::NotAList(i)),
        }
    } else if a.name@ == "struct_derive"@ {
        match a.arg {
            AttrArg::List(toks, _) => match path_list(toks@, ',') {
                Ok(ps) => Ok(DirectivesModel { derives: union_of(d.derives, ps), ..d }),
                Err(k) => Err(GenError::NotAPath(i, k as usize)),
            },
            _ => Err(GenError::NotAList(i)),
        }
    } else if a.name@ == "struct_attr"@ {
        match a.arg {
            AttrArg::List(_, text) => Ok(DirectivesModel { attrs: d.attrs.push(text@), ..d }),
            _ => Err(GenError::NotAList(i)),
        }
    } else {
        Ok(d)
    }
}

/// The directives of the first `n` attributes, read in order; the first
/// error stops the reading.
pub open spec fn directives_upto(attrs: Seq<AttrDesc>, n: nat) -> Result<DirectivesModel, GenError>
    decreases n,
{
    if n == 0 {
        Ok(no_directives())
    } else {
        match directives_upto(attrs, (n - 1) as nat) {
            Ok(d) => apply_directive(d, attrs[n - 1], (n - 1) as usize),
            Err(e) => Err(e),
        }
    }
}

pub open spec fn directives_of(attrs: Seq<AttrDesc>) -> Result<DirectivesModel, GenError> {
    directives_upto(attrs, attrs.len())
}

proof fn lemma_contains_push(s: Seq<Seq<char>>, x: Seq<char>, y: Seq<char>)
    ensures
        s.push(y).contains(x) == (s.contains(x) || y == x),
{
    let t = s.push(y);
    if s.contains(x) {
        let k = choose|k: int| 0 <= k < s.len() && s[k] == x;
        assert(t[k] == x);
    }
    if y == x {
        assert(t[s.len() as int] == x);
    }
    if t.contains(x) {
        let k = choose|k: int| 0 <= k < t.len() && t[k] == x;
        if k < s.len() {
            assert(s[k] == x);
        }
    }
}

/// Once the reading has failed, later attributes do not change the error.
proof fn lemma_error_stays(attrs: Seq<AttrDesc>, m: nat, n: nat)
    requires
        m <= n,
        directives_upto(attrs, m) is Err,
    ensures
        directives_upto(attrs, n) == directives_upto(attrs, m),
    decreases n - m,
{
    if n > m {
        lemma_error_stays(attrs, m, (n - 1) as nat);
    }
}

proof fn lemma_directive_names_differ()
    ensures
        "struct_name"@ != "struct_bounds"@,
        "struct_name"@ != "struct_derive"@,
        "struct_name"@ != "struct_attr"@,
        "struct_bounds"@ != "struct_derive"@,
        "struct_bounds"@ != "struct_attr"@,
        "struct_derive"@ != "struct_attr"@,
{
    reveal_strlit("struct_name");
    reveal_strlit("struct_bounds");
    reveal_strlit("struct_derive");
    reveal_strlit("struct_attr");
    assert("struct_name"@.len() != "struct_bounds"@.len());
    assert("struct_name"@.len() != "struct_derive"@.len());
    assert("struct_bounds"@[7] != "struct_derive"@[7]);
    assert("struct_bounds"@.len() != "struct_attr"@.len());
    assert("struct_derive"@.len() != "struct_attr"@.len());
    assert("struct_name"@[7] != "struct_attr"@[7]);
}

/// Whether two strings hold the same characters.
pub fn same_text(a: &str, b: &str) -> (r: bool)
    ensures
        r == (a@ == b@),
{
    let n = a.unicode_len();
    if n != b.unicode_len() {
        return false;
    }
    let mut i: usize = 0;
    while i < n
        invariant
            n == a@.len() == b@.len(),
            i <= n,
            a@.subrange(0, i as int) == b@.subrange(0, i as int),
        decreases n - i,
    {
        if a.get_char(i) != b.get_char(i) {
            assert(a@[i as int] != b@[i as int]);
            return false;
        }
        assert(a@.subrange(0, i + 1) =~= a@.subrange(0, i as int).push(a@[i as int]));
        assert(b@.subrange(0, i + 1) =~= b@.subrange(0, i as int).push(b@[i as int]));
        i += 1;
    }
    assert(a@ =~= a@.subrange(0, n as int));
    assert(b@ =~= b@.subrange(0, n as int));
    true
}

/// Appends to `list` those of `items` that it does not hold yet.
fn add_unique(list: &mut Vec<String>, items: Vec<String>)
    ensures
        views(final(list)@) == union_of(views(old(list)@), views(items@)),
{
    let ghost start = views(list@);
    let mut i: usize = 0;
    while i < items.len()
        invariant
            i <= items@.len(),
            views(list@) == union_of(start, views(items@).take(i as int)),
        decreases items@.len() - i,
    {
        let item = &items[i];
        let mut found = false;
        let mut j: usize = 0;
        while j < list.len()
            invariant
                j <= list@.len(),
                found == views(list@).take(j as int).contains(item@),
            decreases list@.len() - j,
        {
            if list[j] == *item {
                found = true;
            }
            proof {
                assert(views(list@).take(j + 1) =~= views(list@).take(j as int).push(list@[j as int]@));
                lemma_contains_push(views(list@).take(j as int), item@, list@[j as int]@);
            }
            j += 1;
        }
        assert(views(list@).take(j as int) =~= views(list@));
        assert(views(items@).take(i + 1).drop_last() =~= views(items@).take(i as int));
        if !found {
            let ghost before = views(list@);
            list.push(item.clone());
            assert(views(list@) =~= before.push(item@));
        }
        i += 1;
    }
    assert(views(items@).take(i as int) =~= views(items@));
}

/// Reads the enum's directives from its attributes, in order. Each rename
/// replaces the one before; bounds and derives gather, without repeats, in
/// the order they first appear; raw attributes gather in order.
pub fn read_directives(attrs: &Vec<AttrDesc>) -> (r: Result<Directives, GenError>)
    ensures
        match r {
            Ok(d) => directives_of(attrs@) == Ok::<DirectivesModel, GenError>(d@),
            Err(e) => directives_of(attrs@) == Err::<DirectivesModel, GenError>(e),
        },
{
    let mut d = Directives { name: None, bounds: Vec::new(), derives: Vec::new(), attrs: Vec::new() };
    let mut i: usize = 0;
    proof {
        assert(views(d.bounds@) =~= Seq::empty());
        assert(views(d.derives@) =~= Seq::empty());
        assert(views(d.attrs@) =~= Seq::empty());
        lemma_directive_names_differ();
    }
    while i < attrs.len()
        invariant
            i <= attrs@.len(),
            directives_upto(attrs@, i as nat) == Ok::<DirectivesModel, GenError>(d@),
        decreases attrs@.len() - i,
    {
        let a = &attrs[i];
        let name = a.name.as_str();
        if same_text(name, "struct_name") {
            match &a.arg {
                AttrArg::StrValue(s) => {
                    d.name = Some(s.clone());
                },
                AttrArg::OtherValue(_) => {
                    proof {
                            lemma_error_stays(attrs@, (i + 1) as nat, attrs@.len());
                        }
                        return Err(GenError::StructNameNotString(i));
                },
                _ => {},
            }
        } else if same_text(name, "struct_bounds") {
            match &a.arg {
                AttrArg::List(toks, _) => match parse_path_list(toks, '+') {
                    Ok(ps) => add_unique(&mut d.bounds, ps),
                    Err(k) => {
                        proof {
                            lemma_error_stays(attrs@, (i + 1) as nat, attrs@.len());
                        }
                        return Err(GenError::NotAPath(i, k));
                    },
                },
                _ => {
                    proof {
                            lemma_error_stays(attrs@, (i + 1) as nat, attrs@.len());
                        }
                        return Err(GenError::NotAList(i));
                },
            }
        } else if same_text(name, "struct_derive") {
            match &a.arg {
                AttrArg::List(toks, _) => match parse_path_list(toks, ',') {
                    Ok(ps) => add_unique(&mut d.derives, ps),
                    Err(k) => {
                        proof {
                            lemma_error_stays(attrs@, (i + 1) as nat, attrs@.len());
                        }
                        return Err(GenError::NotAPath(i, k));
                    },
                },
                _ => {
                    proof {
                            lemma_error_stays(attrs@, (i + 1) as nat, attrs@.len());
                        }
                        return Err(GenError::NotAList(i));
                },
            }
        } else if same_text(name, "struct_attr") {
            match &a.arg {
                AttrArg::List(_, text) => {
                    let ghost before = views(d.attrs@);
                    d.attrs.push(text.clone());
                    assert(views(d.attrs@) =~= before.push(text@));
                },
                _ => {
                    proof {
                            lemma_error_stays(attrs@, (i + 1) as nat, attrs@.len());
                        }
                        return Err(GenError::NotAList(i));
                },
            }
        }
        i += 1;
    }
    Ok(d)
}

} // verus!
