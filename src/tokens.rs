//! Attribute arguments as tokens, and lists of plain paths among them.

use vstd::prelude::*;
use vstd::string::StringExecFns;

verus! {

/// One token of an attribute's argument. A delimited group stands as one
/// token holding its text.
#[derive(Clone, Debug, PartialEq, Eq)]
pub enum Tok {
    Ident(String),
    Punct(char),
    Literal(String),
    Group(String),
}

pub open spec fn is_punct(t: Tok, c: char) -> bool {
    match t {
        Tok::Punct(p) => p == c,
        _ => false,
    }
}

pub open spec fn is_ident(t: Tok) -> bool {
    t is Ident
}

/// The text of a token.
pub open spec fn tok_text(t: Tok) -> Seq<char> {
    match t {
        Tok::Ident(s) => s@,
        Tok::Punct(c) => seq![c],
        Tok::Literal(s) => s@,
        Tok::Group(s) => s@,
    }
}

/// The texts of the tokens, one after the other.
pub open spec fn text_of(s: Seq<Tok>) -> Seq<char>
    decreases s.len(),
{
    if s.len() == 0 {
        Seq::empty()
    } else {
        text_of(s.drop_last()) + tok_text(s.last())
    }
}

/// Two tokens where a path starts with `::`, else none.
pub open spec fn path_offset(s: Seq<Tok>) -> int {
    if s.len() >= 2 && is_punct(s[0], ':') && is_punct(s[1], ':') {
        2
    } else {
        0
    }
}

/// A plain path: an optional leading `::`, then identifiers separated by
/// `::` (each `:` a token of its own).
pub open spec fn is_plain_path(s: Seq<Tok>) -> bool {
    let o = path_offset(s);
    &&& (s.len() - o) % 3 == 1
    &&& forall|k: int|
        o <= k < s.len() ==> if (k - o) % 3 == 0 {
            is_ident(#[trigger] s[k])
        } else {
            is_punct(s[k], ':')
        }
}

/// The entries of a list separated by `sep`, each a plain path, read from
/// position `j` on, where the current entry began at `start` and is entry
/// number `k`. An empty last entry (an empty list, or a separator at the
/// end) is no entry. The error is the number of the first entry that is not
/// a plain path.
pub open spec fn list_at(s: Seq<Tok>, sep: char, start: int, j: int, k: nat) -> Result<
    Seq<Seq<char>>,
    nat,
>
    decreases s.len() - j,
{
    if j >= s.len() {
        if start >= s.len() {
            Ok(Seq::empty())
        } else if is_plain_path(s.subrange(start, s.len() as int)) {
            Ok(seq![text_of(s.subrange(start, s.len() as int))])
        } else {
            Err(k)
        }
    } else if is_punct(s[j], sep) {
        if is_plain_path(s.subrange(start, j)) {
            match list_at(s, sep, j + 1, j + 1, k + 1) {
                Ok(rest) => Ok(seq![text_of(s.subrange(start, j))] + rest),
                Err(e) => Err(e),
            }
        } else {
            Err(k)
        }
    } else {
        list_at(s, sep, start, j + 1, k)
    }
}

/// The list of plain paths that the tokens hold, separated by `sep`.
pub open spec fn path_list(s: Seq<Tok>, sep: char) -> Result<Seq<Seq<char>>, nat> {
    list_at(s, sep, 0, 0, 0)
}

pub open spec fn views(v: Seq<String>) -> Seq<Seq<char>> {
    v.map_values(|s: String| s@)
}

pub open spec fn prepend(acc: Seq<Seq<char>>, r: Result<Seq<Seq<char>>, nat>) -> Result<
    Seq<Seq<char>>,
    nat,
> {
    match r {
        Ok(rest) => Ok(acc + rest),
        Err(e) => Err(e),
    }
}

proof fn lemma_text_step(s: Seq<Tok>, a: int, b: int)
    requires
        0 <= a <= b < s.len(),
    ensures
        text_of(s.subrange(a, b + 1)) == text_of(s.subrange(a, b)) + tok_text(s[b]),
{
    assert(s.subrange(a, b + 1).drop_last() =~= s.subrange(a, b));
}

fn is_colon(t: &Tok) -> (r: bool)
    ensures
        r == is_punct(*t, ':'),
{
    match t {
        Tok::Punct(c) => *c == ':',
        _ => false,
    }
}

/// The text of the tokens from `from` to `to` where they form a plain path.
fn plain_path_text(toks: &Vec<Tok>, from: usize, to: usize) -> (r: Option<String>)
    requires
        from <= to <= toks@.len(),
    ensures
        r is Some <==> is_plain_path(toks@.subrange(from as int, to as int)),
        r matches Some(t) ==> t@ == text_of(toks@.subrange(from as int, to as int)),
{
    let ghost s = toks@.subrange(from as int, to as int);
    let mut o: usize = 0;
    if to - from >= 2 && is_colon(&toks[from]) && is_colon(&toks[from + 1]) {
        o = 2;
    }
    assert(o == path_offset(s));
    if (to - from - o) % 3 != 1 {
        return None;
    }
    let mut text = String::new();
    let mut k: usize = from;
    while k < to
        invariant
            from <= k <= to <= toks@.len(),
            s == toks@.subrange(from as int, to as int),
            o == path_offset(s),
            (to - from - o) % 3 == 1,
            forall|m: int|
                o <= m < k - from ==> if (m - o) % 3 == 0 {
                    is_ident(#[trigger] s[m])
                } else {
                    is_punct(s[m], ':')
                },
            text@ == text_of(toks@.subrange(from as int, k as int)),
        decreases to - k,
    {
        let m: usize = k - from;
        assert(s[m as int] == toks@[k as int]);
        match &toks[k] {
            Tok::Ident(x) => {
                if m < o || (m - o) % 3 != 0 {
                    return None;
                }
                text.append(x.as_str());
            },
            Tok::Punct(c) => {
                if *c != ':' || (m >= o && (m - o) % 3 == 0) {
                    return None;
                }
                proof {
                    reveal_strlit(":");
                }
                text.append(":");
            },
            _ => {
                return None;
            },
        }
        proof {
            lemma_text_step(toks@, from as int, k as int);
        }
        k += 1;
    }
    assert(toks@.subrange(from as int, k as int) == s);
    Some(text)
}

/// Splits the tokens at `sep` into plain paths, and gives their texts; or
/// the number of the first entry that is not a plain path.
pub fn parse_path_list(toks: &Vec<Tok>, sep: char) -> (r: Result<Vec<String>, usize>)
    ensures
        match r {
            Ok(v) => path_list(toks@, sep) == Ok::<Seq<Seq<char>>, nat>(views(v@)),
            Err(k) => path_list(toks@, sep) == Err::<Seq<Seq<char>>, nat>(k as nat),
        },
{
    let mut acc: Vec<String> = Vec::new();
    let mut start: usize = 0;
    let mut k: usize = 0;
    let mut j: usize = 0;
    while j < toks.len()
        invariant
            start <= j <= toks@.len(),
            k <= j,
            path_list(toks@, sep) == prepend(views(acc@), list_at(toks@, sep, start as int, j as int, k as nat)),
        decreases toks@.len() - j,
    {
        let at_sep = match &toks[j] {
            Tok::Punct(c) => *c == sep,
            _ => false,
        };
        if at_sep {
            match plain_path_text(toks, start, j) {
                Some(t) => {
                    let ghost before = views(acc@);
                    acc.push(t);
                    proof {
                        assert(views(acc@) =~= before.push(t@));
                        let rest = list_at(toks@, sep, j + 1, j + 1, (k + 1) as nat);
                        match rest {
                            Ok(x) => {
                                assert(before + (seq![t@] + x) =~= before.push(t@) + x);
                            },
                            Err(_) => {},
                        }
                    }
                    start = j + 1;
                    k += 1;
                },
                None => {
                    return Err(k);
                },
            }
        }
        j += 1;
    }
    if start >= toks.len() {
        assert(views(acc@) + Seq::<Seq<char>>::empty() =~= views(acc@));
        return Ok(acc);
    }
    match plain_path_text(toks, start, toks.len()) {
        Some(t) => {
            let ghost before = views(acc@);
            acc.push(t);
            assert(views(acc@) =~= before + seq![t@]);
            Ok(acc)
        },
        None => Err(k),
    }
}

} // verus!
