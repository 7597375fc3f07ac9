//! Field identifiers: snake case, then keyword escaping.

use check_keyword::CheckKeyword;
use heck::ToSnekCase;
use vstd::prelude::*;

verus! {

/// What heck's snake-case conversion makes of an identifier.
pub uninterp spec fn snake_of(s: Seq<char>) -> Seq<char>;

/// What check_keyword makes of an identifier that may be a keyword.
pub uninterp spec fn safe_ident_of(s: Seq<char>) -> Seq<char>;

/// Relies on heck's `ToSnekCase::to_snek_case` on `str`: the snake-case
/// form of an identifier, a function of its characters alone.
#[verifier::external_body]
fn snake_case(s: &str) -> (r: String)
    ensures
        r@ == snake_of(s@),
{
    s.to_snek_case()
}

/// Relies on check_keyword's `CheckKeyword::into_safe`: a keyword gets `r#`
/// in front, or `_` behind where it cannot be raw; any other identifier
/// comes back unchanged.
#[verifier::external_body]
fn escape_keyword(s: &str) -> (r: String)
    ensures
        r@ == safe_ident_of(s@),
        r@ == s@ || r@ == seq!['r', '#'] + s@ || r@ == s@.push('_'),
{
    s.into_safe()
}

/// The field identifier of a variant: the explicit name where one is given,
/// else the variant's name in snake case; escaped where it is a keyword.
pub open spec fn field_ident(variant: Seq<char>, rename: Option<Seq<char>>) -> Seq<char> {
    match rename {
        Some(n) => safe_ident_of(n),
        None => safe_ident_of(snake_of(variant)),
    }
}

/// Computes `field_ident` for a variant name and an optional explicit name.
pub fn field_ident_for(variant: &str, rename: Option<&str>) -> (r: String)
    ensures
        r@ == field_ident(variant@, match rename {
            Some(n) => Some(n@),
            None => None,
        }),
{
    match rename {
        Some(n) => escape_keyword(n),
        None => {
            let snake = snake_case(variant);
            escape_keyword(snake.as_str())
        },
    }
}

} // verus!
