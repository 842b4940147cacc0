use heck::CamelCase;
use heck::ShoutySnakeCase;
use vstd::prelude::*;

verus! {

/// What heck's shouty-snake-case conversion makes of a word.
pub uninterp spec fn shouty_snake_of(s: Seq<char>) -> Seq<char>;

/// What heck's camel-case conversion makes of a word.
pub uninterp spec fn camel_of(s: Seq<char>) -> Seq<char>;

/// Relies on `heck::ShoutySnakeCase::to_shouty_snake_case` on `str`: words
/// upper-cased and joined by underscores; the result depends on the characters alone.
#[verifier::external_body]
pub(crate) fn shouty_snake(word: &Vec<char>) -> (r: Vec<char>)
    ensures
        r@ == shouty_snake_of(word@),
{
    let text: String = word.iter().collect();
    text.to_shouty_snake_case().chars().collect()
}

/// Relies on `heck::CamelCase::to_camel_case` on `str`: words capitalised and
/// joined; the result depends on the characters alone.
#[verifier::external_body]
pub(crate) fn camel(word: &Vec<char>) -> (r: Vec<char>)
    ensures
        r@ == camel_of(word@),
{
    let text: String = word.iter().collect();
    text.to_camel_case().chars().collect()
}

} // verus!
