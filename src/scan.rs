use vstd::prelude::*;

verus! {

/// The sets of characters that the rules' tokens are made of.
#[derive(Clone, Copy, PartialEq, Eq, Structural)]
pub enum CharClass {
    /// Letters, digits and spaces.
    CaseToken,
    /// Upper-case letters, digits and underscores.
    FlagToken,
    /// Letters.
    Letters,
    /// Upper-case letters.
    Upper,
    /// Letters and digits.
    Alnum,
    /// Whitespace, letters and underscores.
    GapToken,
}

pub open spec fn is_upper(c: char) -> bool {
    'A' <= c && c <= 'Z'
}

pub open spec fn is_lower(c: char) -> bool {
    'a' <= c && c <= 'z'
}

pub open spec fn is_digit(c: char) -> bool {
    '0' <= c && c <= '9'
}

pub open spec fn is_letter(c: char) -> bool {
    is_upper(c) || is_lower(c)
}

/// Space, tab, line feed, vertical tab, form feed and carriage return.
pub open spec fn is_space(c: char) -> bool {
    c == ' ' || c == '\t' || c == '\n' || c == '\x0B' || c == '\x0C' || c == '\r'
}

/// Characters that continue a word: letters, digits and the underscore.
pub open spec fn is_word(c: char) -> bool {
    is_letter(c) || is_digit(c) || c == '_'
}

pub open spec fn in_class(k: CharClass, c: char) -> bool {
    match k {
        CharClass::CaseToken => is_letter(c) || is_digit(c) || c == ' ',
        CharClass::FlagToken => is_upper(c) || is_digit(c) || c == '_',
        CharClass::Letters => is_letter(c),
        CharClass::Upper => is_upper(c),
        CharClass::Alnum => is_letter(c) || is_digit(c),
        CharClass::GapToken => is_space(c) || is_letter(c) || c == '_',
    }
}

pub fn digit(c: char) -> (r: bool)
    ensures
        r == is_digit(c),
{
    '0' <= c && c <= '9'
}

pub fn space(c: char) -> (r: bool)
    ensures
        r == is_space(c),
{
    c == ' ' || c == '\t' || c == '\n' || c == '\x0B' || c == '\x0C' || c == '\r'
}

pub fn word(c: char) -> (r: bool)
    ensures
        r == is_word(c),
{
    ('A' <= c && c <= 'Z') || ('a' <= c && c <= 'z') || digit(c) || c == '_'
}

pub fn member(k: CharClass, c: char) -> (r: bool)
    ensures
        r == in_class(k, c),
{
    let upper = 'A' <= c && c <= 'Z';
    let letter = upper || ('a' <= c && c <= 'z');
    match k {
        CharClass::CaseToken => letter || digit(c) || c == ' ',
        CharClass::FlagToken => upper || digit(c) || c == '_',
        CharClass::Letters => letter,
        CharClass::Upper => upper,
        CharClass::Alnum => letter || digit(c),
        CharClass::GapToken => space(c) || letter || c == '_',
    }
}

/// `w` occurs in `s` starting at position `i`.
pub open spec fn has_at(s: Seq<char>, i: int, w: Seq<char>) -> bool {
    0 <= i && i + w.len() <= s.len() && s.subrange(i, i + w.len()) == w
}

/// Where the longest run of characters of class `k` that starts at `i` ends.
pub open spec fn run_end(s: Seq<char>, i: int, k: CharClass) -> int
    decreases s.len() - i,
{
    if 0 <= i < s.len() && in_class(k, s[i]) {
        run_end(s, i + 1, k)
    } else {
        i
    }
}

pub proof fn lemma_run_end_bounds(s: Seq<char>, i: int, k: CharClass)
    requires
        0 <= i <= s.len(),
    ensures
        i <= run_end(s, i, k) <= s.len(),
        forall|p: int| i <= p < run_end(s, i, k) ==> in_class(k, #[trigger] s[p]),
    decreases s.len() - i,
{
    if i < s.len() && in_class(k, s[i]) {
        lemma_run_end_bounds(s, i + 1, k);
    }
}

/// Whether `w` occurs in `s` at position `i`.
pub fn occurs_at(s: &Vec<char>, i: usize, w: &Vec<char>) -> (r: bool)
    ensures
        r == has_at(s@, i as int, w@),
{
    if w.len() > s.len() || i > s.len() - w.len() {
        return false;
    }
    let mut k: usize = 0;
    while k < w.len()
        invariant
            k <= w.len(),
            i + w.len() <= s.len(),
            forall|p: int| 0 <= p < k ==> s@[i + p] == w@[p],
        decreases w.len() - k,
    {
        if s[i + k] != w[k] {
            assert(s@.subrange(i as int, i + w.len())[k as int] != w@[k as int]);
            return false;
        }
        k = k + 1;
    }
    assert(s@.subrange(i as int, i + w.len()) =~= w@);
    true
}

/// The end of the longest run of class `k` that starts at `i`.
pub fn run_end_at(s: &Vec<char>, i: usize, k: CharClass) -> (e: usize)
    requires
        i <= s.len(),
    ensures
        e == run_end(s@, i as int, k),
{
    let mut e: usize = i;
    while e < s.len() && member(k, s[e])
        invariant
            i <= e <= s.len(),
            run_end(s@, e as int, k) == run_end(s@, i as int, k),
        decreases s.len() - e,
    {
        e = e + 1;
    }
    e
}

} // verus!
