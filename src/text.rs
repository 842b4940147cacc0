use vstd::prelude::*;
use vstd::string::*;

verus! {

/// The characters of `s` followed by `tail`, or nothing when `s` is empty.
pub open spec fn joined_with(s: Seq<char>, tail: Seq<char>) -> Seq<char> {
    if s.len() > 0 {
        s + tail
    } else {
        Seq::empty()
    }
}

/// `head` followed by the characters of `s`, or nothing when `s` is empty.
pub open spec fn led_by(s: Seq<char>, head: Seq<char>) -> Seq<char> {
    if s.len() > 0 {
        head + s
    } else {
        Seq::empty()
    }
}

/// Relies on `str::chars` (collected into a `Vec`): the characters of `s`, in order.
#[verifier::external_body]
pub(crate) fn chars_of(s: &str) -> (r: Vec<char>)
    ensures
        r@ == s@,
{
    s.chars().collect()
}

/// Relies on `String`'s `FromIterator<&char>`: the characters of `v`, in order.
#[verifier::external_body]
pub(crate) fn string_of(v: &Vec<char>) -> (r: String)
    ensures
        r@ == v@,
{
    v.iter().collect()
}

/// Appends `tail` to a non-empty `input`; an empty `input` gives an empty string.
pub fn append_if_non_empty(input: &str, tail: &str) -> (r: String)
    ensures
        r@ == joined_with(input@, tail@),
{
    if input.unicode_len() > 0 {
        String::from_str(input).concat(tail)
    } else {
        String::new()
    }
}

/// Puts `head` before a non-empty `input`; an empty `input` gives an empty string.
pub fn prepend_if_non_empty(input: &str, head: &str) -> (r: String)
    ensures
        r@ == led_by(input@, head@),
{
    if input.unicode_len() > 0 {
        String::from_str(head).concat(input)
    } else {
        String::new()
    }
}

/// Appends all characters of `src` to `dst`.
pub fn push_all(dst: &mut Vec<char>, src: &Vec<char>)
    ensures
        final(dst)@ == old(dst)@ + src@,
{
    let mut k: usize = 0;
    while k < src.len()
        invariant
            k <= src.len(),
            dst@ == old(dst)@ + src@.subrange(0, k as int),
        decreases src.len() - k,
    {
        dst.push(src[k]);
        k = k + 1;
        assert(src@.subrange(0, k as int) == src@.subrange(0, k - 1) + seq![src@[k - 1]]);
    }
    assert(src@.subrange(0, src@.len() as int) == src@);
}

/// The characters of `s` from `from` up to `to`.
pub fn slice(s: &Vec<char>, from: usize, to: usize) -> (r: Vec<char>)
    requires
        from <= to <= s.len(),
    ensures
        r@ == s@.subrange(from as int, to as int),
{
    let mut r: Vec<char> = Vec::new();
    let mut k: usize = from;
    while k < to
        invariant
            from <= k <= to <= s.len(),
            r@ == s@.subrange(from as int, k as int),
        decreases to - k,
    {
        r.push(s[k]);
        k = k + 1;
        assert(s@.subrange(from as int, k as int) =~= s@.subrange(from as int, k - 1) + seq![
            s@[k - 1],
        ]);
    }
    r
}

/// `a` followed by `b`.
pub fn joined(a: &Vec<char>, b: &Vec<char>) -> (r: Vec<char>)
    ensures
        r@ == a@ + b@,
{
    let mut r: Vec<char> = Vec::new();
    push_all(&mut r, a);
    assert(r@ =~= a@);
    push_all(&mut r, b);
    r
}

} // verus!
