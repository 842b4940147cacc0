use crate::casing::{camel, camel_of, shouty_snake, shouty_snake_of};
use crate::scan::{
    digit, has_at, is_digit, is_space, is_word, lemma_run_end_bounds, occurs_at, run_end,
    run_end_at, space, word, CharClass,
};
use crate::text::{joined, push_all, slice};
use vstd::prelude::*;

verus! {

/// What a rule searches for and what it writes in place of each match.
pub enum Pattern {
    /// `<lead><token>`, token of letters, digits and spaces, becomes
    /// `<lead><SHOUTY_SNAKE(token)>`.
    CaseConvert { lead: Seq<char> },
    /// `<lead><TOKEN><trail>` followed by a non-word character or the end,
    /// TOKEN of upper-case letters, digits and underscores, becomes `<emit><TOKEN>`.
    BitFlag { lead: Seq<char>, trail: Seq<char>, emit: Seq<char> },
    /// `<lead><TOKEN><trail>`, TOKEN as for bit flags, becomes
    /// `<head><CamelCase(TOKEN)><tail>`.
    ExtensionName { lead: Seq<char>, trail: Seq<char>, head: Seq<char>, tail: Seq<char> },
    /// `<lead><TOKEN>`, TOKEN of upper-case letters, becomes `<emit><TOKEN>`.
    Rename { lead: Seq<char>, emit: Seq<char> },
    /// Each occurrence of a non-empty `old` becomes `new`.
    Literal { old: Seq<char>, new: Seq<char> },
    /// `<lead><word> => `, word of letters, with one whitespace character on
    /// each side of the arrow, becomes `<emit><SHOUTY_SNAKE(word)> => `.
    ErrorArm { lead: Seq<char>, emit: Seq<char> },
    /// `(<a>,<ws><b>)<gap>=><ws>`, a and b of letters and digits, gap of
    /// whitespace, letters and underscores, becomes `(<SHOUTY_SNAKE(a)>, <b>)<gap>=> `.
    TupleArm,
    /// `<head><digit><tail>` gains an underscore before the digit, or after it
    /// when `after` holds.
    DigitSplit { head: Seq<char>, tail: Seq<char>, after: bool },
}

/// The executable form of a [`Pattern`].
pub enum Rule {
    CaseConvert { lead: Vec<char> },
    BitFlag { lead: Vec<char>, trail: Vec<char>, emit: Vec<char> },
    ExtensionName { lead: Vec<char>, trail: Vec<char>, head: Vec<char>, tail: Vec<char> },
    Rename { lead: Vec<char>, emit: Vec<char> },
    Literal { old: Vec<char>, new: Vec<char> },
    ErrorArm { lead: Vec<char>, emit: Vec<char> },
    TupleArm,
    DigitSplit { head: Vec<char>, tail: Vec<char>, after: bool },
}

impl View for Rule {
    type V = Pattern;

    open spec fn view(&self) -> Pattern {
        match self {
            Rule::CaseConvert { lead } => Pattern::CaseConvert { lead: lead@ },
            Rule::BitFlag { lead, trail, emit } => Pattern::BitFlag {
                lead: lead@,
                trail: trail@,
                emit: emit@,
            },
            Rule::ExtensionName { lead, trail, head, tail } => Pattern::ExtensionName {
                lead: lead@,
                trail: trail@,
                head: head@,
                tail: tail@,
            },
            Rule::Rename { lead, emit } => Pattern::Rename { lead: lead@, emit: emit@ },
            Rule::Literal { old, new } => Pattern::Literal { old: old@, new: new@ },
            Rule::ErrorArm { lead, emit } => Pattern::ErrorArm { lead: lead@, emit: emit@ },
            Rule::TupleArm => Pattern::TupleArm,
            Rule::DigitSplit { head, tail, after } => Pattern::DigitSplit {
                head: head@,
                tail: tail@,
                after: *after,
            },
        }
    }
}

pub open spec fn char_at(s: Seq<char>, p: int, c: char) -> bool {
    0 <= p < s.len() && s[p] == c
}

pub open spec fn space_at(s: Seq<char>, p: int) -> bool {
    0 <= p < s.len() && is_space(s[p])
}

/// Position `p` is the end of the text or holds a non-word character.
pub open spec fn bounded_at(s: Seq<char>, p: int) -> bool {
    p == s.len() || (0 <= p < s.len() && !is_word(s[p]))
}

/// `trail` stands at `k`, followed by a word boundary when `bounded`.
pub open spec fn trail_fits(s: Seq<char>, k: int, trail: Seq<char>, bounded: bool) -> bool {
    has_at(s, k, trail) && (!bounded || bounded_at(s, k + trail.len()))
}

/// The largest `k` in `j..=top` at which the trail fits: where a greedy token
/// that starts at `j` and may reach `top` ends.
pub open spec fn split_back(s: Seq<char>, j: int, top: int, trail: Seq<char>, bounded: bool) -> Option<int>
    decreases top + 1 - j,
{
    if top < j {
        None
    } else if trail_fits(s, top, trail, bounded) {
        Some(top)
    } else {
        split_back(s, j, top - 1, trail, bounded)
    }
}

/// The match of `pat` that starts at position `i` of `s`, if any: where it
/// ends and what replaces it.
pub open spec fn match_at(pat: Pattern, s: Seq<char>, i: int) -> Option<(int, Seq<char>)> {
    match pat {
        Pattern::CaseConvert { lead } => if has_at(s, i, lead) {
            let j = i + lead.len();
            let e = run_end(s, j, CharClass::CaseToken);
            Some((e, lead + shouty_snake_of(s.subrange(j, e))))
        } else {
            None
        },
        Pattern::BitFlag { lead, trail, emit } => if has_at(s, i, lead) {
            let j = i + lead.len();
            match split_back(s, j, run_end(s, j, CharClass::FlagToken), trail, true) {
                Some(k) => Some((k + trail.len(), emit + s.subrange(j, k))),
                None => None,
            }
        } else {
            None
        },
        Pattern::ExtensionName { lead, trail, head, tail } => if has_at(s, i, lead) {
            let j = i + lead.len();
            match split_back(s, j, run_end(s, j, CharClass::FlagToken), trail, false) {
                Some(k) => Some((k + trail.len(), head + camel_of(s.subrange(j, k)) + tail)),
                None => None,
            }
        } else {
            None
        },
        Pattern::Rename { lead, emit } => if has_at(s, i, lead) {
            let j = i + lead.len();
            let e = run_end(s, j, CharClass::Upper);
            Some((e, emit + s.subrange(j, e)))
        } else {
            None
        },
        Pattern::Literal { old, new } => if old.len() > 0 && has_at(s, i, old) {
            Some((i + old.len(), new))
        } else {
            None
        },
        Pattern::ErrorArm { lead, emit } => if has_at(s, i, lead) {
            let j = i + lead.len();
            let e = run_end(s, j, CharClass::Letters);
            if space_at(s, e) && char_at(s, e + 1, '=') && char_at(s, e + 2, '>') && space_at(
                s,
                e + 3,
            ) {
                Some((e + 4, emit + shouty_snake_of(s.subrange(j, e)) + seq![' ', '=', '>', ' ']))
            } else {
                None
            }
        } else {
            None
        },
        Pattern::TupleArm => if char_at(s, i, '(') {
            let a = run_end(s, i + 1, CharClass::Alnum);
            let b = run_end(s, a + 2, CharClass::Alnum);
            let g = run_end(s, b + 1, CharClass::GapToken);
            if char_at(s, a, ',') && space_at(s, a + 1) && char_at(s, b, ')') && char_at(s, g, '=')
                && char_at(s, g + 1, '>') && space_at(s, g + 2) {
                Some(
                    (
                        g + 3,
                        seq!['('] + shouty_snake_of(s.subrange(i + 1, a)) + seq![',', ' ']
                            + s.subrange(a + 2, b) + seq![')'] + s.subrange(b + 1, g) + seq![
                            '=',
                            '>',
                            ' ',
                        ],
                    ),
                )
            } else {
                None
            }
        } else {
            None
        },
        Pattern::DigitSplit { head, tail, after } => {
            let d = i + head.len();
            if has_at(s, i, head) && 0 <= d < s.len() && is_digit(s[d]) && has_at(s, d + 1, tail) {
                let mid = if after {
                    seq![s[d], '_']
                } else {
                    seq!['_', s[d]]
                };
                Some((d + 1 + tail.len(), head + mid + tail))
            } else {
                None
            }
        },
    }
}

/// A match of `pat` that starts at `i` and consumes at least one character.
pub open spec fn step(pat: Pattern, s: Seq<char>, i: int) -> Option<(int, Seq<char>)> {
    match match_at(pat, s, i) {
        Some((e, rep)) => if i < e <= s.len() {
            Some((e, rep))
        } else {
            None
        },
        None => None,
    }
}

/// The text from position `i` on, with every match of `pat` replaced, scanning
/// from the left and resuming after each match.
pub open spec fn rewrite_from(pat: Pattern, s: Seq<char>, i: int) -> Seq<char>
    decreases s.len() - i,
{
    if 0 <= i < s.len() {
        match step(pat, s, i) {
            Some((e, rep)) => rep + rewrite_from(pat, s, e),
            None => seq![s[i]] + rewrite_from(pat, s, i + 1),
        }
    } else {
        Seq::empty()
    }
}

/// The whole text with every match of `pat` replaced.
pub open spec fn rewrite(pat: Pattern, s: Seq<char>) -> Seq<char> {
    rewrite_from(pat, s, 0)
}

/// Whether the trail fits at `k`.
fn trail_fits_at(s: &Vec<char>, k: usize, trail: &Vec<char>, bounded: bool) -> (r: bool)
    ensures
        r == trail_fits(s@, k as int, trail@, bounded),
{
    let present = occurs_at(s, k, trail);
    if !present {
        return false;
    }
    let n = s.len();
    let t = trail.len();
    assert(k + t <= n);
    if !bounded {
        return true;
    }
    let q = k + t;
    q == n || !word(s[q])
}

/// The largest position in `j..=top` at which the trail fits.
fn split_back_at(s: &Vec<char>, j: usize, top: usize, trail: &Vec<char>, bounded: bool) -> (r:
    Option<usize>)
    requires
        j <= top,
    ensures
        split_back(s@, j as int, top as int, trail@, bounded) == match r {
            Some(k) => Some(k as int),
            None => None::<int>,
        },
{
    let mut p: usize = top;
    loop
        invariant
            j <= p <= top,
            split_back(s@, j as int, top as int, trail@, bounded) == split_back(
                s@,
                j as int,
                p as int,
                trail@,
                bounded,
            ),
        decreases p,
    {
        if trail_fits_at(s, p, trail, bounded) {
            return Some(p);
        }
        if p == j {
            assert(split_back(s@, j as int, p - 1, trail@, bounded) == None::<int>);
            return None;
        }
        p = p - 1;
    }
}

/// The match of `rule` that starts at position `i` of `s`.
pub fn find_match(rule: &Rule, s: &Vec<char>, i: usize) -> (r: Option<(usize, Vec<char>)>)
    requires
        i < s.len(),
    ensures
        match_at(rule@, s@, i as int) == match r {
            Some((e, rep)) => Some((e as int, rep@)),
            None => None::<(int, Seq<char>)>,
        },
{
    match rule {
        Rule::CaseConvert { lead } => {
            if !occurs_at(s, i, lead) {
                return None;
            }
            let j = i + lead.len();
            let e = run_end_at(s, j, CharClass::CaseToken);
            proof {
                lemma_run_end_bounds(s@, j as int, CharClass::CaseToken);
            }
            let up = shouty_snake(&slice(s, j, e));
            Some((e, joined(lead, &up)))
        },
        Rule::BitFlag { lead, trail, emit } => {
            if !occurs_at(s, i, lead) {
                return None;
            }
            let j = i + lead.len();
            let top = run_end_at(s, j, CharClass::FlagToken);
            proof {
                lemma_run_end_bounds(s@, j as int, CharClass::FlagToken);
            }
            match split_back_at(s, j, top, trail, true) {
                Some(k) => {
                    proof {
                        lemma_split_back_bounds(s@, j as int, top as int, trail@, true);
                    }
                    Some((k + trail.len(), joined(emit, &slice(s, j, k))))
                },
                None => None,
            }
        },
        Rule::ExtensionName { lead, trail, head, tail } => {
            if !occurs_at(s, i, lead) {
                return None;
            }
            let j = i + lead.len();
            let top = run_end_at(s, j, CharClass::FlagToken);
            proof {
                lemma_run_end_bounds(s@, j as int, CharClass::FlagToken);
            }
            match split_back_at(s, j, top, trail, false) {
                Some(k) => {
                    proof {
                        lemma_split_back_bounds(s@, j as int, top as int, trail@, false);
                    }
                    let word = camel(&slice(s, j, k));
                    Some((k + trail.len(), joined(&joined(head, &word), tail)))
                },
                None => None,
            }
        },
        Rule::Rename { lead, emit } => {
            if !occurs_at(s, i, lead) {
                return None;
            }
            let j = i + lead.len();
            let e = run_end_at(s, j, CharClass::Upper);
            proof {
                lemma_run_end_bounds(s@, j as int, CharClass::Upper);
            }
            Some((e, joined(emit, &slice(s, j, e))))
        },
        Rule::Literal { old, new } => {
            if old.len() > 0 && occurs_at(s, i, old) {
                let mut rep: Vec<char> = Vec::new();
                push_all(&mut rep, new);
                assert(rep@ =~= new@);
                Some((i + old.len(), rep))
            } else {
                None
            }
        },
        Rule::ErrorArm { lead, emit } => {
            if !occurs_at(s, i, lead) {
                return None;
            }
            let j = i + lead.len();
            let e = run_end_at(s, j, CharClass::Letters);
            proof {
                lemma_run_end_bounds(s@, j as int, CharClass::Letters);
            }
            if e < s.len() && s.len() - e >= 4 && space(s[e]) && s[e + 1] == '=' && s[e + 2] == '>' && space(
                s[e + 3],
            ) {
                let up = shouty_snake(&slice(s, j, e));
                let arrow: Vec<char> = vec![' ', '=', '>', ' '];
                assert(arrow@ =~= seq![' ', '=', '>', ' ']);
                Some((e + 4, joined(&joined(emit, &up), &arrow)))
            } else {
                None
            }
        },
        Rule::TupleArm => find_tuple_arm(s, i),
        Rule::DigitSplit { head, tail, after } => {
            if !occurs_at(s, i, head) {
                return None;
            }
            let d = i + head.len();
            if d < s.len() && digit(s[d]) && occurs_at(s, d + 1, tail) {
                let mut mid: Vec<char> = Vec::new();
                if *after {
                    mid.push(s[d]);
                    mid.push('_');
                } else {
                    mid.push('_');
                    mid.push(s[d]);
                }
                Some((d + 1 + tail.len(), joined(&joined(head, &mid), tail)))
            } else {
                None
            }
        },
    }
}

/// The tuple-arm match that starts at position `i` of `s`.
fn find_tuple_arm(s: &Vec<char>, i: usize) -> (r: Option<(usize, Vec<char>)>)
    requires
        i < s.len(),
    ensures
        match_at(Pattern::TupleArm, s@, i as int) == match r {
            Some((e, rep)) => Some((e as int, rep@)),
            None => None::<(int, Seq<char>)>,
        },
{
    if s[i] != '(' {
        return None;
    }
    let a = run_end_at(s, i + 1, CharClass::Alnum);
    proof {
        lemma_run_end_bounds(s@, i + 1, CharClass::Alnum);
    }
    if !(a < s.len() && s.len() - a > 1 && s[a] == ',' && space(s[a + 1])) {
        return None;
    }
    let b = run_end_at(s, a + 2, CharClass::Alnum);
    proof {
        lemma_run_end_bounds(s@, a + 2, CharClass::Alnum);
    }
    if !(b < s.len() && s[b] == ')') {
        return None;
    }
    let g = run_end_at(s, b + 1, CharClass::GapToken);
    proof {
        lemma_run_end_bounds(s@, b + 1, CharClass::GapToken);
    }
    if !(g < s.len() && s.len() - g > 2 && s[g] == '=' && s[g + 1] == '>' && space(s[g + 2])) {
        return None;
    }
    let first = shouty_snake(&slice(s, i + 1, a));
    let mut rep: Vec<char> = vec!['('];
    push_all(&mut rep, &first);
    rep.push(',');
    rep.push(' ');
    push_all(&mut rep, &slice(s, a + 2, b));
    rep.push(')');
    push_all(&mut rep, &slice(s, b + 1, g));
    rep.push('=');
    rep.push('>');
    rep.push(' ');
    assert(rep@ =~= seq!['('] + shouty_snake_of(s@.subrange(i + 1, a as int)) + seq![',', ' ']
        + s@.subrange(a + 2, b as int) + seq![')'] + s@.subrange(b + 1, g as int) + seq![
        '=',
        '>',
        ' ',
    ]);
    Some((g + 3, rep))
}

proof fn lemma_split_back_bounds(s: Seq<char>, j: int, top: int, trail: Seq<char>, bounded: bool)
    ensures
        match split_back(s, j, top, trail, bounded) {
            Some(k) => j <= k <= top && has_at(s, k, trail),
            None => true,
        },
    decreases top + 1 - j,
{
    if top >= j && !trail_fits(s, top, trail, bounded) {
        lemma_split_back_bounds(s, j, top - 1, trail, bounded);
    }
}

/// Replaces every match of `rule` in `text`, scanning from the left and
/// resuming after each match.
pub fn apply_rule(rule: &Rule, text: &Vec<char>) -> (out: Vec<char>)
    ensures
        out@ == rewrite(rule@, text@),
{
    let mut out: Vec<char> = Vec::new();
    let mut i: usize = 0;
    while i < text.len()
        invariant
            i <= text.len(),
            out@ + rewrite_from(rule@, text@, i as int) == rewrite(rule@, text@),
        decreases text.len() - i,
    {
        let ghost before = out@;
        let found = find_match(rule, text, i);
        let mut matched = false;
        if let Some((e, rep)) = found {
            if i < e && e <= text.len() {
                push_all(&mut out, &rep);
                assert(out@ + rewrite_from(rule@, text@, e as int) =~= before + (rep@ + rewrite_from(
                    rule@,
                    text@,
                    e as int,
                )));
                i = e;
                matched = true;
            }
        }
        if !matched {
            let c = text[i];
            out.push(c);
            assert(out@ + rewrite_from(rule@, text@, i + 1) =~= before + (seq![c] + rewrite_from(
                rule@,
                text@,
                i + 1,
            )));
            i = i + 1;
        }
    }
    assert(out@ + rewrite_from(rule@, text@, i as int) =~= out@);
    out
}

/// A match is replaced as a whole, and the scan resumes right after it.
pub proof fn lemma_match_replaced(pat: Pattern, s: Seq<char>, i: int, e: int, rep: Seq<char>)
    requires
        0 <= i < s.len(),
        step(pat, s, i) == Some((e, rep)),
    ensures
        rewrite_from(pat, s, i) == rep + rewrite_from(pat, s, e),
{
}

/// Text in which no match of the pattern starts is copied to the output
/// unchanged: from `i` up to `j` the output holds the input's characters.
pub proof fn lemma_unmatched_text_kept(pat: Pattern, s: Seq<char>, i: int, j: int)
    requires
        0 <= i <= j <= s.len(),
        forall|p: int| i <= p < j ==> #[trigger] step(pat, s, p) is None,
    ensures
        rewrite_from(pat, s, i) == s.subrange(i, j) + rewrite_from(pat, s, j),
    decreases j - i,
{
    if i < j {
        lemma_unmatched_text_kept(pat, s, i + 1, j);
        assert(step(pat, s, i) is None);
        assert(s.subrange(i, j) =~= seq![s[i]] + s.subrange(i + 1, j));
    } else {
        assert(s.subrange(i, j) =~= Seq::<char>::empty());
    }
}

/// A text in which the pattern matches nowhere is left as it is.
pub proof fn lemma_unmatched_text_unchanged(pat: Pattern, s: Seq<char>)
    requires
        forall|p: int| 0 <= p < s.len() ==> #[trigger] step(pat, s, p) is None,
    ensures
        rewrite(pat, s) == s,
{
    lemma_unmatched_text_kept(pat, s, 0, s.len() as int);
    assert(s.subrange(0, s.len() as int) =~= s);
    assert(rewrite_from(pat, s, s.len() as int) =~= Seq::<char>::empty());
    assert(s + Seq::<char>::empty() =~= s);
}

/// Every match of `pat` in `s` would be replaced by the very text it spans:
/// the rule has nothing left to change.
pub open spec fn settled(pat: Pattern, s: Seq<char>) -> bool {
    forall|p: int|
        0 <= p < s.len() ==> match #[trigger] step(pat, s, p) {
            Some((e, rep)) => rep == s.subrange(p, e),
            None => true,
        }
}

proof fn lemma_settled_from(pat: Pattern, s: Seq<char>, i: int)
    requires
        0 <= i <= s.len(),
        settled(pat, s),
    ensures
        rewrite_from(pat, s, i) == s.subrange(i, s.len() as int),
    decreases s.len() - i,
{
    if i < s.len() {
        match step(pat, s, i) {
            Some((e, rep)) => {
                lemma_settled_from(pat, s, e);
                assert(s.subrange(i, s.len() as int) =~= s.subrange(i, e) + s.subrange(
                    e,
                    s.len() as int,
                ));
            },
            None => {
                lemma_settled_from(pat, s, i + 1);
                assert(s.subrange(i, s.len() as int) =~= seq![s[i]] + s.subrange(
                    i + 1,
                    s.len() as int,
                ));
            },
        }
    } else {
        assert(s.subrange(i, s.len() as int) =~= Seq::<char>::empty());
    }
}

/// A rule applied to text it has nothing left to change leaves that text as it is.
pub proof fn lemma_settled_text_unchanged(pat: Pattern, s: Seq<char>)
    requires
        settled(pat, s),
    ensures
        rewrite(pat, s) == s,
{
    lemma_settled_from(pat, s, 0);
    assert(s.subrange(0, s.len() as int) =~= s);
}

} // verus!
