//! Locating the structural parts of a matcher expression.
use vstd::prelude::*;
use vstd::string::StrSliceExecFns;

use crate::text::chars_of;

verus! {

/// The logical operator that joins two matcher expressions.
#[derive(Debug, Clone, Copy, PartialEq, Eq, Structural)]
pub enum Combinator {
    /// `&&`
    And,
    /// `||`
    Or,
}

/// How a character changes the bracket nesting level.
pub open spec fn bracket_delta(c: char) -> int {
    if c == '(' {
        1
    } else if c == ')' {
        -1
    } else {
        0
    }
}

/// The bracket nesting level after reading the first `i` characters of `s`
/// (opening brackets count up, closing brackets count down).
pub open spec fn depth(s: Seq<char>, i: int) -> int
    decreases i,
{
    if i <= 0 {
        0
    } else {
        depth(s, i - 1) + bracket_delta(s[i - 1])
    }
}

/// The operator that a character starts, if any.
pub open spec fn combinator_of(c: char) -> Option<Combinator> {
    if c == '&' {
        Some(Combinator::And)
    } else if c == '|' {
        Some(Combinator::Or)
    } else {
        None
    }
}

/// The character that an operator is written with (twice).
pub open spec fn op_char(c: Combinator) -> char {
    match c {
        Combinator::And => '&',
        Combinator::Or => '|',
    }
}

/// Whether position `i` of `s` holds an operator character outside of
/// any brackets.
pub open spec fn is_top_level_op(s: Seq<char>, i: int) -> bool {
    0 <= i < s.len() && depth(s, i) == 0 && combinator_of(s[i]) is Some
}

/// The result of splitting `s`, looking for the first top-level operator
/// character at or after position `i`: the parts before and after a doubled
/// operator, or nothing when that character is not doubled or there is none.
pub open spec fn split_from(s: Seq<char>, i: int) -> Option<(Seq<char>, Seq<char>, Combinator)>
    decreases s.len() - i,
{
    if i < 0 || i >= s.len() {
        None
    } else if is_top_level_op(s, i) {
        if i + 1 < s.len() && s[i + 1] == s[i] {
            Some((s.take(i), s.skip(i + 2), combinator_of(s[i])->0))
        } else {
            None
        }
    } else {
        split_from(s, i + 1)
    }
}

/// The split of `s` at its first top-level `&&` or `||`.
pub open spec fn spec_split(s: Seq<char>) -> Option<(Seq<char>, Seq<char>, Combinator)> {
    split_from(s, 0)
}

/// The position of the last opening bracket before position `i` that was read
/// at nesting level zero, or -1 if there is none.
pub open spec fn last_open_before(s: Seq<char>, i: int) -> int
    decreases i,
{
    if i <= 0 {
        -1
    } else if s[i - 1] == '(' && depth(s, i - 1) == 0 {
        i - 1
    } else {
        last_open_before(s, i - 1)
    }
}

/// The first bracket group of `s` at or after position `i`: the text before
/// its opening bracket and the text inside it, found at the first closing
/// bracket that brings the nesting level from one back to zero.
pub open spec fn inner_from(s: Seq<char>, i: int) -> Option<(Seq<char>, Seq<char>)>
    decreases s.len() - i,
{
    if i < 0 || i >= s.len() {
        None
    } else if s[i] == ')' && depth(s, i) == 1 {
        let p = last_open_before(s, i);
        Some((s.take(p), s.subrange(p + 1, i)))
    } else {
        inner_from(s, i + 1)
    }
}

/// The prefix before and the content of the first outermost bracket group.
pub open spec fn spec_inner(s: Seq<char>) -> Option<(Seq<char>, Seq<char>)> {
    inner_from(s, 0)
}

/// Whenever the nesting level is positive, an opening bracket was read at
/// level zero before.
pub proof fn lemma_open_exists(s: Seq<char>, i: int)
    requires
        0 <= i <= s.len(),
        depth(s, i) >= 1,
    ensures
        0 <= last_open_before(s, i) < i,
        s[last_open_before(s, i)] == '(',
    decreases i,
{
    if i > 0 {
        if !(s[i - 1] == '(' && depth(s, i - 1) == 0) {
            lemma_open_exists(s, i - 1);
        }
    }
}

/// Any split found from position `i` cuts `s` around a doubled operator at
/// some position `j >= i`.
pub proof fn lemma_split_from_shape(s: Seq<char>, i: int)
    ensures
        split_from(s, i) matches Some((a, b, c)) ==> exists|j: int|
            #![trigger s.take(j)]
            0 <= i <= j && j + 1 < s.len() && is_top_level_op(s, j) && a == s.take(j) && b == s.skip(
                j + 2,
            ) && s[j] == op_char(c) && s[j + 1] == op_char(c),
    decreases s.len() - i,
{
    if 0 <= i < s.len() && !is_top_level_op(s, i) {
        lemma_split_from_shape(s, i + 1);
    }
}

/// A split takes nothing away: the text is the part before, the doubled
/// operator character and the part after.
pub proof fn lemma_split_reassembles(s: Seq<char>)
    ensures
        spec_split(s) matches Some((a, b, c)) ==> s == a + seq![op_char(c), op_char(c)] + b,
{
    lemma_split_from_shape(s, 0);
    if let Some((a, b, c)) = spec_split(s) {
        let j = choose|j: int|
            #![trigger s.take(j)]
            0 <= j && j + 1 < s.len() && is_top_level_op(s, j) && a == s.take(j) && b == s.skip(j + 2)
                && s[j] == op_char(c) && s[j + 1] == op_char(c);
        assert(s =~= a + seq![op_char(c), op_char(c)] + b);
    }
}

/// A bracket group is read off the front of the text: the text starts with
/// the part before the group, `(`, the group and `)`.
pub proof fn lemma_inner_is_prefix(s: Seq<char>)
    ensures
        spec_inner(s) matches Some((a, b)) ==> (a + seq!['('] + b + seq![')']).is_prefix_of(s),
{
    lemma_inner_from_shape(s, 0);
    if let Some((a, b)) = spec_inner(s) {
        let (p, e) = choose|p: int, e: int|
            #![trigger s.take(p), s.subrange(p + 1, e)]
            0 <= p < e < s.len() && a == s.take(p) && b == s.subrange(p + 1, e) && s[p] == '('
                && s[e] == ')';
        assert((a + seq!['('] + b + seq![')']) =~= s.subrange(0, e + 1));
    }
}

/// Both parts of a split are strictly shorter than the split text.
pub proof fn lemma_split_shorter(s: Seq<char>)
    ensures
        spec_split(s) matches Some((a, b, c)) ==> a.len() < s.len() && b.len() < s.len(),
{
    lemma_split_from_shape(s, 0);
}

/// Any bracket group found from position `i` lies strictly inside `s`.
pub proof fn lemma_inner_from_shape(s: Seq<char>, i: int)
    ensures
        inner_from(s, i) matches Some((a, b)) ==> exists|p: int, e: int|
            #![trigger s.take(p), s.subrange(p + 1, e)]
            0 <= p < e < s.len() && a == s.take(p) && b == s.subrange(p + 1, e) && s[p] == '('
                && s[e] == ')',
    decreases s.len() - i,
{
    if 0 <= i < s.len() {
        if s[i] == ')' && depth(s, i) == 1 {
            lemma_open_exists(s, i);
            let p = last_open_before(s, i);
            assert(s.take(p) == s.take(p) && s.subrange(p + 1, i) == s.subrange(p + 1, i));
        } else {
            lemma_inner_from_shape(s, i + 1);
        }
    }
}

/// Both parts of a bracket group are strictly shorter than the text.
pub proof fn lemma_inner_shorter(s: Seq<char>)
    ensures
        spec_inner(s) matches Some((a, b)) ==> a.len() < s.len() && b.len() < s.len(),
{
    lemma_inner_from_shape(s, 0);
}

/// Searches for an `&&` or `||` that separates two parts on the
/// highest bracket level.
///
/// Returns the text before and after the operator, or `None` when the first
/// top-level `&` or `|` is not doubled or there is none.
pub fn split(raw: &str) -> (res: Option<(&str, &str, Combinator)>)
    ensures
        match spec_split(raw@) {
            None => res is None,
            Some((a, b, c)) => res matches Some((x, y, z)) && x@ == a && y@ == b && z == c,
        },
{
    let chars = chars_of(raw);
    let n = chars.len();
    let mut open: i128 = 0;
    let mut i: usize = 0;
    while i < n
        invariant
            n == chars@.len(),
            chars@ == raw@,
            0 <= i <= n,
            open == depth(raw@, i as int),
            -(i as int) <= open <= i,
            spec_split(raw@) == split_from(raw@, i as int),
        decreases n - i,
    {
        let c = chars[i];
        if c == '(' {
            open = open + 1;
        } else if c == ')' {
            open = open - 1;
        } else if (c == '&' || c == '|') && open == 0 {
            if i + 1 < n && chars[i + 1] == c {
                let comb = if c == '&' {
                    Combinator::And
                } else {
                    Combinator::Or
                };
                let first = raw.substring_char(0, i);
                let second = raw.substring_char(i + 2, n);
                assert(raw@.subrange(0, i as int) == raw@.take(i as int));
                assert(raw@.subrange(i + 2, n as int) == raw@.skip(i + 2));
                return Some((first, second, comb));
            } else {
                return None;
            }
        }
        i = i + 1;
    }
    None
}

/// Finds the first outermost bracket group: returns the text before its
/// opening bracket and the text inside it.
pub fn inner(raw: &str) -> (res: Option<(&str, &str)>)
    ensures
        match spec_inner(raw@) {
            None => res is None,
            Some((a, b)) => res matches Some((x, y)) && x@ == a && y@ == b,
        },
{
    let chars = chars_of(raw);
    let n = chars.len();
    let mut open: i128 = 0;
    let mut start: usize = 0;
    let mut i: usize = 0;
    while i < n
        invariant
            n == chars@.len(),
            chars@ == raw@,
            0 <= i <= n,
            open == depth(raw@, i as int),
            -(i as int) <= open <= i,
            last_open_before(raw@, i as int) >= 0 ==> start == last_open_before(raw@, i as int)
                + 1,
            spec_inner(raw@) == inner_from(raw@, i as int),
        decreases n - i,
    {
        let c = chars[i];
        if c == '(' {
            if open == 0 {
                start = i + 1;
            }
            open = open + 1;
        } else if c == ')' && open == 1 {
            proof {
                lemma_open_exists(raw@, i as int);
            }
            let prefix = raw.substring_char(0, start - 1);
            let content = raw.substring_char(start, i);
            assert(raw@.subrange(0, start - 1) == raw@.take(start - 1));
            return Some((prefix, content));
        } else if c == ')' {
            open = open - 1;
        }
        i = i + 1;
    }
    None
}

} // verus!
