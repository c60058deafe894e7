//! Parses matcher expressions such as ``Host(`a.b`) && PathPrefix(`/api/`)``.
use vstd::prelude::*;
use vstd::string::StrSliceExecFns;

use crate::rules::matcher::{lemma_model_combined, models, Matcher, SpecMatcher};
use crate::text::{
    chars_of, find_from, lemma_find_from, lemma_without_spaces_len, position_from, remove_spaces,
    str_eq, without_spaces,
};

pub mod find;

use find::{
    combinator_of, depth, is_top_level_op, lemma_inner_shorter, lemma_split_shorter, op_char, spec_inner,
    spec_split, split_from, Combinator,
};

verus! {

/// The Error returned when Parsing Matchers.
#[derive(Debug, PartialEq)]
pub enum ParseMatcherError {
    /// The given String was in an Invalid-Format and could not be parsed as a
    /// valid Matcher
    Invalid,
    /// The specified Matcher is unknown to the Load-Balancer
    UnknownMatcher {
        /// The Unknown-Key that was specified
        key: String,
    },
}

/// The model of a [`ParseMatcherError`].
pub enum SpecParseError {
    Invalid,
    UnknownMatcher(Seq<char>),
}

impl View for ParseMatcherError {
    type V = SpecParseError;

    open spec fn view(&self) -> SpecParseError {
        match self {
            ParseMatcherError::Invalid => SpecParseError::Invalid,
            ParseMatcherError::UnknownMatcher { key } => SpecParseError::UnknownMatcher(key@),
        }
    }
}

/// The text inside one pair of enclosing brackets, or the text itself when
/// it does not both start with `(` and end with `)`.
pub open spec fn spec_inner_scope(s: Seq<char>) -> Seq<char> {
    if s.len() >= 2 && s[0] == '(' && s.last() == ')' {
        s.subrange(1, s.len() - 1)
    } else {
        s
    }
}

/// The text between the first and the second backtick of `s` (up to the end
/// when there is no second one), or nothing without any backtick.
pub open spec fn tick_value(s: Seq<char>) -> Option<Seq<char>> {
    match find_from(s, '`', 0) {
        None => None,
        Some(p) => match find_from(s, '`', p + 1) {
            None => Some(s.subrange(p + 1, s.len() as int)),
            Some(q) => Some(s.subrange(p + 1, q)),
        },
    }
}

/// The matcher that joins two matchers with the given operator.
pub open spec fn combine(c: Combinator, first: SpecMatcher, second: SpecMatcher) -> SpecMatcher {
    match c {
        Combinator::And => SpecMatcher::And(seq![first, second]),
        Combinator::Or => SpecMatcher::Or(seq![first, second]),
    }
}

/// The matcher named by a key with its backtick value.
pub open spec fn single_matcher(key: Seq<char>, value: Seq<char>) -> Result<
    SpecMatcher,
    SpecParseError,
> {
    if key == "Host"@ {
        Ok(SpecMatcher::Domain(value))
    } else if key == "PathPrefix"@ {
        Ok(SpecMatcher::PathPrefix(value))
    } else {
        Err(SpecParseError::UnknownMatcher(key))
    }
}

/// What parsing a matcher expression yields: after removing all spaces, an
/// expression with a top-level `&&` or `||` is the combination of its two
/// parsed sides (each taken out of one pair of enclosing brackets, and any
/// failure there reported as `Invalid`); otherwise it must have the form
/// ``Key(...`value`...)``, where `Key` is `Host` or `PathPrefix`.
pub open spec fn spec_parse(raw: Seq<char>) -> Result<SpecMatcher, SpecParseError>
    decreases raw.len(),
{
    let s = without_spaces(raw);
    match spec_split(s) {
        Some((a, b, c)) => {
            proof {
                lemma_without_spaces_len(raw);
                lemma_split_shorter(s);
            }
            match spec_parse(spec_inner_scope(a)) {
                Err(_) => Err(SpecParseError::Invalid),
                Ok(first) => match spec_parse(spec_inner_scope(b)) {
                    Err(_) => Err(SpecParseError::Invalid),
                    Ok(second) => Ok(combine(c, first, second)),
                },
            }
        },
        None => match spec_inner(s) {
            None => Err(SpecParseError::Invalid),
            Some((key, inner)) => match tick_value(inner) {
                None => Err(SpecParseError::Invalid),
                Some(value) => single_matcher(key, value),
            },
        },
    }
}

/// Is simply used to get the inner part of something that is wrapped with
/// parentheses.
pub fn inner_scope(raw: &str) -> (res: &str)
    ensures
        res@ == spec_inner_scope(raw@),
{
    let chars = chars_of(raw);
    let n = chars.len();
    if n >= 2 && chars[0] == '(' && chars[n - 1] == ')' {
        raw.substring_char(1, n - 1)
    } else {
        raw
    }
}

/// Returns the text between the first two backticks of `raw`.
fn backtick_value(raw: &str) -> (res: Option<&str>)
    ensures
        match tick_value(raw@) {
            None => res is None,
            Some(v) => res matches Some(r) && r@ == v,
        },
{
    let chars = chars_of(raw);
    proof {
        lemma_find_from(raw@, '`', 0);
    }
    match position_from(&chars, '`', 0) {
        None => None,
        Some(p) => {
            proof {
                lemma_find_from(raw@, '`', p + 1);
            }
            match position_from(&chars, '`', p + 1) {
                None => Some(raw.substring_char(p + 1, chars.len())),
                Some(q) => Some(raw.substring_char(p + 1, q)),
            }
        },
    }
}

/// Parses a raw String that defines matchers.
pub fn parse_matchers(raw: &str) -> (res: Result<Matcher, ParseMatcherError>)
    ensures
        match res {
            Ok(m) => spec_parse(raw@) == Ok::<SpecMatcher, SpecParseError>(m@),
            Err(e) => spec_parse(raw@) == Err::<SpecMatcher, SpecParseError>(e@),
        },
    decreases raw@.len(),
{
    let cleaned = remove_spaces(raw);
    let raw2 = cleaned.as_str();
    proof {
        lemma_without_spaces_len(raw@);
        lemma_split_shorter(raw2@);
        lemma_inner_shorter(raw2@);
    }
    match find::split(raw2) {
        Some((first_part, second_part, combinator)) => {
            let first_part = inner_scope(first_part);
            let first = match parse_matchers(first_part) {
                Ok(v) => v,
                Err(_) => {
                    return Err(ParseMatcherError::Invalid);
                },
            };
            let second_part = inner_scope(second_part);
            let second = match parse_matchers(second_part) {
                Ok(v) => v,
                Err(_) => {
                    return Err(ParseMatcherError::Invalid);
                },
            };
            let ghost f = first@;
            let ghost g = second@;
            let parts = vec![first, second];
            proof {
                assert(models(parts@) =~= seq![f, g]);
                lemma_model_combined(parts);
            }
            match combinator {
                Combinator::And => Ok(Matcher::And(parts)),
                Combinator::Or => Ok(Matcher::Or(parts)),
            }
        },
        None => {
            let (key, raw_inner) = match find::inner(raw2) {
                Some(r) => r,
                None => {
                    return Err(ParseMatcherError::Invalid);
                },
            };
            let inner = match backtick_value(raw_inner) {
                Some(v) => v,
                None => {
                    return Err(ParseMatcherError::Invalid);
                },
            };
            if str_eq(key, "Host") {
                Ok(Matcher::Domain(inner.to_owned()))
            } else if str_eq(key, "PathPrefix") {
                Ok(Matcher::PathPrefix(inner.to_owned()))
            } else {
                Err(ParseMatcherError::UnknownMatcher { key: key.to_owned() })
            }
        },
    }
}

/// A text without spaces stays as it is when spaces are removed.
proof fn lemma_no_spaces_kept(s: Seq<char>)
    requires
        !s.contains(' '),
    ensures
        without_spaces(s) == s,
    decreases s.len(),
{
    if s.len() > 0 {
        let r = s.drop_last();
        assert(!r.contains(' ')) by {
            if r.contains(' ') {
                let k = choose|k: int| 0 <= k < r.len() && r[k] == ' ';
                assert(s[k] == ' ');
            }
        }
        lemma_no_spaces_kept(r);
        assert(s[s.len() - 1] != ' ');
        assert(r.push(s.last()) =~= s);
    }
}

/// The nesting level within a prefix does not depend on what follows it.
proof fn lemma_depth_prefix(x: Seq<char>, z: Seq<char>, i: int)
    requires
        0 <= i <= x.len(),
    ensures
        depth(x + z, i) == depth(x, i),
    decreases i,
{
    if i > 0 {
        lemma_depth_prefix(x, z, i - 1);
        assert((x + z)[i - 1] == x[i - 1]);
    }
}

/// Searching a joined text for its first top-level operator from any
/// position inside the left side finds the join.
proof fn lemma_split_at_join(x: Seq<char>, y: Seq<char>, c: Combinator, k: int)
    requires
        0 <= k <= x.len(),
        forall|m: int| 0 <= m < x.len() ==> !is_top_level_op(x, m),
        depth(x, x.len() as int) == 0,
    ensures
        split_from(x + seq![op_char(c), op_char(c)] + y, k) == Some((x, y, c)),
    decreases x.len() - k,
{
    let s = x + seq![op_char(c), op_char(c)] + y;
    let z = seq![op_char(c), op_char(c)] + y;
    assert(s =~= x + z);
    lemma_depth_prefix(x, z, k);
    if k < x.len() {
        assert(s[k] == x[k]);
        assert(!is_top_level_op(x, k));
        assert(!is_top_level_op(s, k));
        lemma_split_at_join(x, y, c, k + 1);
    } else {
        assert(s[k] == op_char(c));
        assert(s[k + 1] == op_char(c));
        assert(combinator_of(op_char(c)) == Some(c));
        assert(is_top_level_op(s, k));
        assert(s.take(k) =~= x);
        assert(s.skip(k + 2) =~= y);
    }
}

/// Parsing is compositional: joining an expression `x` that has no
/// operator outside brackets with any expression `y` by `&&` or `||` parses
/// to the combination of what each side parses to (each taken out of one
/// pair of enclosing brackets), whatever `y` holds, so no condition of `y`
/// is dropped; when a side does not parse, the whole is invalid.
pub proof fn lemma_parse_join(x: Seq<char>, y: Seq<char>, c: Combinator)
    requires
        !x.contains(' '),
        !y.contains(' '),
        forall|m: int| 0 <= m < x.len() ==> !is_top_level_op(x, m),
        depth(x, x.len() as int) == 0,
    ensures
        spec_parse(x + seq![op_char(c), op_char(c)] + y) == match (
            spec_parse(spec_inner_scope(x)),
            spec_parse(spec_inner_scope(y)),
        ) {
            (Ok(a), Ok(b)) => Ok(combine(c, a, b)),
            _ => Err(SpecParseError::Invalid),
        },
{
    let s = x + seq![op_char(c), op_char(c)] + y;
    assert(!s.contains(' ')) by {
        if s.contains(' ') {
            let k = choose|k: int| 0 <= k < s.len() && s[k] == ' ';
            if k < x.len() {
                assert(x[k] == ' ');
            } else if k >= x.len() + 2 {
                assert(y[k - x.len() - 2] == ' ');
            } else {
                assert(s[k] == op_char(c));
            }
        }
    }
    lemma_no_spaces_kept(s);
    lemma_split_at_join(x, y, c, 0);
}

/// Joining two expressions that each parse, the left one with no operator
/// outside brackets and neither wrapped in one pair of brackets, gives the
/// combination of both matchers: every condition of both sides is kept.
pub proof fn lemma_parse_join_parsed(x: Seq<char>, y: Seq<char>, c: Combinator, mx: SpecMatcher, my: SpecMatcher)
    requires
        !x.contains(' '),
        !y.contains(' '),
        forall|m: int| 0 <= m < x.len() ==> !is_top_level_op(x, m),
        depth(x, x.len() as int) == 0,
        spec_inner_scope(x) == x,
        spec_inner_scope(y) == y,
        spec_parse(x) == Ok::<SpecMatcher, SpecParseError>(mx),
        spec_parse(y) == Ok::<SpecMatcher, SpecParseError>(my),
    ensures
        spec_parse(x + seq![op_char(c), op_char(c)] + y) == Ok::<SpecMatcher, SpecParseError>(
            combine(c, mx, my),
        ),
{
    lemma_parse_join(x, y, c);
}

} // verus!
