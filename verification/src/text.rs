//! Character-level helpers on string slices.
use vstd::prelude::*;

verus! {

broadcast use vstd::string::group_string_axioms;

/// Collects the characters of `s` into a vector.
pub fn chars_of(s: &str) -> (v: Vec<char>)
    ensures
        v@ == s@,
{
    let mut v: Vec<char> = Vec::new();
    for c in it: s.chars()
        invariant
            v@ == it.seq().take(it.index() as int),
            it.seq() == s@,
    {
        v.push(c);
    }
    v
}

/// Builds a string from a sequence of characters.
///
/// Trusted: calls std's `FromIterator<&char> for String` (`collect`), which
/// documents that the string holds the given characters in order.
#[verifier::external_body]
pub fn string_from_chars(v: &[char]) -> (s: String)
    ensures
        s@ == v@,
{
    v.iter().collect()
}

/// `s` with every space character removed.
pub open spec fn without_spaces(s: Seq<char>) -> Seq<char>
    decreases s.len(),
{
    if s.len() == 0 {
        s
    } else {
        let rest = without_spaces(s.drop_last());
        if s.last() == ' ' {
            rest
        } else {
            rest.push(s.last())
        }
    }
}

/// Removing spaces never makes a text longer.
pub proof fn lemma_without_spaces_len(s: Seq<char>)
    ensures
        without_spaces(s).len() <= s.len(),
    decreases s.len(),
{
    if s.len() > 0 {
        lemma_without_spaces_len(s.drop_last());
    }
}

/// Returns `raw` without its space characters.
pub fn remove_spaces(raw: &str) -> (res: String)
    ensures
        res@ == without_spaces(raw@),
{
    let chars = chars_of(raw);
    let mut out: Vec<char> = Vec::new();
    let mut i: usize = 0;
    while i < chars.len()
        invariant
            chars@ == raw@,
            0 <= i <= chars@.len(),
            out@ == without_spaces(raw@.take(i as int)),
        decreases chars@.len() - i,
    {
        let c = chars[i];
        assert(raw@.take(i + 1).drop_last() == raw@.take(i as int));
        if c != ' ' {
            out.push(c);
        }
        i = i + 1;
    }
    assert(raw@.take(chars@.len() as int) == raw@);
    string_from_chars(out.as_slice())
}

/// Whether two string slices hold the same characters.
pub fn str_eq(a: &str, b: &str) -> (res: bool)
    ensures
        res == (a@ == b@),
{
    let x = chars_of(a);
    let y = chars_of(b);
    if x.len() != y.len() {
        return false;
    }
    let mut i: usize = 0;
    while i < x.len()
        invariant
            x@ == a@,
            y@ == b@,
            x@.len() == y@.len(),
            0 <= i <= x@.len(),
            forall|j: int| 0 <= j < i ==> x@[j] == y@[j],
        decreases x@.len() - i,
    {
        if x[i] != y[i] {
            return false;
        }
        i = i + 1;
    }
    assert(a@ =~= b@);
    true
}

/// The position of the first `c` in `s` at or after position `i`.
pub open spec fn find_from(s: Seq<char>, c: char, i: int) -> Option<int>
    decreases s.len() - i,
{
    if i < 0 || i >= s.len() {
        None
    } else if s[i] == c {
        Some(i)
    } else {
        find_from(s, c, i + 1)
    }
}

/// A position found by `find_from` lies in range and holds the character.
pub proof fn lemma_find_from(s: Seq<char>, c: char, i: int)
    requires
        0 <= i,
    ensures
        find_from(s, c, i) matches Some(p) ==> i <= p < s.len() && s[p] == c,
        find_from(s, c, i) is None ==> forall|j: int| i <= j < s.len() ==> s[j] != c,
    decreases s.len() - i,
{
    if 0 <= i < s.len() && s[i] != c {
        lemma_find_from(s, c, i + 1);
    }
}

/// Returns the position of the first `c` in `v` at or after `from`.
pub fn position_from(v: &Vec<char>, c: char, from: usize) -> (res: Option<usize>)
    ensures
        match res {
            None => find_from(v@, c, from as int) is None,
            Some(p) => find_from(v@, c, from as int) == Some(p as int) && from <= p < v@.len(),
        },
{
    let mut i = from;
    while i < v.len()
        invariant
            from <= i,
            find_from(v@, c, from as int) == find_from(v@, c, i as int),
        decreases v@.len() - i,
    {
        if v[i] == c {
            proof {
                lemma_find_from(v@, c, i as int);
            }
            return Some(i);
        }
        i = i + 1;
    }
    None
}

} // verus!

verus! {

/// `c` with ASCII upper-case letters mapped to lower case.
pub open spec fn ascii_lower_char(c: char) -> char {
    if 'A' <= c && c <= 'Z' {
        ((c as u32) + 32) as char
    } else {
        c
    }
}

/// `s` with ASCII upper-case letters mapped to lower case.
pub open spec fn ascii_lower(s: Seq<char>) -> Seq<char> {
    s.map_values(|c: char| ascii_lower_char(c))
}

/// Returns `s` with ASCII upper-case letters mapped to lower case.
pub fn to_ascii_lowercase(s: &str) -> (res: String)
    ensures
        res@ == ascii_lower(s@),
{
    let chars = chars_of(s);
    let mut out: Vec<char> = Vec::new();
    let mut i: usize = 0;
    while i < chars.len()
        invariant
            chars@ == s@,
            0 <= i <= chars@.len(),
            out@ == ascii_lower(s@.take(i as int)),
        decreases chars@.len() - i,
    {
        let c = chars[i];
        let l = if 'A' <= c && c <= 'Z' {
            lower_letter(c)
        } else {
            c
        };
        out.push(l);
        assert(ascii_lower(s@.take(i + 1)) =~= ascii_lower(s@.take(i as int)).push(l));
        i = i + 1;
    }
    assert(s@.take(chars@.len() as int) == s@);
    string_from_chars(out.as_slice())
}

/// The lower-case letter of an ASCII upper-case letter.
fn lower_letter(c: char) -> (res: char)
    requires
        'A' <= c && c <= 'Z',
    ensures
        res == ascii_lower_char(c),
{
    let code: u32 = c as u32;
    assert(65 <= code <= 90);
    let lower: u8 = (code + 32) as u8;
    lower as char
}

/// Whether `c` has the Unicode `White_Space` property, which is what
/// `char::is_whitespace` tests.
pub open spec fn is_white_space(c: char) -> bool {
    ||| ('\u{9}' <= c && c <= '\u{d}')
    ||| c == ' '
    ||| c == '\u{85}'
    ||| c == '\u{a0}'
    ||| c == '\u{1680}'
    ||| ('\u{2000}' <= c && c <= '\u{200a}')
    ||| c == '\u{2028}'
    ||| c == '\u{2029}'
    ||| c == '\u{202f}'
    ||| c == '\u{205f}'
    ||| c == '\u{3000}'
}

/// Tests `c` for the Unicode `White_Space` property.
pub fn white_space(c: char) -> (res: bool)
    ensures
        res == is_white_space(c),
{
    ('\u{9}' <= c && c <= '\u{d}') || c == ' ' || c == '\u{85}' || c == '\u{a0}' || c == '\u{1680}'
        || ('\u{2000}' <= c && c <= '\u{200a}') || c == '\u{2028}' || c == '\u{2029}' || c
        == '\u{202f}' || c == '\u{205f}' || c == '\u{3000}'
}

/// The number of white space characters at the start of `s`.
pub open spec fn leading_white(s: Seq<char>) -> int
    decreases s.len(),
{
    if s.len() > 0 && is_white_space(s[0]) {
        1 + leading_white(s.skip(1))
    } else {
        0
    }
}

/// The number of white space characters at the end of `s`.
pub open spec fn trailing_white(s: Seq<char>) -> int
    decreases s.len(),
{
    if s.len() > 0 && is_white_space(s.last()) {
        1 + trailing_white(s.drop_last())
    } else {
        0
    }
}

/// `s` without white space at its start and its end.
pub open spec fn trim(s: Seq<char>) -> Seq<char> {
    let t = s.skip(leading_white(s));
    t.take(t.len() - trailing_white(t))
}

/// The white space counted at an end lies within the text.
pub proof fn lemma_white_bounds(s: Seq<char>)
    ensures
        0 <= leading_white(s) <= s.len(),
        0 <= trailing_white(s) <= s.len(),
    decreases s.len(),
{
    if s.len() > 0 {
        lemma_white_bounds(s.skip(1));
        lemma_white_bounds(s.drop_last());
    }
}

/// Returns `raw[from..to]` without white space at its start and end.
pub fn trimmed_range(raw: &str, chars: &Vec<char>, from: usize, to: usize) -> (res: String)
    requires
        chars@ == raw@,
        from <= to <= chars@.len(),
    ensures
        res@ == trim(raw@.subrange(from as int, to as int)),
{
    let ghost s = raw@.subrange(from as int, to as int);
    let mut a = from;
    while a < to && white_space(chars[a])
        invariant
            chars@ == raw@,
            from <= a <= to <= chars@.len(),
            s == raw@.subrange(from as int, to as int),
            leading_white(s) == (a - from) + leading_white(raw@.subrange(a as int, to as int)),
        decreases to - a,
    {
        assert(raw@.subrange(a as int, to as int).skip(1) =~= raw@.subrange(a + 1, to as int));
        a = a + 1;
    }
    assert(leading_white(raw@.subrange(a as int, to as int)) == 0);
    let ghost t = s.skip(leading_white(s));
    assert(t =~= raw@.subrange(a as int, to as int));
    let mut b = to;
    while b > a && white_space(chars[b - 1])
        invariant
            chars@ == raw@,
            from <= a <= b <= to <= chars@.len(),
            t == raw@.subrange(a as int, to as int),
            trailing_white(t) == (to - b) + trailing_white(raw@.subrange(a as int, b as int)),
        decreases b - a,
    {
        assert(raw@.subrange(a as int, b as int).drop_last() =~= raw@.subrange(a as int, b - 1));
        b = b - 1;
    }
    assert(trailing_white(raw@.subrange(a as int, b as int)) == 0);
    assert(t.take(t.len() - trailing_white(t)) =~= raw@.subrange(a as int, b as int));
    raw.substring_char(a, b).to_owned()
}

/// The pieces of `s` from position `start` on, cut at every `c`.
pub open spec fn pieces_from(s: Seq<char>, c: char, start: int) -> Seq<Seq<char>>
    decreases s.len() - start,
{
    if start < 0 || start > s.len() {
        Seq::empty()
    } else {
        proof {
            lemma_find_from(s, c, start);
        }
        match find_from(s, c, start) {
            None => seq![s.subrange(start, s.len() as int)],
            Some(p) => if p < start {
                Seq::empty()
            } else {
                seq![s.subrange(start, p)] + pieces_from(s, c, p + 1)
            },
        }
    }
}

/// The trimmed pieces of `s` cut at every `,`, as `str::split(',')` followed
/// by trimming each piece yields them.
pub open spec fn comma_list(s: Seq<char>) -> Seq<Seq<char>> {
    pieces_from(s, ',', 0).map_values(|p: Seq<char>| trim(p))
}

/// Splits `raw` at every `,` and trims each piece.
pub fn split_commas_trimmed(raw: &str) -> (res: Vec<String>)
    ensures
        res@.map_values(|p: String| p@) == comma_list(raw@),
{
    let chars = chars_of(raw);
    let mut out: Vec<String> = Vec::new();
    let mut start: usize = 0;
    loop
        invariant
            chars@ == raw@,
            0 <= start <= chars@.len(),
            out@.map_values(|p: String| p@) + pieces_from(raw@, ',', start as int).map_values(
                |p: Seq<char>| trim(p),
            ) == comma_list(raw@),
        decreases chars@.len() - start,
    {
        proof {
            lemma_find_from(raw@, ',', start as int);
        }
        match position_from(&chars, ',', start) {
            None => {
                let piece = trimmed_range(raw, &chars, start, chars.len());
                let ghost before = out@;
                out.push(piece);
                proof {
                    assert(out@.map_values(|p: String| p@) =~= before.map_values(|p: String| p@).push(
                        piece@,
                    ));
                    assert(pieces_from(raw@, ',', start as int).map_values(|p: Seq<char>| trim(p))
                        =~= seq![piece@]);
                }
                return out;
            },
            Some(p) => {
                let piece = trimmed_range(raw, &chars, start, p);
                let ghost before = out@;
                out.push(piece);
                proof {
                    assert(out@.map_values(|p: String| p@) =~= before.map_values(|p: String| p@).push(
                        piece@,
                    ));
                    assert(pieces_from(raw@, ',', start as int).map_values(|p: Seq<char>| trim(p))
                        =~= seq![piece@] + pieces_from(raw@, ',', p + 1).map_values(
                        |p: Seq<char>| trim(p),
                    ));
                }
                assert(p < chars.len());
                start = p + 1;
            },
        }
    }
}

/// The decimal digits of `n`.
pub open spec fn decimal(n: nat) -> Seq<char>
    decreases n,
{
    if n < 10 {
        seq![digit_char(n)]
    } else {
        decimal(n / 10).push(digit_char(n % 10))
    }
}

/// The character of a decimal digit.
pub open spec fn digit_char(d: nat) -> char {
    (('0' as u32) + d) as char
}

/// Writes `n` in decimal.
pub fn usize_to_string(n: usize) -> (res: String)
    ensures
        res@ == decimal(n as nat),
{
    let mut digits: Vec<char> = Vec::new();
    let mut m = n;
    while m >= 10
        invariant
            decimal(n as nat) == decimal(m as nat) + digits@.reverse(),
        decreases m,
    {
        let c = digit((m % 10) as u32);
        let ghost before = digits@;
        digits.push(c);
        assert(decimal(m as nat) == decimal((m / 10) as nat).push(c));
        assert(digits@.reverse() =~= seq![c] + before.reverse());
        m = m / 10;
    }
    let c = digit(m as u32);
    let ghost before = digits@;
    digits.push(c);
    assert(decimal(m as nat) == seq![c]);
    assert(digits@.reverse() =~= seq![c] + before.reverse());
    assert(digits@.take(digits@.len() as int) == digits@);
    let mut out: Vec<char> = Vec::new();
    let mut i = digits.len();
    while i > 0
        invariant
            i <= digits@.len(),
            out@ + digits@.take(i as int).reverse() == decimal(n as nat),
        decreases i,
    {
        let ghost before = out@;
        out.push(digits[i - 1]);
        assert(digits@.take(i as int).reverse() =~= seq![digits@[i - 1]] + digits@.take(i - 1).reverse());
        i = i - 1;
    }
    assert(digits@.take(0).reverse() =~= Seq::<char>::empty());
    string_from_chars(out.as_slice())
}

/// The character of a decimal digit.
fn digit(d: u32) -> (res: char)
    requires
        d < 10,
    ensures
        res == digit_char(d as nat),
{
    let b: u8 = (48 + d) as u8;
    b as char
}

} // verus!

verus! {

/// Whether `c` is an ASCII decimal digit.
pub open spec fn is_digit(c: char) -> bool {
    '0' <= c && c <= '9'
}

/// The value of an ASCII decimal digit.
pub open spec fn digit_value(c: char) -> nat {
    ((c as u32) - ('0' as u32)) as nat
}

/// The value of a sequence of decimal digits.
pub open spec fn digits_value(s: Seq<char>) -> nat
    decreases s.len(),
{
    if s.len() == 0 {
        0
    } else {
        digits_value(s.drop_last()) * 10 + digit_value(s.last())
    }
}

/// The text after one leading `+`, if there is one and more follows.
pub open spec fn unsigned_digits(s: Seq<char>) -> Seq<char> {
    if s.len() > 1 && s[0] == '+' {
        s.skip(1)
    } else {
        s
    }
}

/// Whether every character of `d` is a decimal digit.
pub open spec fn all_digits(d: Seq<char>) -> bool {
    forall|i: int| 0 <= i < d.len() ==> is_digit(#[trigger] d[i])
}

/// The `u8` that `str::parse::<u8>` reads from `s`: an optional `+`
/// followed by at least one decimal digit, with a value of at most 255.
pub open spec fn parse_u8_spec(s: Seq<char>) -> Option<u8> {
    let d = unsigned_digits(s);
    if d.len() == 0 || !all_digits(d) || digits_value(d) > 255 {
        None
    } else {
        Some(digits_value(d) as u8)
    }
}

/// Parses a decimal `u8` the way `str::parse::<u8>` does.
pub fn parse_u8(s: &str) -> (res: Option<u8>)
    ensures
        res == parse_u8_spec(s@),
{
    let chars = chars_of(s);
    let n = chars.len();
    let start: usize = if n > 1 && chars[0] == '+' {
        1
    } else {
        0
    };
    let ghost d = unsigned_digits(s@);
    assert(d =~= s@.subrange(start as int, n as int));
    if start == n {
        return None;
    }
    let mut value: u32 = 0;
    let mut i = start;
    while i < n
        invariant
            chars@ == s@,
            n == chars@.len(),
            start <= i <= n,
            d == s@.subrange(start as int, n as int),
            d == unsigned_digits(s@),
            forall|j: int| start <= j < i ==> is_digit(#[trigger] s@[j]),
            value as nat == if digits_value(s@.subrange(start as int, i as int)) > 256 {
                256
            } else {
                digits_value(s@.subrange(start as int, i as int))
            },
        decreases n - i,
    {
        let c = chars[i];
        if !('0' <= c && c <= '9') {
            assert(d[i - start] == c && !is_digit(d[i - start]));
            return None;
        }
        let dv: u32 = (c as u32) - 48;
        assert(s@.subrange(start as int, i + 1).drop_last() =~= s@.subrange(start as int, i as int));
        let next = value * 10 + dv;
        value = if next > 256 {
            256
        } else {
            next
        };
        i = i + 1;
    }
    assert forall|j: int| 0 <= j < d.len() implies is_digit(#[trigger] d[j]) by {
        assert(d[j] == s@[j + start]);
    }
    if value > 255 {
        None
    } else {
        Some(value as u8)
    }
}

} // verus!

verus! {

/// The text `s` in lower case as Unicode defines it (`str::to_lowercase`).
pub uninterp spec fn unicode_lowercase(s: Seq<char>) -> Seq<char>;

/// Maps the text to lower case.
///
/// Trusted: calls `str::to_lowercase`, whose result depends on the text
/// alone and is named by `unicode_lowercase`.
#[verifier::external_body]
pub fn to_lowercase(s: &str) -> (res: String)
    ensures
        res@ == unicode_lowercase(s@),
{
    s.to_lowercase()
}

} // verus!
