//! The shape of an HTTP head that the parsers of `stream_httparse` read
//! without fault: an ASCII first line, header lines of the form
//! `key: value`, a blank line, and `Content-Length` values that are decimal
//! numbers no larger than the bytes at hand.
use vstd::prelude::*;

verus! {

/// The index of the first byte `b` at or after `i`, or the length of `s`
/// where there is none.
pub open spec fn find_from(s: Seq<u8>, b: u8, i: int) -> int
    decreases s.len() - i,
{
    if i < 0 || i >= s.len() {
        s.len() as int
    } else if s[i] == b {
        i
    } else {
        find_from(s, b, i + 1)
    }
}

/// Whether the bytes before `end` are ASCII.
pub open spec fn ascii_before(s: Seq<u8>, end: int) -> bool {
    forall|k: int| 0 <= k < end && k < s.len() ==> #[trigger] s[k] < 128
}

/// A byte with ASCII capitals made small.
pub open spec fn ascii_lower(b: u8) -> u8 {
    if 65 <= b <= 90 {
        (b + 32) as u8
    } else {
        b
    }
}

/// The name `content-length`, in small letters.
pub open spec fn content_length_name() -> Seq<u8> {
    seq![99u8, 111, 110, 116, 101, 110, 116, 45, 108, 101, 110, 103, 116, 104]
}

/// Whether the header key `k` is `Content-Length`, ignoring ASCII case.
pub open spec fn is_content_length_key(k: Seq<u8>) -> bool {
    &&& k.len() == content_length_name().len()
    &&& forall|i: int| 0 <= i < k.len() ==> ascii_lower(#[trigger] k[i]) == content_length_name()[i]
}

/// The number that the decimal digits `d` stand for.
pub open spec fn decimal_value(d: Seq<u8>) -> nat
    decreases d.len(),
{
    if d.len() == 0 {
        0
    } else {
        decimal_value(d.drop_last()) * 10 + (d.last() - 48) as nat
    }
}

/// Whether the bytes of `s` from `lo` up to `hi` are one or more decimal
/// digits that stand for a number no larger than the length of `s`.
pub open spec fn length_value_ok(s: Seq<u8>, lo: int, hi: int) -> bool {
    &&& 0 <= lo < hi <= s.len()
    &&& forall|k: int| lo <= k < hi ==> 48 <= #[trigger] s[k] <= 57
    &&& decimal_value(s.subrange(lo, hi)) <= s.len()
}

/// Whether the header lines from `i` on are each `key: value` followed by
/// CR LF, with a key of at least one byte and no `:` or CR in it, and a
/// value without CR (a decimal value of `Content-Length`), ended by a blank
/// line, and all bytes up to the blank line's end are ASCII.
pub open spec fn header_lines_ok(s: Seq<u8>, i: int) -> bool
    decreases s.len() - i,
{
    if i < 0 || i + 1 >= s.len() {
        false
    } else if s[i] == 13 {
        s[i + 1] == 10 && ascii_before(s, i + 2)
    } else {
        let c = find_from(s, 58, i);
        let r = find_from(s, 13, i);
        if i < c && c + 2 <= r && r + 1 < s.len() && s[c + 1] == 32 && s[r + 1] == 10 && (
        is_content_length_key(s.subrange(i, c)) ==> length_value_ok(s, c + 2, r)) {
            header_lines_ok(s, r + 2)
        } else {
            false
        }
    }
}

/// Whether `s` begins with a request head that the request parser reads
/// without fault: a first line with two spaces before its CR, then CR LF and
/// header lines as `header_lines_ok` says.
pub open spec fn request_head_ok(s: Seq<u8>) -> bool {
    let e = find_from(s, 13, 0);
    let s1 = find_from(s, 32, 0);
    &&& s1 < e
    &&& find_from(s, 32, s1 + 1) < e
    &&& e + 1 < s.len()
    &&& s[e + 1] == 10
    &&& header_lines_ok(s, e + 2)
}

/// Whether `s` begins with a response head that the response parser reads
/// without fault: a first line with a space before its CR, then CR LF and
/// header lines as `header_lines_ok` says.
pub open spec fn response_head_ok(s: Seq<u8>) -> bool {
    let e = find_from(s, 13, 0);
    &&& find_from(s, 32, 0) < e
    &&& e + 1 < s.len()
    &&& s[e + 1] == 10
    &&& header_lines_ok(s, e + 2)
}

/// The index of the first byte `b` at or after `i`, or the length of `s`.
fn find_byte(s: &[u8], b: u8, i: usize) -> (res: usize)
    requires
        i <= s@.len(),
    ensures
        res as int == find_from(s@, b, i as int),
        i <= res <= s@.len(),
{
    let mut j: usize = i;
    while j < s.len()
        invariant
            i <= j <= s@.len(),
            find_from(s@, b, i as int) == find_from(s@, b, j as int),
        decreases s@.len() - j,
    {
        if s[j] == b {
            return j;
        }
        j = j + 1;
    }
    j
}

/// Whether the bytes before `end` are ASCII.
fn ascii_upto(s: &[u8], end: usize) -> (res: bool)
    requires
        end <= s@.len(),
    ensures
        res == ascii_before(s@, end as int),
{
    let mut k: usize = 0;
    while k < end
        invariant
            k <= end <= s@.len(),
            forall|m: int| 0 <= m < k ==> #[trigger] s@[m] < 128,
        decreases end - k,
    {
        if s[k] >= 128 {
            return false;
        }
        k = k + 1;
    }
    true
}

/// Whether the key from `lo` up to `hi` is `Content-Length`, ignoring ASCII
/// case.
fn key_is_content_length(s: &[u8], lo: usize, hi: usize) -> (res: bool)
    requires
        lo <= hi <= s@.len(),
    ensures
        res == is_content_length_key(s@.subrange(lo as int, hi as int)),
{
    let name: [u8; 14] = [99u8, 111, 110, 116, 101, 110, 116, 45, 108, 101, 110, 103, 116, 104];
    assert(name@ =~= content_length_name());
    if hi - lo != 14 {
        return false;
    }
    let ghost k = s@.subrange(lo as int, hi as int);
    let mut i: usize = 0;
    while i < 14
        invariant
            i <= 14,
            hi - lo == 14,
            lo <= hi <= s@.len(),
            k == s@.subrange(lo as int, hi as int),
            name@ == content_length_name(),
            forall|m: int| 0 <= m < i ==> ascii_lower(#[trigger] k[m]) == content_length_name()[m],
        decreases 14 - i,
    {
        let b = s[lo + i];
        let lower: u8 = if 65 <= b && b <= 90 {
            b + 32
        } else {
            b
        };
        assert(k[i as int] == b);
        if lower != name[i] {
            return false;
        }
        i = i + 1;
    }
    true
}

/// Whether the bytes from `lo` up to `hi` are decimal digits for a number
/// no larger than the length of `s`.
fn length_value_checked(s: &[u8], lo: usize, hi: usize) -> (res: bool)
    requires
        lo <= hi <= s@.len(),
    ensures
        res == length_value_ok(s@, lo as int, hi as int),
{
    if lo == hi {
        return false;
    }
    let limit: u128 = s.len() as u128;
    let mut v: u128 = 0;
    let mut k: usize = lo;
    while k < hi
        invariant
            lo <= k <= hi <= s@.len(),
            limit == s@.len(),
            limit <= usize::MAX,
            forall|m: int| lo <= m < k ==> 48 <= #[trigger] s@[m] <= 57,
            v == if decimal_value(s@.subrange(lo as int, k as int)) <= limit {
                decimal_value(s@.subrange(lo as int, k as int))
            } else {
                (limit + 1) as nat
            },
        decreases hi - k,
    {
        let b = s[k];
        if b < 48 || b > 57 {
            return false;
        }
        proof {
            let p = s@.subrange(lo as int, k as int);
            let q = s@.subrange(lo as int, k + 1);
            assert(q.drop_last() =~= p);
            assert(q.last() == b);
        }
        let next = v * 10 + (b - 48) as u128;
        v = if next > limit {
            limit + 1
        } else {
            next
        };
        k = k + 1;
    }
    v <= limit
}

/// Whether the header lines from `i` on are as `header_lines_ok` says.
fn header_lines_checked(s: &[u8], from: usize) -> (res: bool)
    requires
        from <= s@.len(),
    ensures
        res == header_lines_ok(s@, from as int),
{
    let mut i: usize = from;
    let ghost start: int = from as int;
    while i < s.len()
        invariant
            start == from as int,
            start <= i <= s@.len(),
            header_lines_ok(s@, start) == header_lines_ok(s@, i as int),
        decreases s@.len() - i,
    {
        if i + 1 >= s.len() {
            return false;
        }
        if s[i] == 13 {
            return s[i + 1] == 10 && ascii_upto(s, i + 2);
        }
        let c = find_byte(s, 58, i);
        let r = find_byte(s, 13, i);
        if !(i < c && c < r && r - c >= 2 && r < s.len() && s.len() - r > 1) {
            return false;
        }
        if !(s[c + 1] == 32 && s[r + 1] == 10) {
            return false;
        }
        if key_is_content_length(s, i, c) && !length_value_checked(s, c + 2, r) {
            return false;
        }
        i = r + 2;
    }
    false
}

/// Whether `data` begins with a request head that the request parser reads
/// without fault.
pub fn request_head_checked(data: &[u8]) -> (res: bool)
    ensures
        res == request_head_ok(data@),
{
    let e = find_byte(data, 13, 0);
    let s1 = find_byte(data, 32, 0);
    if !(s1 < e) {
        return false;
    }
    let s2 = find_byte(data, 32, s1 + 1);
    if !(s2 < e && e < data.len() && data.len() - e > 1) {
        return false;
    }
    data[e + 1] == 10 && header_lines_checked(data, e + 2)
}

/// Whether `data` begins with a response head that the response parser
/// reads without fault.
pub fn response_head_checked(data: &[u8]) -> (res: bool)
    ensures
        res == response_head_ok(data@),
{
    let e = find_byte(data, 13, 0);
    let s1 = find_byte(data, 32, 0);
    if !(s1 < e && e < data.len() && data.len() - e > 1) {
        return false;
    }
    data[e + 1] == 10 && header_lines_checked(data, e + 2)
}

} // verus!
