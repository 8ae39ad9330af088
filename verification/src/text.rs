//! Character-level helpers: whitespace trimming, locating the field separator,
//! and reading unsigned decimal numbers.
//!
//! Every function has a mathematical counterpart over `Seq<char>`; the
//! executable versions work on a vector of characters so that each scan is
//! linear in the length of the text.

use vstd::prelude::*;
use vstd::string::*;
use vstd::utf8::*;

verus! {

broadcast use vstd::string::group_string_axioms;

/// The characters that Unicode classes as `White_Space`.
pub open spec fn is_whitespace(c: char) -> bool {
    let n = c as u32;
    ||| 0x09 <= n <= 0x0d
    ||| n == 0x20
    ||| n == 0x85
    ||| n == 0xa0
    ||| n == 0x1680
    ||| 0x2000 <= n <= 0x200a
    ||| n == 0x2028
    ||| n == 0x2029
    ||| n == 0x202f
    ||| n == 0x205f
    ||| n == 0x3000
}

/// Index of the first character at or after `from` that is not whitespace,
/// or `s.len()` when there is none.
pub open spec fn skip_whitespace(s: Seq<char>, from: int) -> int
    decreases s.len() - from,
{
    if 0 <= from < s.len() && is_whitespace(s[from]) {
        skip_whitespace(s, from + 1)
    } else {
        from
    }
}

/// The end of `s.take(upto)` once its trailing whitespace is dropped.
pub open spec fn drop_trailing_whitespace(s: Seq<char>, upto: int) -> int
    decreases upto,
{
    if 0 < upto <= s.len() && is_whitespace(s[upto - 1]) {
        drop_trailing_whitespace(s, upto - 1)
    } else {
        upto
    }
}

/// `s` without its leading and trailing whitespace.
pub open spec fn trim(s: Seq<char>) -> Seq<char> {
    let start = skip_whitespace(s, 0);
    let end = drop_trailing_whitespace(s, s.len() as int);
    if start < end {
        s.subrange(start, end)
    } else {
        Seq::empty()
    }
}

/// Index of the first `':'` at or after `from`, or `s.len()` when there is none.
pub open spec fn colon_position(s: Seq<char>, from: int) -> int
    decreases s.len() - from,
{
    if 0 <= from < s.len() && s[from] != ':' {
        colon_position(s, from + 1)
    } else {
        from
    }
}

/// The ASCII decimal digits.
pub open spec fn is_digit(c: char) -> bool {
    '0' as u32 <= c as u32 <= '9' as u32
}

/// The number that a digit denotes.
pub open spec fn digit_value(c: char) -> nat {
    (c as u32 - '0' as u32) as nat
}

/// Whether every character of `s` is a digit.
pub open spec fn all_digits(s: Seq<char>) -> bool {
    forall|i: int| 0 <= i < s.len() ==> is_digit(#[trigger] s[i])
}

/// The number that the decimal digits `s` denote, most significant digit first.
pub open spec fn digits_value(s: Seq<char>) -> nat
    decreases s.len(),
{
    if s.len() == 0 {
        0
    } else {
        digits_value(s.drop_last()) * 10 + digit_value(s.last())
    }
}

/// Reads an unsigned decimal number: an optional `'+'` followed by one or
/// more digits and nothing else.
pub open spec fn parse_unsigned(s: Seq<char>) -> Option<nat> {
    let digits = if s.len() > 0 && s[0] == '+' {
        s.drop_first()
    } else {
        s
    };
    if digits.len() > 0 && all_digits(digits) {
        Some(digits_value(digits))
    } else {
        None
    }
}

/// `parse_unsigned`, limited to what a `usize` holds.
pub open spec fn parse_usize_spec(s: Seq<char>) -> Option<usize> {
    match parse_unsigned(s) {
        Some(n) => if n <= usize::MAX {
            Some(n as usize)
        } else {
            None
        },
        None => None,
    }
}

/// Appending a digit never makes the denoted number smaller.
proof fn lemma_digits_value_monotonic(s: Seq<char>, k: int)
    requires
        0 <= k <= s.len(),
    ensures
        digits_value(s.take(k)) <= digits_value(s),
    decreases s.len() - k,
{
    if k < s.len() {
        lemma_digits_value_monotonic(s.drop_last(), k);
        assert(s.drop_last().take(k) == s.take(k));
    } else {
        assert(s.take(k) == s);
    }
}

/// The first colon at or after `from` is where `colon_position` says.
pub proof fn lemma_colon_position_is_first(s: Seq<char>, from: int, at: int)
    requires
        0 <= from <= at <= s.len(),
        at < s.len() ==> s[at] == ':',
        forall|i: int| from <= i < at ==> s[i] != ':',
    ensures
        colon_position(s, from) == at,
    decreases at - from,
{
    if from < at {
        lemma_colon_position_is_first(s, from + 1, at);
    }
}

/// Text that neither starts nor ends with whitespace.
pub open spec fn is_trimmed(s: Seq<char>) -> bool {
    s.len() > 0 ==> !is_whitespace(s.first()) && !is_whitespace(s.last())
}

/// Trimming leaves trimmed text as it is.
pub proof fn lemma_trim_of_trimmed(s: Seq<char>)
    requires
        is_trimmed(s),
    ensures
        trim(s) == s,
{
}

/// Trimming takes one leading space off trimmed text.
pub proof fn lemma_trim_after_space(s: Seq<char>)
    requires
        is_trimmed(s),
    ensures
        trim(seq![' '] + s) == s,
{
    let line = seq![' '] + s;
    assert(skip_whitespace(line, 1) == 1);
    if s.len() == 0 {
        assert(drop_trailing_whitespace(line, 0) == 0);
    }
}

/// Whether `c` is whitespace.
pub fn char_is_whitespace(c: char) -> (r: bool)
    ensures
        r == is_whitespace(c),
{
    let n: u32 = c as u32;
    (0x09 <= n && n <= 0x0d) || n == 0x20 || n == 0x85 || n == 0xa0 || n == 0x1680 || (0x2000 <= n
        && n <= 0x200a) || n == 0x2028 || n == 0x2029 || n == 0x202f || n == 0x205f || n == 0x3000
}

/// Decodes UTF-8: the text that `bytes` encode, or `None` when they are not
/// a valid encoding.
///
/// Trusted: the body calls `String::from_utf8`, which is documented to fail
/// exactly when its argument is not valid UTF-8 and otherwise to keep the
/// bytes as the text's encoding.
#[verifier::external_body]
pub(crate) fn decode_text(bytes: Vec<u8>) -> (r: Option<String>)
    ensures
        r is Some <==> valid_utf8(bytes@),
        r matches Some(s) ==> s@ == decode_utf8(bytes@),
{
    match String::from_utf8(bytes) {
        Ok(s) => Some(s),
        Err(_) => None,
    }
}

/// The characters of `s`, in order.
pub fn chars_of(s: &str) -> (v: Vec<char>)
    ensures
        v@ == s@,
{
    let mut v: Vec<char> = Vec::new();
    for c in it: s.chars()
        invariant
            it.seq() == s@,
            v@ == it.seq().take(it.index()),
    {
        v.push(c);
    }
    v
}

/// Whether two texts hold the same characters.
pub fn text_eq(a: &str, b: &str) -> (r: bool)
    ensures
        r == (a@ == b@),
{
    let x = a.to_owned();
    let y = b.to_owned();
    x == y
}

/// Position of the first `':'` in `v`, or `v.len()`.
pub fn find_colon(v: &Vec<char>) -> (at: usize)
    ensures
        at == colon_position(v@, 0),
        at <= v.len(),
{
    let mut i: usize = 0;
    while i < v.len() && v[i] != ':'
        invariant
            i <= v.len(),
            colon_position(v@, 0) == colon_position(v@, i as int),
        decreases v.len() - i,
    {
        i += 1;
    }
    i
}

/// Bounds of `v[lo..hi]` once trimmed: the trimmed text is `v[r.0..r.1]`.
pub fn trim_range(v: &Vec<char>, lo: usize, hi: usize) -> (r: (usize, usize))
    requires
        lo <= hi <= v.len(),
    ensures
        lo <= r.0 <= r.1 <= hi,
        v@.subrange(r.0 as int, r.1 as int) == trim(v@.subrange(lo as int, hi as int)),
{
    let ghost part = v@.subrange(lo as int, hi as int);
    let mut start: usize = lo;
    while start < hi && char_is_whitespace(v[start])
        invariant
            lo <= start <= hi <= v.len(),
            part == v@.subrange(lo as int, hi as int),
            skip_whitespace(part, 0) == skip_whitespace(part, start - lo),
        decreases hi - start,
    {
        start += 1;
    }
    let mut end: usize = hi;
    while end > start && char_is_whitespace(v[end - 1])
        invariant
            lo <= start <= end <= hi <= v.len(),
            part == v@.subrange(lo as int, hi as int),
            drop_trailing_whitespace(part, part.len() as int) == drop_trailing_whitespace(
                part,
                end - lo,
            ),
        decreases end - start,
    {
        end -= 1;
    }
    proof {
        assert(skip_whitespace(part, 0) == start - lo);
        if end == start {
            // Everything before `start` is whitespace, so nothing is left.
            lemma_trailing_whitespace_stops_early(part, start - lo, end - lo);
        }
    }
    (start, end)
}

/// When the leading whitespace of `s` reaches `start`, dropping trailing
/// whitespace from any `upto <= start` leaves nothing.
proof fn lemma_trailing_whitespace_stops_early(s: Seq<char>, start: int, upto: int)
    requires
        0 <= upto <= start <= s.len(),
        skip_whitespace(s, 0) == start,
    ensures
        drop_trailing_whitespace(s, upto) == 0,
    decreases upto,
{
    if upto > 0 {
        lemma_leading_whitespace(s, 0, upto - 1);
        lemma_trailing_whitespace_stops_early(s, start, upto - 1);
    }
}

/// Every character before the end of the leading whitespace is whitespace.
proof fn lemma_leading_whitespace(s: Seq<char>, from: int, i: int)
    requires
        0 <= from <= i < skip_whitespace(s, from),
        i < s.len(),
    ensures
        is_whitespace(s[i]),
    decreases i - from,
{
    if from < i {
        lemma_leading_whitespace(s, from + 1, i);
    }
}

/// Reads an unsigned decimal number that fits a `usize`.
pub fn parse_usize(s: &str) -> (r: Option<usize>)
    ensures
        r == parse_usize_spec(s@),
{
    let v = chars_of(s);
    let first: usize = if v.len() > 0 && v[0] == '+' {
        1
    } else {
        0
    };
    let ghost digits = if s@.len() > 0 && s@[0] == '+' {
        s@.drop_first()
    } else {
        s@
    };
    if first == v.len() {
        return None;
    }
    let mut value: usize = 0;
    let mut i: usize = first;
    while i < v.len()
        invariant
            first <= i <= v.len(),
            first < v.len(),
            digits == v@.skip(first as int),
            parse_unsigned(s@) == if all_digits(digits) {
                Some(digits_value(digits))
            } else {
                None
            },
            all_digits(digits.take(i - first)),
            value == digits_value(digits.take(i - first)),
        decreases v.len() - i,
    {
        let c = v[i];
        let n: u32 = c as u32;
        assert(digits[i - first] == c);
        if n < 0x30 || n > 0x39 {
            return None;
        }
        let d: usize = (n - 0x30) as usize;
        proof {
            let next = digits.take(i + 1 - first);
            assert(next.drop_last() == digits.take(i - first));
            lemma_digits_value_monotonic(digits, i + 1 - first);
        }
        let scaled = match value.checked_mul(10) {
            Some(x) => x,
            None => {
                return None;
            },
        };
        value = match scaled.checked_add(d) {
            Some(x) => x,
            None => {
                return None;
            },
        };
        i += 1;
    }
    proof {
        assert(digits.take(i - first) == digits);
    }
    Some(value)
}

} // verus!
