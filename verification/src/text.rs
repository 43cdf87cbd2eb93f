//! Character-level helpers for the text that the launcher reads and emits.

use vstd::prelude::*;
use vstd::std_specs::iter::IteratorSpec;

verus! {

/// Whether `c` has the Unicode property `White_Space`: the controls from
/// tab to carriage return, the space, the next-line control, the no-break
/// space, the Ogham space mark, the spaces from en quad to hair space, the
/// line and paragraph separators, the narrow no-break space, the medium
/// mathematical space and the ideographic space.
pub open spec fn is_whitespace_char(c: char) -> bool {
    let code = c as u32;
    (0x09 <= code <= 0x0d) || code == 0x20 || code == 0x85 || code == 0xa0 || code == 0x1680 || (
    0x2000 <= code <= 0x200a) || code == 0x2028 || code == 0x2029 || code == 0x202f || code
        == 0x205f || code == 0x3000
}

/// Whether the character has the Unicode property `White_Space`.
pub fn char_is_whitespace(c: char) -> (res: bool)
    ensures
        res == is_whitespace_char(c),
{
    let code = c as u32;
    (0x09 <= code && code <= 0x0d) || code == 0x20 || code == 0x85 || code == 0xa0 || code
        == 0x1680 || (0x2000 <= code && code <= 0x200a) || code == 0x2028 || code == 0x2029
        || code == 0x202f || code == 0x205f || code == 0x3000
}

/// `String::from_iter` over a slice of characters: the string made of exactly
/// these characters, in this order.
#[verifier::external_body]
pub(crate) fn string_from_chars(chars: &[char]) -> (res: String)
    ensures
        res@ == chars@,
{
    String::from_iter(chars)
}

/// `core::str::from_utf8`: the bytes as a string where they are well-formed
/// UTF-8, and nothing otherwise.
#[verifier::external_body]
pub(crate) fn string_from_utf8(bytes: &[u8]) -> (res: Option<String>)
    ensures
        res is Some <==> vstd::utf8::valid_utf8(bytes@),
        res is Some ==> res->0@ == vstd::utf8::decode_utf8(bytes@),
{
    core::str::from_utf8(bytes).ok().map(String::from)
}

/// What `String::from_utf8_lossy` makes of `bytes`.
pub uninterp spec fn utf8_lossy(bytes: Seq<u8>) -> Seq<char>;

/// `String::from_utf8_lossy`: the bytes as a string, each malformed sequence
/// replaced by U+FFFD. Well-formed input is decoded unchanged; for the rest
/// the contract names the result.
#[verifier::external_body]
pub(crate) fn string_from_utf8_lossy(bytes: &[u8]) -> (res: String)
    ensures
        res@ == utf8_lossy(bytes@),
        vstd::utf8::valid_utf8(bytes@) ==> res@ == vstd::utf8::decode_utf8(bytes@),
{
    String::from_utf8_lossy(bytes).into_owned()
}

/// The characters of `s`, in order.
pub fn to_chars(s: &str) -> (res: Vec<char>)
    ensures
        res@ == s@,
{
    broadcast use vstd::string::group_string_axioms;
    let mut v: Vec<char> = Vec::new();
    for c in it: s.chars()
        invariant
            v@ == it.seq().take(it.index()),
            it.seq() == s@,
    {
        v.push(c);
    }
    v
}

/// What `{:?}` prints for a string: the string between double quotes, with
/// the characters that need it escaped.
pub uninterp spec fn debug_quoted(s: Seq<char>) -> Seq<char>;

/// The `Debug` formatting of `str`: the quoted, escaped form of the string.
/// Which characters are escaped and how is std's table, so the contract only
/// names the result.
#[verifier::external_body]
pub(crate) fn quote_debug(s: &str) -> (res: String)
    ensures
        res@ == debug_quoted(s@),
{
    format!("{:?}", s)
}

/// The three strings one after the other.
pub fn concat3(a: &str, b: &str, c: &str) -> (res: String)
    ensures
        res@ == a@ + b@ + c@,
{
    let mut s = a.to_owned();
    s.append(b);
    s.append(c);
    s
}

/// Whether two byte strings hold the same bytes.
pub fn bytes_eq(a: &[u8], b: &[u8]) -> (res: bool)
    ensures
        res == (a@ == b@),
{
    if a.len() != b.len() {
        return false;
    }
    let mut i: usize = 0;
    while i < a.len()
        invariant
            a.len() == b.len(),
            i <= a.len(),
            a@.take(i as int) == b@.take(i as int),
        decreases a.len() - i,
    {
        if a[i] != b[i] {
            return false;
        }
        assert(a@.take(i + 1) == a@.take(i as int).push(a@[i as int]));
        assert(b@.take(i + 1) == b@.take(i as int).push(b@[i as int]));
        i += 1;
    }
    assert(a@ == a@.take(a.len() as int));
    assert(b@ == b@.take(b.len() as int));
    true
}

/// Whether two strings hold the same characters.
pub fn str_eq(a: &str, b: &str) -> (res: bool)
    ensures
        res == (a@ == b@),
{
    proof {
        vstd::utf8::encode_utf8_decode_utf8(a@);
        vstd::utf8::encode_utf8_decode_utf8(b@);
    }
    bytes_eq(a.as_bytes(), b.as_bytes())
}

/// Length of `s` once its trailing white space is removed.
pub open spec fn trimmed_len(s: Seq<char>) -> nat
    decreases s.len(),
{
    if s.len() == 0 {
        0
    } else if is_whitespace_char(s.last()) {
        trimmed_len(s.drop_last())
    } else {
        s.len()
    }
}

/// `s` without its trailing white space.
pub open spec fn trim_end(s: Seq<char>) -> Seq<char> {
    s.take(trimmed_len(s) as int)
}

/// Where `chars[start..end]` ends once its trailing white space is removed.
pub fn trim_end_index(chars: &Vec<char>, start: usize, end: usize) -> (res: usize)
    requires
        start <= end <= chars.len(),
    ensures
        start <= res <= end,
        res - start == trimmed_len(chars@.subrange(start as int, end as int)),
        chars@.subrange(start as int, res as int) == trim_end(
            chars@.subrange(start as int, end as int),
        ),
{
    let mut n: usize = end;
    while n > start && char_is_whitespace(chars[n - 1])
        invariant
            start <= n <= end <= chars.len(),
            trimmed_len(chars@.subrange(start as int, end as int)) == trimmed_len(
                chars@.subrange(start as int, n as int),
            ),
        decreases n,
    {
        assert(chars@.subrange(start as int, n as int).drop_last() == chars@.subrange(
            start as int,
            n - 1,
        ));
        n -= 1;
    }
    assert(chars@.subrange(start as int, end as int).take(n - start) == chars@.subrange(
        start as int,
        n as int,
    ));
    n
}

/// The string made of `chars[start..end]`.
pub fn string_from_range(chars: &Vec<char>, start: usize, end: usize) -> (res: String)
    requires
        start <= end <= chars.len(),
    ensures
        res@ == chars@.subrange(start as int, end as int),
{
    string_from_chars(vstd::slice::slice_subrange(chars.as_slice(), start, end))
}

/// Index of the first line feed of `s`, or the length of `s` where it holds
/// none.
pub open spec fn first_newline(s: Seq<char>) -> int
    decreases s.len(),
{
    if s.len() == 0 || s[0] == '\n' {
        0
    } else {
        1 + first_newline(s.drop_first())
    }
}

/// The pieces of `s` between its line feeds: one more than there are line
/// feeds, empty pieces included.
pub open spec fn split_lines(s: Seq<char>) -> Seq<Seq<char>>
    decreases s.len(),
    via split_lines_decreases
{
    let i = first_newline(s);
    if i >= s.len() {
        seq![s]
    } else {
        seq![s.take(i)] + split_lines(s.skip(i + 1))
    }
}

#[via_fn]
proof fn split_lines_decreases(s: Seq<char>) {
    lemma_first_newline(s);
}

/// `first_newline` is the least index of a line feed.
pub proof fn lemma_first_newline(s: Seq<char>)
    ensures
        0 <= first_newline(s) <= s.len(),
        first_newline(s) < s.len() ==> s[first_newline(s)] == '\n',
        forall|j: int| 0 <= j < first_newline(s) ==> #[trigger] s[j] != '\n',
    decreases s.len(),
{
    if s.len() != 0 && s[0] != '\n' {
        let r = s.drop_first();
        lemma_first_newline(r);
        assert forall|j: int| 0 <= j < first_newline(s) implies #[trigger] s[j] != '\n' by {
            if j > 0 {
                assert(s[j] == r[j - 1]);
            }
        }
    }
}

/// What is known of `first_newline` from the position of a line feed with
/// none before it.
pub proof fn lemma_first_newline_at(s: Seq<char>, k: int)
    requires
        0 <= k <= s.len(),
        forall|j: int| 0 <= j < k ==> #[trigger] s[j] != '\n',
        k < s.len() ==> s[k] == '\n',
    ensures
        first_newline(s) == k,
{
    lemma_first_newline(s);
    let f = first_newline(s);
    if f < k {
        assert(s[f] != '\n');
    } else if f > k {
        assert(s[k] != '\n');
    }
}

/// The lines of a payload: its trailing white space goes, what is left is
/// split at its line feeds, and each line loses its own trailing white space.
pub open spec fn payload_lines(s: Seq<char>) -> Seq<Seq<char>> {
    split_lines(trim_end(s)).map_values(|line: Seq<char>| trim_end(line))
}

/// The character sequences that a sequence of strings stands for.
pub open spec fn strings_view(v: Seq<String>) -> Seq<Seq<char>> {
    v.map_values(|s: String| s@)
}

/// A copy of the strings.
pub fn clone_strings(strings: &Vec<String>) -> (res: Vec<String>)
    ensures
        strings_view(res@) == strings_view(strings@),
{
    let mut copy: Vec<String> = Vec::new();
    let mut i: usize = 0;
    while i < strings.len()
        invariant
            i <= strings.len(),
            copy.len() == i,
            forall|j: int| 0 <= j < i ==> (#[trigger] copy@[j])@ == strings@[j]@,
        decreases strings.len() - i,
    {
        copy.push(strings[i].clone());
        i += 1;
    }
    assert(strings_view(copy@) =~= strings_view(strings@));
    copy
}

/// Splits a payload into its lines: trailing white space is dropped from the
/// payload and from each of its lines.
pub fn split_payload(text: &str) -> (res: Vec<String>)
    ensures
        strings_view(res@) == payload_lines(text@),
        res.len() >= 1,
{
    let chars = to_chars(text);
    let end = trim_end_index(&chars, 0, chars.len());
    let ghost t = chars@.take(end as int);
    let ghost trim = |line: Seq<char>| trim_end(line);
    assert(chars@.subrange(0, chars.len() as int) == chars@);
    assert(t == trim_end(text@));
    let mut lines: Vec<String> = Vec::new();
    let mut start: usize = 0;
    let mut i: usize = 0;
    assert(t.skip(0) == t);
    assert(strings_view(lines@) + split_lines(t).map_values(trim) == split_lines(t).map_values(
        trim,
    ));
    while i < end
        invariant
            start <= i <= end <= chars.len(),
            t == chars@.take(end as int),
            trim == |line: Seq<char>| trim_end(line),
            forall|j: int| start <= j < i ==> #[trigger] chars@[j] != '\n',
            split_lines(t).map_values(trim) == strings_view(lines@) + split_lines(
                t.skip(start as int),
            ).map_values(trim),
        decreases end - i,
    {
        if chars[i] == '\n' {
            let stop = trim_end_index(&chars, start, i);
            let line = string_from_range(&chars, start, stop);
            proof {
                let rest = t.skip(start as int);
                assert forall|j: int| 0 <= j < i - start implies #[trigger] rest[j] != '\n' by {
                    assert(rest[j] == chars@[start + j]);
                }
                lemma_first_newline_at(rest, i - start);
                assert(rest.take(i - start) == chars@.subrange(start as int, i as int));
                assert(rest.skip(i - start + 1) == t.skip(i + 1));
                let head = seq![rest.take(i - start)];
                let tail = split_lines(t.skip(i + 1));
                assert(split_lines(rest) == head + tail);
                assert((head + tail).map_values(trim) == head.map_values(trim) + tail.map_values(
                    trim,
                ));
                assert(head.map_values(trim) == seq![line@]);
                assert(strings_view(lines@.push(line)) == strings_view(lines@) + seq![line@]);
                assert(strings_view(lines@) + (seq![line@] + tail.map_values(trim))
                    == strings_view(lines@.push(line)) + tail.map_values(trim));
            }
            lines.push(line);
            start = i + 1;
        }
        i += 1;
    }
    let stop = trim_end_index(&chars, start, end);
    let line = string_from_range(&chars, start, stop);
    proof {
        let rest = t.skip(start as int);
        assert forall|j: int| 0 <= j < end - start implies #[trigger] rest[j] != '\n' by {
            assert(rest[j] == chars@[start + j]);
        }
        lemma_first_newline_at(rest, end - start);
        assert(rest == chars@.subrange(start as int, end as int));
        assert(split_lines(rest) == seq![rest]);
        assert(seq![rest].map_values(trim) == seq![line@]);
        assert(strings_view(lines@.push(line)) == strings_view(lines@) + seq![line@]);
    }
    lines.push(line);
    lines
}

/// Whether `b` is an ASCII decimal digit.
pub open spec fn is_digit(b: u8) -> bool {
    48 <= b <= 57
}

/// Whether `s` holds ASCII decimal digits only.
pub open spec fn all_digits(s: Seq<u8>) -> bool {
    forall|i: int| 0 <= i < s.len() ==> is_digit(#[trigger] s[i])
}

/// The number that a sequence of ASCII decimal digits writes.
pub open spec fn digits_value(s: Seq<u8>) -> int
    decreases s.len(),
{
    if s.len() == 0 {
        0
    } else {
        digits_value(s.drop_last()) * 10 + (s.last() - 48)
    }
}

/// The integer that `s` writes in decimal: an optional sign, then at least
/// one digit and nothing else.
pub open spec fn parse_decimal(s: Seq<u8>) -> Option<int> {
    let signed = s.len() > 0 && (s[0] == 43 || s[0] == 45);
    let digits = if signed {
        s.skip(1)
    } else {
        s
    };
    if digits.len() == 0 || !all_digits(digits) {
        None
    } else if signed && s[0] == 45 {
        Some(-digits_value(digits))
    } else {
        Some(digits_value(digits))
    }
}

/// The 64-bit integer that `s` writes in decimal, where it is one.
pub open spec fn parse_i64(s: Seq<u8>) -> Option<i64> {
    match parse_decimal(s) {
        Some(v) => if i64::MIN <= v <= i64::MAX {
            Some(v as i64)
        } else {
            None
        },
        None => None,
    }
}

/// A longer digit string writes no smaller number than its prefixes.
pub proof fn lemma_digits_value_grows(s: Seq<u8>, n: int)
    requires
        0 <= n <= s.len(),
        forall|i: int| 0 <= i < s.len() ==> is_digit(#[trigger] s[i]),
    ensures
        0 <= digits_value(s.take(n)) <= digits_value(s),
    decreases s.len() - n,
{
    lemma_digits_value_nonnegative(s.take(n));
    if n == s.len() {
        assert(s.take(n) == s);
    } else {
        lemma_digits_value_grows(s, n + 1);
        assert(s.take(n + 1).drop_last() == s.take(n));
        assert(is_digit(s[n]));
    }
}

/// A digit string writes a natural number.
pub proof fn lemma_digits_value_nonnegative(s: Seq<u8>)
    requires
        forall|i: int| 0 <= i < s.len() ==> is_digit(#[trigger] s[i]),
    ensures
        0 <= digits_value(s),
    decreases s.len(),
{
    if s.len() > 0 {
        lemma_digits_value_nonnegative(s.drop_last());
        assert(is_digit(s[s.len() - 1]));
    }
}

/// Reads a 64-bit integer written in decimal, with an optional sign.
pub fn parse_i64_decimal(bytes: &[u8]) -> (res: Option<i64>)
    ensures
        res == parse_i64(bytes@),
{
    let n = bytes.len();
    if n == 0 {
        return None;
    }
    let negative = bytes[0] == 45;
    let first: usize = if bytes[0] == 43 || bytes[0] == 45 {
        1
    } else {
        0
    };
    let ghost digits = if first == 1 {
        bytes@.skip(1)
    } else {
        bytes@
    };
    if first == n {
        return None;
    }
    let mut i: usize = first;
    while i < n
        invariant
            first <= i <= n == bytes.len(),
            n > 0,
            first == (if bytes@[0] == 43 || bytes@[0] == 45 { 1usize } else { 0usize }),
            digits == (if first == 1 { bytes@.skip(1) } else { bytes@ }),
            forall|j: int| 0 <= j < i - first ==> is_digit(#[trigger] digits[j]),
        decreases n - i,
    {
        if bytes[i] < 48 || bytes[i] > 57 {
            assert(!is_digit(digits[i - first]));
            return None;
        }
        i += 1;
    }
    let limit: u64 = if negative {
        0x8000_0000_0000_0000
    } else {
        0x7fff_ffff_ffff_ffff
    };
    let mut acc: u64 = 0;
    let mut k: usize = first;
    while k < n
        invariant
            first <= k <= n == bytes.len(),
            n > 0,
            first == (if bytes@[0] == 43 || bytes@[0] == 45 { 1usize } else { 0usize }),
            negative == (bytes@[0] == 45),
            digits == (if first == 1 { bytes@.skip(1) } else { bytes@ }),
            forall|j: int| 0 <= j < digits.len() ==> is_digit(#[trigger] digits[j]),
            acc == digits_value(digits.take(k - first)),
            acc <= limit,
            limit == if negative { 0x8000_0000_0000_0000u64 } else { 0x7fff_ffff_ffff_ffffu64 },
        decreases n - k,
    {
        proof {
            assert(is_digit(digits[k - first]));
            assert(digits.take(k - first + 1).drop_last() == digits.take(k - first));
            lemma_digits_value_grows(digits, k - first + 1);
        }
        let d: u64 = (bytes[k] - 48) as u64;
        if acc > (limit - d) / 10 {
            proof {
                let next = digits_value(digits.take(k - first + 1));
                assert(next == acc * 10 + d);
                assert(next > limit);
                assert(digits_value(digits) > limit);
                assert(parse_decimal(bytes@) == Some(
                    if negative {
                        -digits_value(digits)
                    } else {
                        digits_value(digits)
                    },
                ));
            }
            return None;
        }
        acc = acc * 10 + d;
        k += 1;
    }
    assert(digits.take(n - first) == digits);
    if negative {
        if acc == 0x8000_0000_0000_0000 {
            Some(i64::MIN)
        } else {
            Some(0 - (acc as i64))
        }
    } else {
        Some(acc as i64)
    }
}

} // verus!
