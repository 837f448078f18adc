//! Character sequences: trimming, splitting at the two-space separator,
//! prefixes, lines and numbers.

use vstd::prelude::*;
use vstd::slice::{slice_subrange, slice_to_vec};
use crate::code::char_byte;

verus! {

/// `s` without the spaces it starts with.
pub open spec fn trim_start(s: Seq<char>) -> Seq<char>
    decreases s.len(),
{
    if s.len() > 0 && s[0] == ' ' {
        trim_start(s.skip(1))
    } else {
        s
    }
}

/// `s` without the spaces it ends with.
pub open spec fn trim_end(s: Seq<char>) -> Seq<char>
    decreases s.len(),
{
    if s.len() > 0 && s.last() == ' ' {
        trim_end(s.drop_last())
    } else {
        s
    }
}

/// `s` without the spaces at either end.
pub open spec fn trim(s: Seq<char>) -> Seq<char> {
    trim_end(trim_start(s))
}

/// Where the first pair of adjacent spaces in `s` starts.
pub open spec fn find_gap(s: Seq<char>) -> Option<int>
    decreases s.len(),
{
    if s.len() < 2 {
        None
    } else if s[0] == ' ' && s[1] == ' ' {
        Some(0int)
    } else {
        match find_gap(s.skip(1)) {
            Some(i) => Some(i + 1),
            None => None,
        }
    }
}

/// What stands before and after the first pair of adjacent spaces in `s`.
pub open spec fn split_gap(s: Seq<char>) -> Option<(Seq<char>, Seq<char>)> {
    match find_gap(s) {
        Some(i) => Some((s.take(i), s.skip(i + 2))),
        None => None,
    }
}

/// What follows `prefix` in `s`, where `s` starts with it.
pub open spec fn strip_prefix(s: Seq<char>, prefix: Seq<char>) -> Option<Seq<char>> {
    if prefix.is_prefix_of(s) {
        Some(s.skip(prefix.len() as int))
    } else {
        None
    }
}

/// Where `find_gap` finds a pair of spaces, there is one.
pub proof fn lemma_find_gap(s: Seq<char>)
    ensures
        find_gap(s) matches Some(i) ==> 0 <= i && i + 2 <= s.len() && s[i] == ' ' && s[i + 1]
            == ' ' && (s[0] != ' ' ==> i >= 1),
    decreases s.len(),
{
    if s.len() >= 2 && !(s[0] == ' ' && s[1] == ' ') {
        lemma_find_gap(s.skip(1));
    }
}

/// What is left of a text without the spaces at either end neither starts
/// nor ends with a space.
pub proof fn lemma_trim(s: Seq<char>)
    ensures
        trim(s).len() > 0 ==> trim(s)[0] != ' ' && trim(s).last() != ' ',
{
    lemma_trim_start(s);
    lemma_trim_end(trim_start(s));
}

proof fn lemma_trim_start(s: Seq<char>)
    ensures
        trim_start(s).len() > 0 ==> trim_start(s)[0] != ' ',
    decreases s.len(),
{
    if s.len() > 0 && s[0] == ' ' {
        lemma_trim_start(s.skip(1));
    }
}

proof fn lemma_trim_end(s: Seq<char>)
    ensures
        trim_end(s).len() > 0 ==> trim_end(s).last() != ' ' && trim_end(s)[0] == s[0],
    decreases s.len(),
{
    if s.len() > 0 && s.last() == ' ' {
        lemma_trim_end(s.drop_last());
    }
}

/// The slice without its leading spaces.
pub fn skip_spaces<'a>(s: &'a [char]) -> (r: &'a [char])
    ensures
        r@ == trim_start(s@),
{
    let n: usize = s.len();
    let mut i: usize = 0;
    assert(s@.skip(0) =~= s@);
    while i < n && s[i] == ' '
        invariant
            i <= n,
            n == s@.len(),
            trim_start(s@) == trim_start(s@.skip(i as int)),
        decreases n - i,
    {
        assert(s@.skip(i as int).skip(1) =~= s@.skip(i + 1));
        i += 1;
    }
    slice_subrange(s, i, n)
}

/// The slice without its trailing spaces.
pub fn drop_spaces<'a>(s: &'a [char]) -> (r: &'a [char])
    ensures
        r@ == trim_end(s@),
{
    let mut n: usize = s.len();
    assert(s@.take(n as int) =~= s@);
    while n > 0 && s[n - 1] == ' '
        invariant
            n <= s@.len(),
            trim_end(s@) == trim_end(s@.take(n as int)),
        decreases n,
    {
        assert(s@.take(n as int).drop_last() =~= s@.take(n - 1));
        n -= 1;
    }
    slice_subrange(s, 0, n)
}

/// The slice without the spaces at either end.
pub fn trim_spaces<'a>(s: &'a [char]) -> (r: &'a [char])
    ensures
        r@ == trim(s@),
{
    drop_spaces(skip_spaces(s))
}

/// Splits the slice at its first pair of adjacent spaces.
pub fn split_at_gap<'a>(s: &'a [char]) -> (r: Option<(&'a [char], &'a [char])>)
    ensures
        match r {
            Some((head, tail)) => split_gap(s@) == Some((head@, tail@)),
            None => split_gap(s@) is None,
        },
{
    let n: usize = s.len();
    let mut i: usize = 0;
    assert(s@.skip(0) =~= s@);
    while n - i >= 2
        invariant
            i <= n,
            n == s@.len(),
            find_gap(s@) == match find_gap(s@.skip(i as int)) {
                Some(k) => Some(k + i),
                None => None,
            },
        decreases n - i,
    {
        if s[i] == ' ' && s[i + 1] == ' ' {
            return Some((slice_subrange(s, 0, i), slice_subrange(s, i + 2, n)));
        }
        assert(s@.skip(i as int).skip(1) =~= s@.skip(i + 1));
        i += 1;
    }
    None
}

/// Whether the slice holds exactly the characters of `text`.
pub fn equals(s: &[char], text: &str) -> (r: bool)
    ensures
        r == (s@ == text@),
{
    let n: usize = text.unicode_len();
    if s.len() != n {
        return false;
    }
    let mut i: usize = 0;
    while i < n
        invariant
            i <= n,
            n == s@.len(),
            n == text@.len(),
            s@.take(i as int) == text@.take(i as int),
        decreases n - i,
    {
        if s[i] != text.get_char(i) {
            return false;
        }
        i += 1;
    }
    assert(s@.take(n as int) =~= s@);
    assert(text@.take(n as int) =~= text@);
    true
}

/// What follows `prefix` in the slice, where the slice starts with it.
pub fn after_prefix<'a>(s: &'a [char], prefix: &str) -> (r: Option<&'a [char]>)
    ensures
        match r {
            Some(rest) => strip_prefix(s@, prefix@) == Some(rest@),
            None => strip_prefix(s@, prefix@) is None,
        },
{
    let n: usize = prefix.unicode_len();
    if s.len() < n {
        return None;
    }
    let head = slice_subrange(s, 0, n);
    if equals(head, prefix) {
        Some(slice_subrange(s, n, s.len()))
    } else {
        None
    }
}

/// Appends the character to the string's text, as `String::push` is
/// documented to do.
pub assume_specification[ String::push ](s: &mut String, c: char)
    ensures
        final(s)@ == old(s)@.push(c),
;

/// The characters of a string.
pub fn to_chars(text: &str) -> (chars: Vec<char>)
    ensures
        chars@ == text@,
{
    let mut chars: Vec<char> = Vec::new();
    for c in it: text.chars()
        invariant
            it.seq() == text@,
            chars@ =~= text@.take(it.index()),
    {
        chars.push(c);
    }
    chars
}

/// A string of the given characters.
pub fn to_string(chars: &[char]) -> (text: String)
    ensures
        text@ == chars@,
{
    let mut text = String::new();
    let n: usize = chars.len();
    let mut i: usize = 0;
    while i < n
        invariant
            i <= n,
            n == chars@.len(),
            text@ =~= chars@.take(i as int),
        decreases n - i,
    {
        text.push(chars[i]);
        i += 1;
    }
    text
}

/// How many characters stand before the first `c` in `s`, or in all of `s`
/// where it holds none.
pub open spec fn count_before(s: Seq<char>, c: char) -> int
    decreases s.len(),
{
    if s.len() == 0 || s[0] == c {
        0
    } else {
        1 + count_before(s.skip(1), c)
    }
}

/// What stands before and after the first `c` in `s`.
pub open spec fn split_char(s: Seq<char>, c: char) -> Option<(Seq<char>, Seq<char>)> {
    let i = count_before(s, c);
    if 0 <= i < s.len() {
        Some((s.take(i), s.skip(i + 1)))
    } else {
        None
    }
}

/// `s` without the carriage return it ends with, if it ends with one.
pub open spec fn strip_cr(s: Seq<char>) -> Seq<char> {
    if s.len() > 0 && s.last() == '\r' {
        s.drop_last()
    } else {
        s
    }
}

/// The lines of a text. A line ends with a line feed, or with a carriage
/// return and a line feed, neither of which belongs to it; the last line need
/// not end with one.
pub open spec fn split_lines(s: Seq<char>) -> Seq<Seq<char>>
    decreases s.len(),
{
    let i = count_before(s, '\n');
    if s.len() == 0 {
        Seq::empty()
    } else if 0 <= i < s.len() {
        seq![strip_cr(s.take(i))] + split_lines(s.skip(i + 1))
    } else {
        seq![s]
    }
}

/// The contents of a vector of lines.
pub open spec fn lines_view(lines: Seq<Vec<char>>) -> Seq<Seq<char>> {
    Seq::new(lines.len(), |i: int| lines[i]@)
}

/// How many characters stand before the first `c` in the slice.
pub fn find_char(s: &[char], c: char) -> (i: usize)
    ensures
        i == count_before(s@, c),
        i <= s@.len(),
{
    let n: usize = s.len();
    let mut i: usize = 0;
    assert(s@.skip(0) =~= s@);
    while i < n && s[i] != c
        invariant
            i <= n,
            n == s@.len(),
            count_before(s@, c) == i + count_before(s@.skip(i as int), c),
        decreases n - i,
    {
        assert(s@.skip(i as int).skip(1) =~= s@.skip(i + 1));
        i += 1;
    }
    i
}

/// Splits the slice at its first `c`.
pub fn split_at_char<'a>(s: &'a [char], c: char) -> (r: Option<(&'a [char], &'a [char])>)
    ensures
        match r {
            Some((head, tail)) => split_char(s@, c) == Some((head@, tail@)),
            None => split_char(s@, c) is None,
        },
{
    let i: usize = find_char(s, c);
    if i < s.len() {
        Some((slice_subrange(s, 0, i), slice_subrange(s, i + 1, s.len())))
    } else {
        None
    }
}

/// Whether the slice starts with the characters of `prefix`.
pub fn starts_with(s: &[char], prefix: &str) -> (r: bool)
    ensures
        r == prefix@.is_prefix_of(s@),
{
    after_prefix(s, prefix).is_some()
}

/// Splits a text into its lines.
pub fn lines(text: &[char]) -> (r: Vec<Vec<char>>)
    ensures
        lines_view(r@) == split_lines(text@),
{
    let n: usize = text.len();
    let mut out: Vec<Vec<char>> = Vec::new();
    let mut start: usize = 0;
    assert(text@.skip(0) =~= text@);
    while start < n
        invariant
            start <= n,
            n == text@.len(),
            split_lines(text@) == lines_view(out@) + split_lines(text@.skip(start as int)),
        decreases n - start,
    {
        let ghost rest = text@.skip(start as int);
        let end: usize = start + find_char(slice_subrange(text, start, n), '\n');
        if end < n {
            let stop: usize = if end > start && text[end - 1] == '\r' {
                (end - 1) as usize
            } else {
                end
            };
            let line = slice_to_vec(slice_subrange(text, start, stop));
            assert(line@ =~= strip_cr(rest.take(end - start)));
            assert(rest.skip(end - start + 1) =~= text@.skip(end + 1));
            out.push(line);
            start = end + 1;
        } else {
            let line = slice_to_vec(slice_subrange(text, start, n));
            out.push(line);
            start = n;
        }
    }
    out
}

/// The value of `c` as a digit in the given radix: the decimal digits count
/// from 0, the letters of either case from 10.
pub open spec fn digit_value(c: char, radix: int) -> Option<int> {
    let v: int = if '0' <= c <= '9' {
        c as int - 0x30
    } else if 'a' <= c <= 'z' {
        c as int - 0x61 + 10
    } else if 'A' <= c <= 'Z' {
        c as int - 0x41 + 10
    } else {
        radix
    };
    if v < radix {
        Some(v)
    } else {
        None
    }
}

/// The number that the digits of `s` write in the given radix, the first
/// digit counting most; `None` where a character of `s` is no digit.
pub open spec fn digits_value(s: Seq<char>, radix: int) -> Option<int>
    decreases s.len(),
{
    if s.len() == 0 {
        Some(0int)
    } else {
        match (digits_value(s.drop_last(), radix), digit_value(s.last(), radix)) {
            (Some(v), Some(d)) => Some(v * radix + d),
            _ => None,
        }
    }
}

/// The number that `s` writes: an optional `+`, then at least one digit, and
/// a value of at most `max`.
pub open spec fn spec_parse_unsigned(s: Seq<char>, radix: int, max: int) -> Option<int> {
    let digits = if s.len() > 0 && s[0] == '+' {
        s.skip(1)
    } else {
        s
    };
    match digits_value(digits, radix) {
        Some(v) => if digits.len() > 0 && v <= max {
            Some(v)
        } else {
            None
        },
        None => None,
    }
}

/// Where a sequence of digits has a value, so has each of its prefixes, and
/// the prefix's value is no greater.
pub proof fn lemma_digits_prefix(s: Seq<char>, n: int, radix: int)
    requires
        0 <= n <= s.len(),
        radix >= 1,
    ensures
        digits_value(s, radix) matches Some(v) ==> (digits_value(s.take(n), radix) matches Some(w)
            && 0 <= w <= v),
    decreases s.len(),
{
    if s.len() > 0 {
        let t = s.drop_last();
        lemma_digits_prefix(t, t.len() as int, radix);
        if let Some(v) = digits_value(s, radix) {
            let w = digits_value(t, radix)->0;
            assert(w * radix >= w) by (nonlinear_arith)
                requires
                    w >= 0,
                    radix >= 1,
            ;
            if n == s.len() {
                assert(s.take(n) =~= s);
            } else {
                lemma_digits_prefix(t, n, radix);
                assert(s.take(n) =~= t.take(n));
            }
        }
    }
}

/// The value of a character as a digit.
pub fn digit(c: char, radix: u8) -> (r: Option<u8>)
    requires
        radix <= 36,
    ensures
        match r {
            Some(d) => digit_value(c, radix as int) == Some(d as int),
            None => digit_value(c, radix as int) is None,
        },
{
    let v: u8 = if '0' <= c && c <= '9' {
        char_byte(c) - 0x30
    } else if 'a' <= c && c <= 'z' {
        char_byte(c) - 0x61 + 10
    } else if 'A' <= c && c <= 'Z' {
        char_byte(c) - 0x41 + 10
    } else {
        radix
    };
    if v < radix {
        Some(v)
    } else {
        None
    }
}

/// Reads an unsigned number of at most `max`.
pub fn parse_unsigned(s: &[char], radix: u8, max: usize) -> (r: Option<usize>)
    requires
        1 <= radix <= 36,
    ensures
        match r {
            Some(v) => spec_parse_unsigned(s@, radix as int, max as int) == Some(v as int),
            None => spec_parse_unsigned(s@, radix as int, max as int) is None,
        },
{
    let n: usize = s.len();
    let start: usize = if n > 0 && s[0] == '+' {
        1
    } else {
        0
    };
    let ghost digits = s@.skip(start as int);
    if start == n {
        return None;
    }
    let mut acc: usize = 0;
    let mut i: usize = start;
    while i < n
        invariant
            start <= i <= n,
            n == s@.len(),
            1 <= radix <= 36,
            digits == s@.skip(start as int),
            digits == if s@.len() > 0 && s@[0] == '+' {
                s@.skip(1)
            } else {
                s@
            },
            digits_value(digits.take(i - start), radix as int) == Some(acc as int),
            acc <= max,
        decreases n - i,
    {
        let ghost next = digits.take(i + 1 - start);
        proof {
            assert(next.drop_last() =~= digits.take(i - start));
            lemma_digits_prefix(digits, i + 1 - start, radix as int);
        }
        let d: u8 = match digit(s[i], radix) {
            Some(d) => d,
            None => {
                return None;
            },
        };
        let value: Option<usize> = match acc.checked_mul(radix as usize) {
            Some(m) => m.checked_add(d as usize),
            None => None,
        };
        assert(acc * radix + d > usize::MAX ==> value is None) by (nonlinear_arith)
            requires
                value == match (if acc * radix <= usize::MAX {
                    Some((acc * radix) as usize)
                } else {
                    None
                }) {
                    Some(m) => if m + d <= usize::MAX {
                        Some((m + d) as usize)
                    } else {
                        None
                    },
                    None => None,
                },
        ;
        match value {
            Some(v) => {
                if v > max {
                    return None;
                }
                acc = v;
            },
            None => {
                return None;
            },
        }
        i += 1;
    }
    assert(digits.take(n - start) =~= digits);
    Some(acc)
}

/// The number of bytes that a character takes in UTF-8.
pub open spec fn utf8_len(c: char) -> int {
    if (c as u32) < 0x80 {
        1
    } else if (c as u32) < 0x800 {
        2
    } else if (c as u32) < 0x10000 {
        3
    } else {
        4
    }
}

/// The number of bytes that a text takes in UTF-8.
pub open spec fn byte_len(s: Seq<char>) -> int
    decreases s.len(),
{
    if s.len() == 0 {
        0
    } else {
        byte_len(s.drop_last()) + utf8_len(s.last())
    }
}

/// A text takes at least as many bytes as each of its prefixes.
pub proof fn lemma_byte_len_prefix(s: Seq<char>, n: int)
    requires
        0 <= n <= s.len(),
    ensures
        0 <= byte_len(s.take(n)) <= byte_len(s),
    decreases s.len(),
{
    if s.len() == 0 {
    } else if n == s.len() {
        assert(s.take(n) =~= s);
        lemma_byte_len_prefix(s.drop_last(), 0);
    } else {
        lemma_byte_len_prefix(s.drop_last(), n);
        assert(s.take(n) =~= s.drop_last().take(n));
    }
}

/// The number of bytes that the slice takes in UTF-8, where that is at most
/// `limit`.
pub fn byte_length(s: &[char], limit: usize) -> (r: Option<usize>)
    ensures
        match r {
            Some(n) => n == byte_len(s@) && n <= limit,
            None => byte_len(s@) > limit,
        },
{
    let n: usize = s.len();
    let mut bytes: usize = 0;
    let mut i: usize = 0;
    while i < n
        invariant
            i <= n,
            n == s@.len(),
            bytes == byte_len(s@.take(i as int)),
            bytes <= limit,
        decreases n - i,
    {
        let c: u32 = s[i] as u32;
        let width: usize = if c < 0x80 {
            1
        } else if c < 0x800 {
            2
        } else if c < 0x10000 {
            3
        } else {
            4
        };
        proof {
            assert(s@.take(i + 1).drop_last() =~= s@.take(i as int));
            lemma_byte_len_prefix(s@, i + 1);
        }
        if width > limit - bytes {
            return None;
        }
        bytes += width;
        i += 1;
    }
    assert(s@.take(n as int) =~= s@);
    Some(bytes)
}

} // verus!
