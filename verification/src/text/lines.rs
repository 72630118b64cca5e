use vstd::prelude::*;
use crate::text::chars::{is_ascii_digit, is_ascii_digit_spec, is_whitespace, is_whitespace_spec};
use crate::text::words::texts_of;

verus! {

/// `s` without its leading whitespace.
pub open spec fn skip_leading_whitespace(s: Seq<char>) -> Seq<char>
    decreases s.len(),
{
    if s.len() > 0 && is_whitespace_spec(s[0]) {
        skip_leading_whitespace(s.drop_first())
    } else {
        s
    }
}

/// `s` without its trailing whitespace.
pub open spec fn skip_trailing_whitespace(s: Seq<char>) -> Seq<char>
    decreases s.len(),
{
    if s.len() > 0 && is_whitespace_spec(s.last()) {
        skip_trailing_whitespace(s.drop_last())
    } else {
        s
    }
}

/// `s` without whitespace at either end.
pub open spec fn trim_spec(s: Seq<char>) -> Seq<char> {
    skip_trailing_whitespace(skip_leading_whitespace(s))
}

/// A line without the carriage return that ends it, if one does.
pub open spec fn strip_carriage_return(line: Seq<char>) -> Seq<char> {
    if line.len() > 0 && line.last() == '\r' {
        line.drop_last()
    } else {
        line
    }
}

/// The state of a left-to-right scan for lines: the lines already closed by a
/// line feed, and the characters read since.
pub open spec fn scan_lines(s: Seq<char>) -> (Seq<Seq<char>>, Seq<char>)
    decreases s.len(),
{
    if s.len() == 0 {
        (Seq::empty(), Seq::empty())
    } else {
        let (done, open) = scan_lines(s.drop_last());
        if s.last() == '\n' {
            (done.push(strip_carriage_return(open)), Seq::empty())
        } else {
            (done, open.push(s.last()))
        }
    }
}

/// The lines of a text. A line ends at a line feed, which is not part of it,
/// nor is a carriage return right before the line feed; what follows the last
/// line feed is a line unless it is empty.
pub open spec fn lines_spec(s: Seq<char>) -> Seq<Seq<char>> {
    let (done, open) = scan_lines(s);
    if open.len() > 0 {
        done.push(open)
    } else {
        done
    }
}

/// `hay` begins with `prefix`.
pub open spec fn starts_with_spec(hay: Seq<char>, prefix: Seq<char>) -> bool {
    prefix.len() <= hay.len() && hay.take(prefix.len() as int) == prefix
}

/// Every character is an ASCII digit.
pub open spec fn all_digits(s: Seq<char>) -> bool {
    forall|i: int| 0 <= i < s.len() ==> is_ascii_digit_spec(#[trigger] s[i])
}

/// The number that a run of ASCII digits denotes.
pub open spec fn digits_value(s: Seq<char>) -> nat
    decreases s.len(),
{
    if s.len() == 0 {
        0
    } else {
        digits_value(s.drop_last()) * 10 + (s.last() as u32 - 0x30) as nat
    }
}

/// A numeral without its plus sign, if it has one.
pub open spec fn unsigned_part(s: Seq<char>) -> Seq<char> {
    if s.len() > 0 && s[0] == '+' {
        s.drop_first()
    } else {
        s
    }
}

/// The count that a numeral denotes: an optional plus sign and one or more
/// ASCII digits, whose value fits the machine's counts.
pub open spec fn parse_count_spec(s: Seq<char>) -> Option<usize> {
    let digits = unsigned_part(s);
    if digits.len() == 0 || !all_digits(digits) || digits_value(digits) > usize::MAX {
        None
    } else {
        Some(digits_value(digits) as usize)
    }
}

/// The value of a run of digits grows with its length.
pub proof fn lemma_digits_value_prefix(s: Seq<char>, k: int)
    requires
        0 <= k <= s.len(),
    ensures
        digits_value(s.take(k)) <= digits_value(s),
    decreases s.len() - k,
{
    if k < s.len() {
        lemma_digits_value_prefix(s, k + 1);
        assert(s.take(k + 1).drop_last() == s.take(k));
    } else {
        assert(s.take(k) == s);
    }
}

/// Removes whitespace at both ends.
pub fn trim_chars(text: &[char]) -> (out: Vec<char>)
    ensures
        out@ == trim_spec(text@),
{
    let n: usize = text.len();
    let mut start: usize = 0;
    assert(text@.skip(0) == text@);
    while start < n && is_whitespace(text[start])
        invariant
            start <= n,
            n == text.len(),
            skip_leading_whitespace(text@) == skip_leading_whitespace(text@.skip(start as int)),
        decreases n - start,
    {
        assert(text@.skip(start as int).drop_first() == text@.skip(start + 1));
        start += 1;
    }
    let ghost rest = text@.skip(start as int);
    assert(skip_leading_whitespace(text@) == rest);
    let mut end: usize = n;
    assert(rest.take(rest.len() as int) == rest);
    while end > start && is_whitespace(text[end - 1])
        invariant
            start <= end <= n,
            n == text.len(),
            rest == text@.skip(start as int),
            skip_trailing_whitespace(rest) == skip_trailing_whitespace(rest.take(end - start)),
        decreases end,
    {
        assert(rest.take(end - start).last() == text@[end - 1]);
        assert(rest.take(end - start).drop_last() == rest.take(end - start - 1));
        end -= 1;
    }
    assert(skip_trailing_whitespace(rest) == rest.take(end - start)) by {
        if end > start {
            assert(rest.take(end - start).last() == text@[end - 1]);
        }
    }
    let mut out: Vec<char> = Vec::new();
    let mut i: usize = start;
    while i < end
        invariant
            start <= i <= end <= n,
            n == text.len(),
            out@ == text@.subrange(start as int, i as int),
        decreases end - i,
    {
        out.push(text[i]);
        assert(out@ =~= text@.subrange(start as int, i + 1));
        i += 1;
    }
    assert(rest.take(end - start) =~= text@.subrange(start as int, end as int));
    out
}

/// Splits a text into its lines.
pub fn split_lines(text: &[char]) -> (out: Vec<Vec<char>>)
    ensures
        texts_of(out@) == lines_spec(text@),
{
    let mut out: Vec<Vec<char>> = Vec::new();
    let mut open: Vec<char> = Vec::new();
    let mut i: usize = 0;
    while i < text.len()
        invariant
            i <= text.len(),
            texts_of(out@) == scan_lines(text@.take(i as int)).0,
            open@ == scan_lines(text@.take(i as int)).1,
        decreases text.len() - i,
    {
        let c: char = text[i];
        proof {
            assert(text@.take(i + 1).drop_last() == text@.take(i as int));
        }
        if c == '\n' {
            let ghost before = texts_of(out@);
            let ghost line = strip_carriage_return(open@);
            if open.len() > 0 && open[open.len() - 1] == '\r' {
                open.pop();
            }
            assert(open@ =~= line);
            out.push(open);
            open = Vec::new();
            assert(texts_of(out@) =~= before.push(line));
        } else {
            open.push(c);
        }
        i += 1;
    }
    assert(text@.take(text@.len() as int) == text@);
    if open.len() > 0 {
        let ghost before = texts_of(out@);
        let ghost line = open@;
        out.push(open);
        assert(texts_of(out@) =~= before.push(line));
    }
    out
}

/// Whether `hay` begins with `prefix`.
pub fn starts_with_chars(hay: &[char], prefix: &[char]) -> (r: bool)
    ensures
        r == starts_with_spec(hay@, prefix@),
{
    if prefix.len() > hay.len() {
        return false;
    }
    let mut i: usize = 0;
    while i < prefix.len()
        invariant
            i <= prefix.len() <= hay.len(),
            forall|k: int| 0 <= k < i ==> hay@[k] == prefix@[k],
        decreases prefix.len() - i,
    {
        if hay[i] != prefix[i] {
            assert(hay@.take(prefix.len() as int)[i as int] != prefix@[i as int]);
            return false;
        }
        i += 1;
    }
    assert(hay@.take(prefix.len() as int) =~= prefix@);
    true
}

/// The characters from position `from` on.
pub(crate) fn skip_chars(text: &[char], from: usize) -> (out: Vec<char>)
    requires
        from <= text.len(),
    ensures
        out@ == text@.skip(from as int),
{
    let mut out: Vec<char> = Vec::new();
    let mut i: usize = from;
    while i < text.len()
        invariant
            from <= i <= text.len(),
            out@ == text@.subrange(from as int, i as int),
        decreases text.len() - i,
    {
        out.push(text[i]);
        assert(out@ =~= text@.subrange(from as int, i + 1));
        i += 1;
    }
    assert(text@.subrange(from as int, text@.len() as int) =~= text@.skip(from as int));
    out
}

/// Reads a count: an optional plus sign and one or more ASCII digits.
pub fn parse_count(text: &[char]) -> (r: Option<usize>)
    ensures
        r == parse_count_spec(text@),
{
    let start: usize = if text.len() > 0 && text[0] == '+' {
        1
    } else {
        0
    };
    let ghost digits = unsigned_part(text@);
    assert(digits =~= text@.skip(start as int));
    if start == text.len() {
        return None;
    }
    let mut value: usize = 0;
    let mut i: usize = start;
    assert(digits.take(0) =~= Seq::<char>::empty());
    while i < text.len()
        invariant
            start <= i <= text.len(),
            digits == text@.skip(start as int),
            digits == unsigned_part(text@),
            value == digits_value(digits.take(i - start)),
            forall|k: int| 0 <= k < i - start ==> is_ascii_digit_spec(#[trigger] digits[k]),
        decreases text.len() - i,
    {
        let c: char = text[i];
        assert(digits[i - start] == c);
        if !is_ascii_digit(c) {
            return None;
        }
        let d: usize = (c as u32 - 0x30) as usize;
        proof {
            assert(digits.take(i - start + 1).drop_last() == digits.take(i - start));
            assert(digits.take(i - start + 1).last() == c);
            lemma_digits_value_prefix(digits, i - start + 1);
        }
        if value > (usize::MAX - d) / 10 {
            assert(digits_value(digits.take(i - start + 1)) > usize::MAX) by (nonlinear_arith)
                requires
                    digits_value(digits.take(i - start + 1)) == value * 10 + d,
                    value > (usize::MAX - d) / 10,
                    d < 10,
            ;
            return None;
        }
        assert(value * 10 + d <= usize::MAX) by (nonlinear_arith)
            requires
                value <= (usize::MAX - d) / 10,
                d < 10,
        ;
        value = value * 10 + d;
        i += 1;
    }
    assert(digits.take(digits.len() as int) == digits);
    Some(value)
}

} // verus!
