use vstd::prelude::*;
use crate::text::chars::CharClass;

verus! {

/// `String::push` appends one character.
pub assume_specification[ String::push ](s: &mut String, c: char)
    ensures
        final(s)@ == old(s)@.push(c),
;

/// The characters of a string, in order.
pub fn chars_of(s: &str) -> (v: Vec<char>)
    ensures
        v@ == s@,
{
    let mut v: Vec<char> = Vec::new();
    for c in it: s.chars()
        invariant
            v@ == s@.take(it.index() as int),
            it.seq() == s@,
    {
        v.push(c);
    }
    assert(s@.take(s@.len() as int) == s@);
    v
}

/// The string made of the given characters.
pub fn string_of(v: &[char]) -> (s: String)
    ensures
        s@ == v@,
{
    let mut s = String::new();
    let mut i: usize = 0;
    while i < v.len()
        invariant
            i <= v.len(),
            s@ == v@.take(i as int),
        decreases v.len() - i,
    {
        s.push(v[i]);
        i += 1;
    }
    assert(v@.take(v@.len() as int) == v@);
    s
}

/// Appends the characters of `s` to `buf`.
pub fn push_str(buf: &mut Vec<char>, s: &str)
    ensures
        final(buf)@ == old(buf)@ + s@,
{
    assert(buf@ =~= old(buf)@ + s@.take(0));
    for c in it: s.chars()
        invariant
            it.seq() == s@,
            buf@ == old(buf)@ + s@.take(it.index() as int),
    {
        let ghost i = it.index() as int;
        buf.push(c);
        assert(buf@ =~= old(buf)@ + s@.take(i + 1));
    }
    assert(s@.take(s@.len() as int) == s@);
}

/// A copy of a character buffer.
pub fn copy_chars(v: &[char]) -> (r: Vec<char>)
    ensures
        r@ == v@,
{
    let mut r: Vec<char> = Vec::new();
    let mut i: usize = 0;
    while i < v.len()
        invariant
            i <= v.len(),
            r@ == v@.take(i as int),
        decreases v.len() - i,
    {
        r.push(v[i]);
        i += 1;
    }
    assert(v@.take(v@.len() as int) == v@);
    r
}

/// Whether two character buffers hold the same text.
pub fn chars_equal(a: &[char], b: &[char]) -> (r: bool)
    ensures
        r == (a@ == b@),
{
    if a.len() != b.len() {
        return false;
    }
    let mut i: usize = 0;
    while i < a.len()
        invariant
            i <= a.len(),
            a.len() == b.len(),
            a@.take(i as int) == b@.take(i as int),
        decreases a.len() - i,
    {
        if a[i] != b[i] {
            return false;
        }
        assert(a@.take(i + 1) == a@.take(i as int).push(a@[i as int]));
        assert(b@.take(i + 1) == b@.take(i as int).push(b@[i as int]));
        i += 1;
    }
    assert(a@.take(a@.len() as int) == a@);
    assert(b@.take(b@.len() as int) == b@);
    true
}

/// The number of characters of `s` that satisfy `p`.
pub open spec fn count_chars(s: Seq<char>, p: spec_fn(char) -> bool) -> nat
    decreases s.len(),
{
    if s.len() == 0 {
        0
    } else {
        count_chars(s.drop_last(), p) + if p(s.last()) { 1nat } else { 0nat }
    }
}

/// Counting one character further.
pub proof fn lemma_count_step(s: Seq<char>, p: spec_fn(char) -> bool, i: int)
    requires
        0 <= i < s.len(),
    ensures
        count_chars(s.take(i + 1), p) == count_chars(s.take(i), p) + if p(s[i]) { 1nat } else { 0nat },
        count_chars(s.take(i), p) <= i,
    decreases i,
{
    assert(s.take(i + 1).drop_last() == s.take(i));
    if i > 0 {
        lemma_count_step(s, p, i - 1);
    }
}

/// The subsequence of the characters of `s` that satisfy `p`.
pub open spec fn keep_chars(s: Seq<char>, p: spec_fn(char) -> bool) -> Seq<char>
    decreases s.len(),
{
    if s.len() == 0 {
        Seq::empty()
    } else if p(s.last()) {
        keep_chars(s.drop_last(), p).push(s.last())
    } else {
        keep_chars(s.drop_last(), p)
    }
}

/// Some character of `s` belongs to `class`.
pub open spec fn has_class(s: Seq<char>, class: CharClass) -> bool {
    exists|i: int| 0 <= i < s.len() && class.holds(#[trigger] s[i])
}

/// Counts the characters of a class.
pub fn count_class(text: &[char], class: CharClass) -> (n: usize)
    ensures
        n == count_chars(text@, class.pred()),
        n <= text@.len(),
{
    let mut n: usize = 0;
    let mut i: usize = 0;
    while i < text.len()
        invariant
            i <= text.len(),
            n <= i,
            n == count_chars(text@.take(i as int), class.pred()),
        decreases text.len() - i,
    {
        proof {
            lemma_count_step(text@, class.pred(), i as int);
        }
        if class.test(text[i]) {
            n += 1;
        }
        i += 1;
    }
    assert(text@.take(text@.len() as int) == text@);
    n
}

/// Whether some character belongs to the class.
pub fn any_class(text: &[char], class: CharClass) -> (r: bool)
    ensures
        r == has_class(text@, class),
{
    let mut i: usize = 0;
    while i < text.len()
        invariant
            i <= text.len(),
            forall|k: int| 0 <= k < i ==> !class.holds(#[trigger] text@[k]),
        decreases text.len() - i,
    {
        if class.test(text[i]) {
            return true;
        }
        i += 1;
    }
    false
}

/// The characters of a class, in order.
pub fn keep_class(text: &[char], class: CharClass) -> (out: Vec<char>)
    ensures
        out@ == keep_chars(text@, class.pred()),
{
    let mut out: Vec<char> = Vec::new();
    let mut i: usize = 0;
    while i < text.len()
        invariant
            i <= text.len(),
            out@ == keep_chars(text@.take(i as int), class.pred()),
        decreases text.len() - i,
    {
        proof {
            assert(text@.take(i + 1).drop_last() == text@.take(i as int));
        }
        if class.test(text[i]) {
            out.push(text[i]);
        }
        i += 1;
    }
    assert(text@.take(text@.len() as int) == text@);
    out
}

/// The characters outside a class, in order.
pub fn remove_class(text: &[char], class: CharClass) -> (out: Vec<char>)
    ensures
        out@ == keep_chars(text@, class.negated()),
{
    let mut out: Vec<char> = Vec::new();
    let mut i: usize = 0;
    while i < text.len()
        invariant
            i <= text.len(),
            out@ == keep_chars(text@.take(i as int), class.negated()),
        decreases text.len() - i,
    {
        proof {
            assert(text@.take(i + 1).drop_last() == text@.take(i as int));
        }
        if !class.test(text[i]) {
            out.push(text[i]);
        }
        i += 1;
    }
    assert(text@.take(text@.len() as int) == text@);
    out
}

/// Whether `c` is among `list`.
fn has_char(list: &Vec<char>, c: char) -> (r: bool)
    ensures
        r == list@.contains(c),
{
    let mut i: usize = 0;
    while i < list.len()
        invariant
            i <= list.len(),
            forall|k: int| 0 <= k < i ==> list@[k] != c,
        decreases list.len() - i,
    {
        if list[i] == c {
            return true;
        }
        i += 1;
    }
    false
}

/// The number of distinct characters.
pub fn distinct_char_count(text: &[char]) -> (n: usize)
    ensures
        n == text@.to_set().len(),
{
    let mut seen: Vec<char> = Vec::new();
    let mut i: usize = 0;
    assert(seen@.to_set() =~= text@.take(0).to_set());
    while i < text.len()
        invariant
            i <= text.len(),
            seen@.no_duplicates(),
            seen@.to_set() == text@.take(i as int).to_set(),
        decreases text.len() - i,
    {
        let c: char = text[i];
        let ghost before = seen@;
        proof {
            assert(text@.take(i + 1) == text@.take(i as int).push(c));
            text@.take(i as int).lemma_push_to_set_commute(c);
        }
        if !has_char(&seen, c) {
            seen.push(c);
            proof {
                before.lemma_push_to_set_commute(c);
                assert forall|a: int, b: int|
                    0 <= a < seen@.len() && 0 <= b < seen@.len() && a != b implies seen@[a]
                    != seen@[b] by {
                    if a < before.len() {
                        assert(before.contains(before[a]));
                    }
                    if b < before.len() {
                        assert(before.contains(before[b]));
                    }
                }
            }
        } else {
            proof {
                assert(before.to_set().contains(c));
                assert(before.to_set().insert(c) =~= before.to_set());
            }
        }
        i += 1;
    }
    proof {
        assert(text@.take(text@.len() as int) == text@);
        seen@.unique_seq_to_set();
    }
    seen.len()
}

/// Whether `needle` occurs in `hay` as a contiguous run.
pub open spec fn contains_run(hay: Seq<char>, needle: Seq<char>) -> bool {
    exists|i: int|
        0 <= i && i + needle.len() <= hay.len() && #[trigger] hay.subrange(i, i + needle.len())
            == needle
}

/// Whether `needle` occurs in `hay` at offset `at`.
fn occurs_at(hay: &[char], needle: &[char], at: usize) -> (r: bool)
    requires
        at + needle.len() <= hay.len(),
    ensures
        r == (hay@.subrange(at as int, at + needle.len()) == needle@),
{
    let mut j: usize = 0;
    while j < needle.len()
        invariant
            j <= needle.len(),
            at + needle.len() <= hay.len(),
            forall|k: int| 0 <= k < j ==> hay@[at + k] == needle@[k],
        decreases needle.len() - j,
    {
        if hay[at + j] != needle[j] {
            assert(hay@.subrange(at as int, at + needle.len())[j as int] != needle@[j as int]);
            return false;
        }
        j += 1;
    }
    assert(hay@.subrange(at as int, at + needle.len()) =~= needle@);
    true
}

/// Substring search.
pub fn contains_chars(hay: &[char], needle: &[char]) -> (r: bool)
    ensures
        r == contains_run(hay@, needle@),
{
    if needle.len() > hay.len() {
        return false;
    }
    let last: usize = hay.len() - needle.len();
    let mut i: usize = 0;
    loop
        invariant
            i <= last,
            last == hay.len() - needle.len(),
            needle.len() <= hay.len(),
            forall|k: int| 0 <= k < i ==> #[trigger] hay@.subrange(k, k + needle.len()) != needle@,
        decreases last - i,
    {
        if occurs_at(hay, needle, i) {
            return true;
        }
        if i == last {
            return false;
        }
        i += 1;
    }
}

} // verus!
