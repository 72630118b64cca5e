use vstd::prelude::*;
use crate::text::chars::{is_whitespace, is_whitespace_spec};
use crate::text::strings::{chars_equal, copy_chars};

verus! {

/// The state of a left-to-right scan for words: the words already closed by
/// whitespace, and the characters of the word that is still open.
pub open spec fn scan_words(s: Seq<char>) -> (Seq<Seq<char>>, Seq<char>)
    decreases s.len(),
{
    if s.len() == 0 {
        (Seq::empty(), Seq::empty())
    } else {
        let (done, open) = scan_words(s.drop_last());
        if !is_whitespace_spec(s.last()) {
            (done, open.push(s.last()))
        } else if open.len() > 0 {
            (done.push(open), Seq::empty())
        } else {
            (done, open)
        }
    }
}

/// The maximal runs of non-whitespace characters of `s`, in order.
pub open spec fn words(s: Seq<char>) -> Seq<Seq<char>> {
    let (done, open) = scan_words(s);
    if open.len() > 0 {
        done.push(open)
    } else {
        done
    }
}

/// `parts` written one after the other with `sep` between neighbours.
pub open spec fn join(parts: Seq<Seq<char>>, sep: Seq<char>) -> Seq<char>
    decreases parts.len(),
{
    if parts.len() == 0 {
        Seq::empty()
    } else if parts.len() == 1 {
        parts[0]
    } else {
        join(parts.drop_last(), sep) + sep + parts.last()
    }
}

/// `s` with every run of whitespace replaced by one space and without
/// leading or trailing whitespace.
pub open spec fn collapse_whitespace(s: Seq<char>) -> Seq<char> {
    join(words(s), seq![' '])
}

/// Every character of `s` is whitespace.
pub open spec fn is_blank(s: Seq<char>) -> bool {
    forall|i: int| 0 <= i < s.len() ==> is_whitespace_spec(#[trigger] s[i])
}

/// The texts held by a list of character buffers.
pub open spec fn texts_of(v: Seq<Vec<char>>) -> Seq<Seq<char>> {
    Seq::new(v.len(), |i: int| v[i]@)
}

/// Every word is non-empty and free of whitespace; a scan keeps no blank state.
pub proof fn lemma_scan_words(s: Seq<char>)
    ensures
        forall|i: int| 0 <= i < scan_words(s).0.len() ==> (#[trigger] scan_words(s).0[i]).len() > 0,
        is_blank(s) <==> (scan_words(s).0.len() == 0 && scan_words(s).1.len() == 0),
    decreases s.len(),
{
    if s.len() > 0 {
        let t = s.drop_last();
        lemma_scan_words(t);
        if is_blank(s) {
            assert forall|i: int| 0 <= i < t.len() implies is_whitespace_spec(#[trigger] t[i]) by {
                assert(t[i] == s[i]);
            }
            assert(is_whitespace_spec(s[s.len() - 1]));
        }
        if is_blank(t) && is_whitespace_spec(s.last()) {
            assert forall|i: int| 0 <= i < s.len() implies is_whitespace_spec(#[trigger] s[i]) by {
                if i < t.len() {
                    assert(t[i] == s[i]);
                }
            }
        }
    }
}

/// A text has no words exactly when it is blank.
pub proof fn lemma_words_empty_iff_blank(s: Seq<char>)
    ensures
        words(s).len() == 0 <==> is_blank(s),
        forall|i: int| 0 <= i < words(s).len() ==> (#[trigger] words(s)[i]).len() > 0,
{
    lemma_scan_words(s);
}

/// Splits a text into its words.
pub fn split_words(text: &[char]) -> (out: Vec<Vec<char>>)
    ensures
        texts_of(out@) == words(text@),
{
    let mut out: Vec<Vec<char>> = Vec::new();
    let mut open: Vec<char> = Vec::new();
    let mut i: usize = 0;
    while i < text.len()
        invariant
            i <= text.len(),
            texts_of(out@) == scan_words(text@.take(i as int)).0,
            open@ == scan_words(text@.take(i as int)).1,
        decreases text.len() - i,
    {
        let c: char = text[i];
        proof {
            assert(text@.take(i + 1).drop_last() == text@.take(i as int));
        }
        if !is_whitespace(c) {
            open.push(c);
        } else if open.len() > 0 {
            let ghost before = texts_of(out@);
            let ghost word = open@;
            out.push(open);
            open = Vec::new();
            assert(texts_of(out@) =~= before.push(word));
        }
        i += 1;
    }
    assert(text@.take(text@.len() as int) == text@);
    if open.len() > 0 {
        let ghost before = texts_of(out@);
        let ghost word = open@;
        out.push(open);
        assert(texts_of(out@) =~= before.push(word));
    }
    out
}

/// Writes `parts` one after the other with `sep` between neighbours.
pub fn join_chars(parts: &Vec<Vec<char>>, sep: &[char]) -> (out: Vec<char>)
    ensures
        out@ == join(texts_of(parts@), sep@),
{
    let mut out: Vec<char> = Vec::new();
    let mut i: usize = 0;
    while i < parts.len()
        invariant
            i <= parts.len(),
            out@ == join(texts_of(parts@).take(i as int), sep@),
        decreases parts.len() - i,
    {
        let ghost before = out@;
        proof {
            let t = texts_of(parts@);
            assert(t.take(i + 1).drop_last() == t.take(i as int));
            assert(t.take(i + 1).last() == parts@[i as int]@);
            if i == 0 {
                assert(t.take(1)[0] == parts@[0]@);
            }
        }
        if i > 0 {
            append_chars(&mut out, sep);
        }
        append_chars(&mut out, parts[i].as_slice());
        proof {
            if i == 0 {
                assert(out@ =~= parts@[0]@);
            }
        }
        i += 1;
    }
    assert(texts_of(parts@).take(parts@.len() as int) == texts_of(parts@));
    out
}

/// Appends `tail` to `buf`.
pub fn append_chars(buf: &mut Vec<char>, tail: &[char])
    ensures
        final(buf)@ == old(buf)@ + tail@,
{
    let mut i: usize = 0;
    while i < tail.len()
        invariant
            i <= tail.len(),
            buf@ == old(buf)@ + tail@.take(i as int),
        decreases tail.len() - i,
    {
        buf.push(tail[i]);
        assert(tail@.take(i + 1) == tail@.take(i as int).push(tail@[i as int]));
        assert(buf@ =~= old(buf)@ + tail@.take(i + 1));
        i += 1;
    }
    assert(tail@.take(tail@.len() as int) == tail@);
}

/// Replaces every run of whitespace by one space and drops it at both ends.
pub fn collapse_whitespace_chars(text: &[char]) -> (out: Vec<char>)
    ensures
        out@ == collapse_whitespace(text@),
{
    let parts = split_words(text);
    let sep: Vec<char> = vec![' '];
    assert(sep@ =~= seq![' ']);
    join_chars(&parts, sep.as_slice())
}

/// Whether every character is whitespace.
pub fn is_blank_chars(text: &[char]) -> (r: bool)
    ensures
        r == is_blank(text@),
{
    let mut i: usize = 0;
    while i < text.len()
        invariant
            i <= text.len(),
            forall|k: int| 0 <= k < i ==> is_whitespace_spec(#[trigger] text@[k]),
        decreases text.len() - i,
    {
        if !is_whitespace(text[i]) {
            return false;
        }
        i += 1;
    }
    true
}

/// Whether `word` is among `list`.
pub fn has_word(list: &Vec<Vec<char>>, word: &[char]) -> (r: bool)
    ensures
        r == texts_of(list@).contains(word@),
{
    let mut i: usize = 0;
    while i < list.len()
        invariant
            i <= list.len(),
            forall|k: int| 0 <= k < i ==> #[trigger] texts_of(list@)[k] != word@,
        decreases list.len() - i,
    {
        if chars_equal(list[i].as_slice(), word) {
            assert(texts_of(list@)[i as int] == word@);
            return true;
        }
        i += 1;
    }
    false
}

/// The entries of `s` without repetitions: each entry stands where it first occurs.
pub open spec fn first_occurrences(s: Seq<Seq<char>>) -> Seq<Seq<char>>
    decreases s.len(),
{
    if s.len() == 0 {
        Seq::empty()
    } else if first_occurrences(s.drop_last()).contains(s.last()) {
        first_occurrences(s.drop_last())
    } else {
        first_occurrences(s.drop_last()).push(s.last())
    }
}

/// The first occurrences hold every entry once.
pub proof fn lemma_first_occurrences(s: Seq<Seq<char>>)
    ensures
        first_occurrences(s).no_duplicates(),
        first_occurrences(s).to_set() == s.to_set(),
        first_occurrences(s).len() == s.to_set().len(),
    decreases s.len(),
{
    if s.len() == 0 {
        assert(first_occurrences(s).to_set() =~= s.to_set());
    } else {
        let rest = s.drop_last();
        let before = first_occurrences(rest);
        let word = s.last();
        lemma_first_occurrences(rest);
        assert(s == rest.push(word));
        rest.lemma_push_to_set_commute(word);
        if before.contains(word) {
            assert(before.to_set().contains(word));
            assert(before.to_set().insert(word) =~= before.to_set());
        } else {
            before.lemma_push_to_set_commute(word);
            assert forall|a: int, b: int|
                0 <= a < before.len() + 1 && 0 <= b < before.len() + 1 && a != b implies before.push(
                word,
            )[a] != before.push(word)[b] by {
                if a < before.len() {
                    assert(before.contains(before[a]));
                }
                if b < before.len() {
                    assert(before.contains(before[b]));
                }
            }
        }
    }
    first_occurrences(s).unique_seq_to_set();
}

/// The distinct entries of `list`, each kept where it first occurs.
pub fn distinct_words(list: &Vec<Vec<char>>) -> (out: Vec<Vec<char>>)
    ensures
        texts_of(out@) == first_occurrences(texts_of(list@)),
        texts_of(out@).no_duplicates(),
        texts_of(out@).to_set() == texts_of(list@).to_set(),
        out@.len() == texts_of(list@).to_set().len(),
{
    let mut out: Vec<Vec<char>> = Vec::new();
    let mut i: usize = 0;
    assert(texts_of(out@) =~= first_occurrences(texts_of(list@).take(0)));
    while i < list.len()
        invariant
            i <= list.len(),
            texts_of(out@) == first_occurrences(texts_of(list@).take(i as int)),
        decreases list.len() - i,
    {
        let ghost before = texts_of(out@);
        let ghost word = list@[i as int]@;
        proof {
            let prefix = texts_of(list@).take(i + 1);
            assert(prefix.drop_last() == texts_of(list@).take(i as int));
            assert(prefix.last() == word);
        }
        if !has_word(&out, list[i].as_slice()) {
            out.push(copy_chars(list[i].as_slice()));
            assert(texts_of(out@) =~= before.push(word));
        }
        i += 1;
    }
    proof {
        assert(texts_of(list@).take(list@.len() as int) == texts_of(list@));
        lemma_first_occurrences(texts_of(list@));
    }
    out
}

} // verus!
