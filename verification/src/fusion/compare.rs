use vstd::prelude::*;
use vstd::seq_lib::seq_to_set_is_finite;
use vstd::set_lib::lemma_set_intersect_union_lens;
use crate::base::confidence::{clamp_ratio, clamp_to_ratio};
use crate::base::fixed::{ratio_millionths, ratio_millionths_spec, MILLION};
use crate::text::chars::{is_ascii_digit, is_ascii_digit_spec};
use crate::text::strings::{chars_equal, chars_of, keep_chars};
use crate::text::words::{
    distinct_words, has_word, is_blank, lemma_words_empty_iff_blank, split_words, texts_of, words,
};

verus! {

/// The least of three numbers.
pub open spec fn min3(a: nat, b: nat, c: nat) -> nat {
    if a <= b && a <= c {
        a
    } else if b <= c {
        b
    } else {
        c
    }
}

/// The Levenshtein distance: the least number of single-character insertions,
/// deletions and substitutions that turn `a` into `b`.
pub open spec fn edit_distance(a: Seq<char>, b: Seq<char>) -> nat
    decreases a.len() + b.len(),
{
    if a.len() == 0 {
        b.len()
    } else if b.len() == 0 {
        a.len()
    } else {
        min3(
            edit_distance(a.drop_last(), b.drop_last()) + if a.last() == b.last() {
                0nat
            } else {
                1nat
            },
            edit_distance(a.drop_last(), b) + 1,
            edit_distance(a, b.drop_last()) + 1,
        )
    }
}

/// The longer of the two lengths.
pub open spec fn longer_len(a: Seq<char>, b: Seq<char>) -> nat {
    if a.len() >= b.len() {
        a.len()
    } else {
        b.len()
    }
}

/// One minus the edit distance relative to the longer text, in millionths; one for two empty texts.
pub open spec fn normalized_levenshtein_spec(a: Seq<char>, b: Seq<char>) -> int {
    if a.len() == 0 && b.len() == 0 {
        MILLION as int
    } else {
        ratio_millionths_spec(longer_len(a, b) - edit_distance(a, b), longer_len(a, b) as int)
    }
}

/// The distinct words of a text.
pub open spec fn word_set(s: Seq<char>) -> Set<Seq<char>> {
    words(s).to_set()
}

/// The share of the distinct words of both texts that the two have in common
/// (Jaccard index), in millionths; zero when either text has no word.
pub open spec fn token_overlap_spec(a: Seq<char>, b: Seq<char>) -> int {
    if word_set(a).len() == 0 || word_set(b).len() == 0 {
        0
    } else {
        ratio_millionths_spec(
            word_set(a).intersect(word_set(b)).len() as int,
            word_set(a).union(word_set(b)).len() as int,
        )
    }
}

/// The ASCII digits of a text, in order.
pub open spec fn digit_stream(s: Seq<char>) -> Seq<char> {
    keep_chars(s, |c: char| is_ascii_digit_spec(c))
}

/// Both texts hold digits, and not the same ones.
pub open spec fn numeric_mismatch_spec(a: Seq<char>, b: Seq<char>) -> bool {
    digit_stream(a).len() > 0 && digit_stream(b).len() > 0 && digit_stream(a) != digit_stream(b)
}

/// The similarity of two texts, in millionths: the mean of the normalized edit
/// distance and the word overlap, less 0.1 where the digits differ, cut to
/// `[0, 1]`; zero when either text is empty.
pub open spec fn text_similarity_spec(a: Seq<char>, b: Seq<char>) -> int {
    if a.len() == 0 || b.len() == 0 {
        0
    } else {
        clamp_ratio(
            (normalized_levenshtein_spec(a, b) + token_overlap_spec(a, b)) / 2
                - if numeric_mismatch_spec(a, b) {
                100_000int
            } else {
                0
            },
        )
    }
}

/// The edit distance never exceeds the longer length.
pub proof fn lemma_edit_distance_bounded(a: Seq<char>, b: Seq<char>)
    ensures
        edit_distance(a, b) <= longer_len(a, b),
    decreases a.len() + b.len(),
{
    if a.len() > 0 && b.len() > 0 {
        lemma_edit_distance_bounded(a.drop_last(), b.drop_last());
    }
}

/// A text is at distance zero from itself.
pub proof fn lemma_edit_distance_self(a: Seq<char>)
    ensures
        edit_distance(a, a) == 0,
    decreases a.len(),
{
    if a.len() > 0 {
        lemma_edit_distance_self(a.drop_last());
    }
}

/// A text with at least one word is fully similar to itself.
pub proof fn lemma_text_similarity_self(x: Seq<char>)
    requires
        !is_blank(x),
    ensures
        text_similarity_spec(x, x) == MILLION,
{
    lemma_words_empty_iff_blank(x);
    lemma_edit_distance_self(x);
    seq_to_set_is_finite(words(x));
    let s = word_set(x);
    assert(s.contains(words(x)[0]));
    assert(s.len() > 0) by {
        if s.len() == 0 {
            s.lemma_len0_is_empty();
        }
    }
    assert(s.intersect(s) =~= s);
    assert(s.union(s) =~= s);
    assert(x.len() > 0) by {
        if x.len() == 0 {
            assert(is_blank(x));
        }
    }
}

/// `strsim::levenshtein` counts the least number of insertions, deletions and
/// substitutions of single characters that turn `a` into `b`.
#[verifier::external_body]
fn levenshtein(a: &str, b: &str) -> (d: usize)
    ensures
        d == edit_distance(a@, b@),
{
    strsim::levenshtein(a, b)
}

/// One minus the edit distance relative to the longer text, in millionths.
pub fn normalized_levenshtein(a: &str, b: &str) -> (r: u32)
    ensures
        r == normalized_levenshtein_spec(a@, b@),
        r <= MILLION,
{
    let la: usize = a.unicode_len();
    let lb: usize = b.unicode_len();
    if la == 0 && lb == 0 {
        return MILLION;
    }
    let longer: usize = if la >= lb { la } else { lb };
    let distance: usize = levenshtein(a, b);
    proof {
        lemma_edit_distance_bounded(a@, b@);
    }
    ratio_millionths((longer - distance) as u64, longer as u128)
}

/// The number of entries of `left` that also occur in `right`.
fn count_common(left: &Vec<Vec<char>>, right: &Vec<Vec<char>>) -> (n: usize)
    requires
        texts_of(left@).no_duplicates(),
    ensures
        n == texts_of(left@).to_set().intersect(texts_of(right@).to_set()).len(),
        n <= left@.len(),
{
    let ghost other = texts_of(right@).to_set();
    let ghost mut common: Seq<Seq<char>> = Seq::empty();
    let mut n: usize = 0;
    let mut i: usize = 0;
    assert(common.to_set() =~= texts_of(left@).take(0).to_set().intersect(other));
    while i < left.len()
        invariant
            i <= left.len(),
            n == common.len(),
            n <= i,
            other == texts_of(right@).to_set(),
            texts_of(left@).no_duplicates(),
            common.no_duplicates(),
            common.to_set() == texts_of(left@).take(i as int).to_set().intersect(other),
        decreases left.len() - i,
    {
        let ghost word = left@[i as int]@;
        let ghost prefix = texts_of(left@).take(i as int);
        proof {
            assert(texts_of(left@).take(i + 1) == prefix.push(word));
            prefix.lemma_push_to_set_commute(word);
            assert(!prefix.contains(word)) by {
                if prefix.contains(word) {
                    let k = choose|k: int| 0 <= k < prefix.len() && prefix[k] == word;
                    assert(texts_of(left@)[k] == texts_of(left@)[i as int]);
                }
            }
        }
        if has_word(right, left[i].as_slice()) {
            proof {
                let ghost before = common;
                assert(!before.contains(word)) by {
                    if before.contains(word) {
                        assert(before.to_set().contains(word));
                    }
                }
                common = before.push(word);
                before.lemma_push_to_set_commute(word);
                assert(common.to_set() =~= prefix.push(word).to_set().intersect(other));
                assert forall|a: int, b: int|
                    0 <= a < common.len() && 0 <= b < common.len() && a != b implies common[a]
                    != common[b] by {
                    if a < before.len() {
                        assert(before.contains(before[a]));
                    }
                    if b < before.len() {
                        assert(before.contains(before[b]));
                    }
                }
            }
            n += 1;
        } else {
            proof {
                assert(common.to_set() =~= prefix.push(word).to_set().intersect(other));
            }
        }
        i += 1;
    }
    proof {
        assert(texts_of(left@).take(left@.len() as int) == texts_of(left@));
        common.unique_seq_to_set();
    }
    n
}

/// The Jaccard index of the word sets of two texts, in millionths.
pub fn token_overlap(a: &str, b: &str) -> (r: u32)
    ensures
        r == token_overlap_spec(a@, b@),
        r <= MILLION,
{
    let a_chars = chars_of(a);
    let b_chars = chars_of(b);
    let a_words = split_words(a_chars.as_slice());
    let b_words = split_words(b_chars.as_slice());
    let a_tokens = distinct_words(&a_words);
    let b_tokens = distinct_words(&b_words);
    if a_tokens.len() == 0 || b_tokens.len() == 0 {
        return 0;
    }
    let shared: usize = count_common(&a_tokens, &b_tokens);
    proof {
        seq_to_set_is_finite(words(a@));
        seq_to_set_is_finite(words(b@));
        lemma_set_intersect_union_lens(word_set(a@), word_set(b@));
        assert(word_set(a@).union(word_set(b@)) == word_set(a@) + word_set(b@));
    }
    let all: u128 = a_tokens.len() as u128 + b_tokens.len() as u128 - shared as u128;
    ratio_millionths(shared as u64, all)
}

/// The ASCII digits of a text, in order.
fn digits_of(text: &str) -> (out: Vec<char>)
    ensures
        out@ == digit_stream(text@),
{
    let mut out: Vec<char> = Vec::new();
    for c in it: text.chars()
        invariant
            it.seq() == text@,
            out@ == digit_stream(text@.take(it.index() as int)),
    {
        proof {
            let i = it.index() as int;
            assert(text@.take(i + 1).drop_last() == text@.take(i));
        }
        if is_ascii_digit(c) {
            out.push(c);
        }
    }
    assert(text@.take(text@.len() as int) == text@);
    out
}

/// Whether both texts hold digits, and not the same ones.
pub fn numeric_mismatch(a: &str, b: &str) -> (r: bool)
    ensures
        r == numeric_mismatch_spec(a@, b@),
{
    let digits_a = digits_of(a);
    let digits_b = digits_of(b);
    digits_a.len() > 0 && digits_b.len() > 0 && !chars_equal(
        digits_a.as_slice(),
        digits_b.as_slice(),
    )
}

/// The similarity of two texts, in millionths.
pub fn text_similarity(a: &str, b: &str) -> (r: u32)
    ensures
        r == text_similarity_spec(a@, b@),
        r <= MILLION,
{
    if a.is_empty() || b.is_empty() {
        return 0;
    }
    let base: u32 = normalized_levenshtein(a, b);
    let overlap: u32 = token_overlap(a, b);
    let mut score: i64 = (base as i64 + overlap as i64) / 2;
    if numeric_mismatch(a, b) {
        score -= 100_000;
    }
    clamp_to_ratio(score)
}

} // verus!
