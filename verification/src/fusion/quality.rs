use vstd::prelude::*;
use crate::text::chars::CharClass;
use crate::text::strings::{
    any_class, chars_of, count_chars, count_class, distinct_char_count, has_class, string_of,
};
use crate::text::words::{collapse_whitespace, collapse_whitespace_chars, is_blank, is_blank_chars};

verus! {

/// The number of precomposed Hangul syllables.
pub open spec fn syllable_count(s: Seq<char>) -> nat {
    count_chars(s, CharClass::HangulSyllable.pred())
}

/// The number of Hangul jamo.
pub open spec fn jamo_count(s: Seq<char>) -> nat {
    count_chars(s, CharClass::HangulJamo.pred())
}

/// Some character is Korean: a syllable or a jamo.
pub open spec fn has_korean_spec(s: Seq<char>) -> bool {
    has_class(s, CharClass::Korean)
}

/// The number of Han ideographs.
pub open spec fn hanja_count_spec(s: Seq<char>) -> nat {
    count_chars(s, CharClass::Hanja.pred())
}

/// Two points for each composed syllable, three points off for each loose jamo.
pub open spec fn korean_quality_spec(s: Seq<char>) -> int {
    2 * syllable_count(s) - 3 * jamo_count(s)
}

/// Korean text that the parser left decomposed.
pub open spec fn is_korean_parser_degraded_spec(s: Seq<char>) -> bool {
    has_korean_spec(s) && korean_quality_spec(s) < -2
}

/// The name of what `str::to_lowercase` returns for a text.
pub uninterp spec fn lowercase_of(s: Seq<char>) -> Seq<char>;

/// A text as it is compared: whitespace collapsed, then lower case.
pub open spec fn normalize_spec(s: Seq<char>) -> Seq<char> {
    lowercase_of(collapse_whitespace(s))
}

/// The number of ASCII letters, ASCII digits and Hangul syllables.
pub open spec fn alnum_or_syllable_count(s: Seq<char>) -> nat {
    count_chars(s, CharClass::AlnumOrSyllable.pred())
}

/// Whether a normalized text looks like OCR noise: it is too short, has next
/// to no letters, repeats one or two characters, mixes Hangul with Han
/// ideographs, or is Korean of low quality.
pub open spec fn is_noisy_normalized_spec(norm: Seq<char>) -> bool {
    ||| norm.len() <= 1
    ||| alnum_or_syllable_count(norm) <= 1
    ||| (norm.len() >= 6 && norm.to_set().len() <= 2)
    ||| (has_korean_spec(norm) && hanja_count_spec(norm) >= 2)
    ||| (has_korean_spec(norm) && korean_quality_spec(norm) < -6)
}

/// Whether a text looks like OCR noise once normalized.
pub open spec fn is_noisy_ocr_spec(s: Seq<char>) -> bool {
    is_noisy_normalized_spec(normalize_spec(s))
}

/// `str::to_lowercase` gives the lower-case form of a text under the Unicode case mappings.
#[verifier::external_body]
fn to_lowercase(text: &str) -> (r: String)
    ensures
        r@ == lowercase_of(text@),
{
    text.to_lowercase()
}

/// Whether a text is blank.
pub fn is_blank_text(text: &str) -> (r: bool)
    ensures
        r == is_blank(text@),
{
    let chars = chars_of(text);
    is_blank_chars(chars.as_slice())
}

/// Whether a text holds a Korean character.
pub fn has_korean_chars(text: &str) -> (r: bool)
    ensures
        r == has_korean_spec(text@),
{
    let chars = chars_of(text);
    any_class(chars.as_slice(), CharClass::Korean)
}

/// The number of Han ideographs of a text.
pub fn hanja_count(text: &str) -> (n: usize)
    ensures
        n == hanja_count_spec(text@),
{
    let chars = chars_of(text);
    count_class(chars.as_slice(), CharClass::Hanja)
}

/// The Korean quality of a character buffer.
pub fn korean_quality_of(chars: &[char]) -> (q: i128)
    ensures
        q == korean_quality_spec(chars@),
        -3 * usize::MAX <= q <= 2 * usize::MAX,
{
    let syllables: usize = count_class(chars, CharClass::HangulSyllable);
    let jamos: usize = count_class(chars, CharClass::HangulJamo);
    (syllables as i128) * 2 - (jamos as i128) * 3
}

/// Scores Korean text: composed syllables count for it, loose jamo against it.
pub fn korean_text_quality(text: &str) -> (q: i128)
    ensures
        q == korean_quality_spec(text@),
        -3 * usize::MAX <= q <= 2 * usize::MAX,
{
    let chars = chars_of(text);
    korean_quality_of(chars.as_slice())
}

/// Whether a text is Korean that the parser left decomposed.
pub fn is_korean_parser_degraded(text: &str) -> (r: bool)
    ensures
        r == is_korean_parser_degraded_spec(text@),
{
    has_korean_chars(text) && korean_text_quality(text) < -2
}

/// Collapses whitespace and lowers the case.
pub fn normalize_text_for_compare(text: &str) -> (r: String)
    ensures
        r@ == normalize_spec(text@),
{
    let chars = chars_of(text);
    let collapsed = collapse_whitespace_chars(chars.as_slice());
    let compact = string_of(collapsed.as_slice());
    to_lowercase(compact.as_str())
}

/// Judges a text that is already normalized.
pub fn is_noisy_normalized(norm: &str) -> (r: bool)
    ensures
        r == is_noisy_normalized_spec(norm@),
{
    let chars = chars_of(norm);
    let text: &[char] = chars.as_slice();
    if text.len() <= 1 {
        return true;
    }
    if count_class(text, CharClass::AlnumOrSyllable) <= 1 {
        return true;
    }
    if text.len() >= 6 && distinct_char_count(text) <= 2 {
        return true;
    }
    let korean: bool = any_class(text, CharClass::Korean);
    if korean && count_class(text, CharClass::Hanja) >= 2 {
        return true;
    }
    korean && korean_quality_of(text) < -6
}

/// Whether a text looks like OCR noise.
pub fn is_noisy_ocr_text(text: &str) -> (r: bool)
    ensures
        r == is_noisy_ocr_spec(text@),
{
    let norm = normalize_text_for_compare(text);
    is_noisy_normalized(norm.as_str())
}

} // verus!
