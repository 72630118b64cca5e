use vstd::prelude::*;
use unicode_normalization::UnicodeNormalization;
use crate::text::chars::{is_hangul_jamo, is_hangul_jamo_spec, is_whitespace, is_whitespace_spec};
use crate::text::strings::{chars_of, string_of};

verus! {

/// The code point of the first precomposed syllable.
pub const HANGUL_BASE: u32 = 0xAC00;

/// The number of trailing consonants, the empty one included.
pub const JONGSEONG_COUNT: u32 = 28;

/// The number of vowels.
pub const JUNGSEONG_COUNT: u32 = 21;

/// The number of leading consonants.
pub const CHOSEONG_COUNT: u32 = 19;

/// The index of a leading consonant, U+1100 to U+1112.
pub open spec fn choseong_index(c: char) -> Option<u32> {
    if 0x1100 <= c as u32 <= 0x1112 {
        Some((c as u32 - 0x1100) as u32)
    } else {
        None
    }
}

/// The index of a vowel, U+1161 to U+1175.
pub open spec fn jungseong_index(c: char) -> Option<u32> {
    if 0x1161 <= c as u32 <= 0x1175 {
        Some((c as u32 - 0x1161) as u32)
    } else {
        None
    }
}

/// The index of a trailing consonant, U+11A8 to U+11C2, counted from one.
pub open spec fn jongseong_index(c: char) -> Option<u32> {
    if 0x11A8 <= c as u32 <= 0x11C2 {
        Some((c as u32 - 0x11A8 + 1) as u32)
    } else {
        None
    }
}

/// The precomposed syllable of a leading consonant, a vowel and a trailing
/// consonant (zero for none), where the three indices are in range.
pub open spec fn compose_syllable_spec(cho: u32, jung: u32, jong: u32) -> Option<char> {
    if cho >= 19 || jung >= 21 || jong >= 28 {
        None
    } else {
        Some((0xAC00 + cho * 588 + jung * 28 + jong) as char)
    }
}

/// The last character before position `i` that is not whitespace.
pub open spec fn last_solid_before(s: Seq<char>, i: int) -> Option<char>
    decreases i,
{
    if i <= 0 || i > s.len() {
        None
    } else if !is_whitespace_spec(s[i - 1]) {
        Some(s[i - 1])
    } else {
        last_solid_before(s, i - 1)
    }
}

/// The first character at or after position `i` that is not whitespace.
pub open spec fn first_solid_from(s: Seq<char>, i: int) -> Option<char>
    decreases s.len() - i,
{
    if i < 0 || i >= s.len() {
        None
    } else if !is_whitespace_spec(s[i]) {
        Some(s[i])
    } else {
        first_solid_from(s, i + 1)
    }
}

/// The character at `i` is whitespace, and the nearest characters that are
/// not whitespace, on both sides, are jamo.
pub open spec fn sits_between_jamos(s: Seq<char>, i: int) -> bool {
    &&& 0 <= i < s.len()
    &&& is_whitespace_spec(s[i])
    &&& last_solid_before(s, i) matches Some(p) && is_hangul_jamo_spec(p)
    &&& first_solid_from(s, i + 1) matches Some(n) && is_hangul_jamo_spec(n)
}

/// The first `n` characters of `s` without the whitespace that sits between jamo.
pub open spec fn strip_between_jamos(s: Seq<char>, n: int) -> Seq<char>
    decreases n,
{
    if n <= 0 {
        Seq::empty()
    } else if sits_between_jamos(s, n - 1) {
        strip_between_jamos(s, n - 1)
    } else {
        strip_between_jamos(s, n - 1).push(s[n - 1])
    }
}

/// `s` without the whitespace that sits between jamo; other whitespace stays.
pub open spec fn remove_intra_jamo_whitespace_spec(s: Seq<char>) -> Seq<char> {
    strip_between_jamos(s, s.len() as int)
}

/// The composition of `s` from position `i` on, read left to right: a
/// leading consonant followed by a vowel becomes one syllable, which takes a
/// trailing consonant where one follows directly; any other character stays.
pub open spec fn compose_from(s: Seq<char>, i: int) -> Seq<char>
    decreases s.len() - i,
{
    if i < 0 || i >= s.len() {
        Seq::empty()
    } else if choseong_index(s[i]) is Some && i + 1 < s.len() && jungseong_index(s[i + 1]) is Some {
        let cho = choseong_index(s[i])->0;
        let jung = jungseong_index(s[i + 1])->0;
        if i + 2 < s.len() && jongseong_index(s[i + 2]) is Some {
            seq![compose_syllable_spec(cho, jung, jongseong_index(s[i + 2])->0)->0] + compose_from(
                s,
                i + 3,
            )
        } else {
            seq![compose_syllable_spec(cho, jung, 0)->0] + compose_from(s, i + 2)
        }
    } else {
        seq![s[i]] + compose_from(s, i + 1)
    }
}

/// The composition of the conjoining jamo of `s` into syllables.
pub open spec fn compose_jamo_spec(s: Seq<char>) -> Seq<char> {
    compose_from(s, 0)
}

/// The name of what Unicode normalization to form KC returns for a text.
pub uninterp spec fn nfkc_of(s: Seq<char>) -> Seq<char>;

/// The name of what Unicode normalization to form C returns for a text.
pub uninterp spec fn nfc_of(s: Seq<char>) -> Seq<char>;

/// The composition of a text: normalized to form KC, freed of the whitespace
/// between jamo, normalized to form C, and composed jamo by jamo.
pub open spec fn combine_hangul_spec(s: Seq<char>) -> Seq<char> {
    compose_jamo_spec(nfc_of(remove_intra_jamo_whitespace_spec(nfkc_of(s))))
}

/// `char::from_u32` gives the character of a code point, and nothing for a
/// surrogate or a number beyond U+10FFFF.
pub assume_specification[ char::from_u32 ](code: u32) -> (r: Option<char>)
    ensures
        (code <= 0xD7FF || 0xE000 <= code <= 0x10FFFF) ==> r == Some(code as char),
        !(code <= 0xD7FF || 0xE000 <= code <= 0x10FFFF) ==> r is None,
;

/// `UnicodeNormalization::nfkc` of the crate unicode-normalization yields the
/// characters of the text in normalization form KC.
#[verifier::external_body]
fn to_nfkc(text: &str) -> (r: String)
    ensures
        r@ == nfkc_of(text@),
{
    text.nfkc().collect::<String>()
}

/// `UnicodeNormalization::nfc` of the crate unicode-normalization yields the
/// characters of the text in normalization form C.
#[verifier::external_body]
fn to_nfc(text: &str) -> (r: String)
    ensures
        r@ == nfc_of(text@),
{
    text.nfc().collect::<String>()
}

/// The index of a leading consonant.
pub fn get_choseong_index(c: char) -> (r: Option<u32>)
    ensures
        r == choseong_index(c),
{
    let code: u32 = c as u32;
    if 0x1100 <= code && code <= 0x1112 {
        Some(code - 0x1100)
    } else {
        None
    }
}

/// The index of a vowel.
pub fn get_jungseong_index(c: char) -> (r: Option<u32>)
    ensures
        r == jungseong_index(c),
{
    let code: u32 = c as u32;
    if 0x1161 <= code && code <= 0x1175 {
        Some(code - 0x1161)
    } else {
        None
    }
}

/// The index of a trailing consonant, counted from one.
pub fn get_jongseong_index(c: char) -> (r: Option<u32>)
    ensures
        r == jongseong_index(c),
{
    let code: u32 = c as u32;
    if 0x11A8 <= code && code <= 0x11C2 {
        Some(code - 0x11A8 + 1)
    } else {
        None
    }
}

/// Whether a character is a leading consonant that composes.
pub fn is_choseong(c: char) -> (r: bool)
    ensures
        r == choseong_index(c) is Some,
{
    get_choseong_index(c).is_some()
}

/// Whether a character is a vowel that composes.
pub fn is_jungseong(c: char) -> (r: bool)
    ensures
        r == jungseong_index(c) is Some,
{
    get_jungseong_index(c).is_some()
}

/// Whether a character is a trailing consonant that composes.
pub fn is_jongseong(c: char) -> (r: bool)
    ensures
        r == jongseong_index(c) is Some,
{
    get_jongseong_index(c).is_some()
}

/// Whether a character is a jamo of any block, the compatibility block included.
pub fn is_hangul_jamo_or_compat(c: char) -> (r: bool)
    ensures
        r == is_hangul_jamo_spec(c),
{
    is_hangul_jamo(c)
}

/// Composes a syllable from the indices of its jamo; `jong` is zero for a
/// syllable without trailing consonant.
pub fn compose_syllable(cho: u32, jung: u32, jong: u32) -> (r: Option<char>)
    ensures
        r == compose_syllable_spec(cho, jung, jong),
{
    if cho >= CHOSEONG_COUNT || jung >= JUNGSEONG_COUNT || jong >= JONGSEONG_COUNT {
        return None;
    }
    let code: u32 = HANGUL_BASE + (cho * JUNGSEONG_COUNT * JONGSEONG_COUNT) + (jung
        * JONGSEONG_COUNT) + jong;
    char::from_u32(code)
}

/// Removes the whitespace that sits between jamo from a character buffer.
pub fn strip_intra_jamo_whitespace(chars: &[char]) -> (out: Vec<char>)
    ensures
        out@ == remove_intra_jamo_whitespace_spec(chars@),
{
    let n: usize = chars.len();
    let mut nexts: Vec<Option<char>> = Vec::new();
    nexts.push(None);
    let mut f: usize = 0;
    while f < n
        invariant
            f <= n,
            n == chars.len(),
            nexts@.len() == f + 1,
            forall|j: int| 0 <= j <= f ==> nexts@[j] is None,
        decreases n - f,
    {
        nexts.push(None);
        f += 1;
    }
    let mut k: usize = n;
    while k > 0
        invariant
            k <= n,
            n == chars.len(),
            nexts@.len() == n + 1,
            forall|j: int| k <= j <= n ==> #[trigger] nexts@[j] == first_solid_from(chars@, j),
        decreases k,
    {
        k -= 1;
        let c: char = chars[k];
        let next: Option<char> = if !is_whitespace(c) {
            Some(c)
        } else {
            nexts[k + 1]
        };
        nexts[k] = next;
    }
    let mut out: Vec<char> = Vec::new();
    let mut prev: Option<char> = None;
    let mut i: usize = 0;
    while i < n
        invariant
            i <= n,
            n == chars.len(),
            nexts@.len() == n + 1,
            forall|j: int| 0 <= j <= n ==> #[trigger] nexts@[j] == first_solid_from(chars@, j),
            prev == last_solid_before(chars@, i as int),
            out@ == strip_between_jamos(chars@, i as int),
        decreases n - i,
    {
        let c: char = chars[i];
        let mut drop_it: bool = false;
        if is_whitespace(c) {
            if let Some(p) = prev {
                if let Some(nx) = nexts[i + 1] {
                    drop_it = is_hangul_jamo(p) && is_hangul_jamo(nx);
                }
            }
        } else {
            prev = Some(c);
        }
        if !drop_it {
            out.push(c);
        }
        i += 1;
    }
    out
}

/// Removes the whitespace that sits between jamo; other whitespace stays.
pub fn remove_intra_jamo_whitespace(text: &str) -> (r: String)
    ensures
        r@ == remove_intra_jamo_whitespace_spec(text@),
{
    let chars = chars_of(text);
    let out = strip_intra_jamo_whitespace(chars.as_slice());
    string_of(out.as_slice())
}

/// Composes the conjoining jamo of a character buffer into syllables.
pub fn compose_jamo_chars(chars: &[char]) -> (out: Vec<char>)
    ensures
        out@ == compose_jamo_spec(chars@),
{
    let n: usize = chars.len();
    let mut out: Vec<char> = Vec::new();
    let mut i: usize = 0;
    assert(out@ + compose_from(chars@, 0) =~= compose_from(chars@, 0));
    while i < n
        invariant
            i <= n,
            n == chars.len(),
            out@ + compose_from(chars@, i as int) == compose_from(chars@, 0),
        decreases n - i,
    {
        let ghost before = out@;
        let c: char = chars[i];
        let mut step: usize = 1;
        let mut emitted: char = c;
        if let Some(cho) = get_choseong_index(c) {
            if i + 1 < n {
                if let Some(jung) = get_jungseong_index(chars[i + 1]) {
                    let mut jong: u32 = 0;
                    step = 2;
                    if i + 2 < n {
                        if let Some(j) = get_jongseong_index(chars[i + 2]) {
                            jong = j;
                            step = 3;
                        }
                    }
                    if let Some(syllable) = compose_syllable(cho, jung, jong) {
                        emitted = syllable;
                    }
                }
            }
        }
        out.push(emitted);
        proof {
            assert(compose_from(chars@, i as int) == seq![emitted] + compose_from(
                chars@,
                i + step,
            ));
            assert(before.push(emitted) + compose_from(chars@, i + step) =~= before + (seq![
                emitted,
            ] + compose_from(chars@, i + step)));
        }
        i += step;
    }
    assert(out@ + compose_from(chars@, n as int) =~= out@);
    out
}

/// Composes the conjoining jamo of a text into syllables.
pub fn compose_jamo(text: &str) -> (r: String)
    ensures
        r@ == compose_jamo_spec(text@),
{
    let chars = chars_of(text);
    let out = compose_jamo_chars(chars.as_slice());
    string_of(out.as_slice())
}

/// Combines separated Hangul jamo into complete syllables and keeps the
/// spacing between words.
pub fn combine_hangul(text: &str) -> (r: String)
    ensures
        r@ == combine_hangul_spec(text@),
{
    let normalized = to_nfkc(text);
    let compact = remove_intra_jamo_whitespace(normalized.as_str());
    let recomposed = to_nfc(compact.as_str());
    compose_jamo(recomposed.as_str())
}

} // verus!
