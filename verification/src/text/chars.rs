use vstd::prelude::*;

verus! {

/// The code point lies in the closed range `lo..=hi`.
pub open spec fn in_range(c: char, lo: u32, hi: u32) -> bool {
    lo <= c as u32 <= hi
}

/// Characters with the Unicode `White_Space` property.
pub open spec fn is_whitespace_spec(c: char) -> bool {
    ||| in_range(c, 0x0009, 0x000D)
    ||| c as u32 == 0x0020
    ||| c as u32 == 0x0085
    ||| c as u32 == 0x00A0
    ||| c as u32 == 0x1680
    ||| in_range(c, 0x2000, 0x200A)
    ||| c as u32 == 0x2028
    ||| c as u32 == 0x2029
    ||| c as u32 == 0x202F
    ||| c as u32 == 0x205F
    ||| c as u32 == 0x3000
}

/// Precomposed Hangul syllables, U+AC00 to U+D7A3.
pub open spec fn is_hangul_syllable_spec(c: char) -> bool {
    in_range(c, 0xAC00, 0xD7A3)
}

/// Hangul jamo: the conjoining block, the compatibility block and the two extended blocks.
pub open spec fn is_hangul_jamo_spec(c: char) -> bool {
    ||| in_range(c, 0x1100, 0x11FF)
    ||| in_range(c, 0x3130, 0x318F)
    ||| in_range(c, 0xA960, 0xA97F)
    ||| in_range(c, 0xD7B0, 0xD7FF)
}

/// Any Korean character: a syllable or a jamo.
pub open spec fn is_korean_spec(c: char) -> bool {
    is_hangul_syllable_spec(c) || is_hangul_jamo_spec(c)
}

/// Han ideographs: extension A, the unified block and the compatibility block.
pub open spec fn is_hanja_spec(c: char) -> bool {
    ||| in_range(c, 0x3400, 0x4DBF)
    ||| in_range(c, 0x4E00, 0x9FFF)
    ||| in_range(c, 0xF900, 0xFAFF)
}

/// The ASCII digits `0` to `9`.
pub open spec fn is_ascii_digit_spec(c: char) -> bool {
    in_range(c, 0x30, 0x39)
}

/// ASCII letters and digits.
pub open spec fn is_ascii_alphanumeric_spec(c: char) -> bool {
    ||| in_range(c, 0x30, 0x39)
    ||| in_range(c, 0x41, 0x5A)
    ||| in_range(c, 0x61, 0x7A)
}

/// An ASCII letter, an ASCII digit or a precomposed Hangul syllable.
pub open spec fn is_alnum_or_syllable_spec(c: char) -> bool {
    is_ascii_alphanumeric_spec(c) || is_hangul_syllable_spec(c)
}

/// Whether a character is whitespace.
pub fn is_whitespace(c: char) -> (r: bool)
    ensures
        r == is_whitespace_spec(c),
{
    let code: u32 = c as u32;
    (0x0009 <= code && code <= 0x000D) || code == 0x0020 || code == 0x0085 || code == 0x00A0
        || code == 0x1680 || (0x2000 <= code && code <= 0x200A) || code == 0x2028 || code
        == 0x2029 || code == 0x202F || code == 0x205F || code == 0x3000
}

/// Whether a character is a precomposed Hangul syllable.
pub fn is_hangul_syllable(c: char) -> (r: bool)
    ensures
        r == is_hangul_syllable_spec(c),
{
    let code: u32 = c as u32;
    0xAC00 <= code && code <= 0xD7A3
}

/// Whether a character is a Hangul jamo.
pub fn is_hangul_jamo(c: char) -> (r: bool)
    ensures
        r == is_hangul_jamo_spec(c),
{
    let code: u32 = c as u32;
    (0x1100 <= code && code <= 0x11FF) || (0x3130 <= code && code <= 0x318F) || (0xA960 <= code
        && code <= 0xA97F) || (0xD7B0 <= code && code <= 0xD7FF)
}

/// Whether a character is Korean.
pub fn is_korean(c: char) -> (r: bool)
    ensures
        r == is_korean_spec(c),
{
    is_hangul_syllable(c) || is_hangul_jamo(c)
}

/// Whether a character is a Han ideograph.
pub fn is_hanja(c: char) -> (r: bool)
    ensures
        r == is_hanja_spec(c),
{
    let code: u32 = c as u32;
    (0x3400 <= code && code <= 0x4DBF) || (0x4E00 <= code && code <= 0x9FFF) || (0xF900 <= code
        && code <= 0xFAFF)
}

/// Whether a character is an ASCII digit.
pub fn is_ascii_digit(c: char) -> (r: bool)
    ensures
        r == is_ascii_digit_spec(c),
{
    let code: u32 = c as u32;
    0x30 <= code && code <= 0x39
}

/// Whether a character is an ASCII letter or digit.
pub fn is_ascii_alphanumeric(c: char) -> (r: bool)
    ensures
        r == is_ascii_alphanumeric_spec(c),
{
    let code: u32 = c as u32;
    (0x30 <= code && code <= 0x39) || (0x41 <= code && code <= 0x5A) || (0x61 <= code && code
        <= 0x7A)
}

/// Whether a character is an ASCII letter, an ASCII digit or a Hangul syllable.
pub fn is_alnum_or_syllable(c: char) -> (r: bool)
    ensures
        r == is_alnum_or_syllable_spec(c),
{
    is_ascii_alphanumeric(c) || is_hangul_syllable(c)
}

/// The character classes that the text heuristics count.
#[derive(Debug, Clone, Copy, PartialEq, Eq, Structural)]
pub enum CharClass {
    Whitespace,
    HangulSyllable,
    HangulJamo,
    Korean,
    Hanja,
    AsciiDigit,
    AsciiAlphanumeric,
    AlnumOrSyllable,
}

impl CharClass {
    /// Whether `c` belongs to the class.
    pub open spec fn holds(self, c: char) -> bool {
        match self {
            CharClass::Whitespace => is_whitespace_spec(c),
            CharClass::HangulSyllable => is_hangul_syllable_spec(c),
            CharClass::HangulJamo => is_hangul_jamo_spec(c),
            CharClass::Korean => is_korean_spec(c),
            CharClass::Hanja => is_hanja_spec(c),
            CharClass::AsciiDigit => is_ascii_digit_spec(c),
            CharClass::AsciiAlphanumeric => is_ascii_alphanumeric_spec(c),
            CharClass::AlnumOrSyllable => is_alnum_or_syllable_spec(c),
        }
    }

    /// The class as a predicate.
    pub open spec fn pred(self) -> spec_fn(char) -> bool {
        |c: char| self.holds(c)
    }

    /// The characters outside the class, as a predicate.
    pub open spec fn negated(self) -> spec_fn(char) -> bool {
        |c: char| !self.holds(c)
    }

    /// Tests whether `c` belongs to the class.
    pub fn test(self, c: char) -> (r: bool)
        ensures
            r == self.holds(c),
    {
        match self {
            CharClass::Whitespace => is_whitespace(c),
            CharClass::HangulSyllable => is_hangul_syllable(c),
            CharClass::HangulJamo => is_hangul_jamo(c),
            CharClass::Korean => is_korean(c),
            CharClass::Hanja => is_hanja(c),
            CharClass::AsciiDigit => is_ascii_digit(c),
            CharClass::AsciiAlphanumeric => is_ascii_alphanumeric(c),
            CharClass::AlnumOrSyllable => is_alnum_or_syllable(c),
        }
    }
}

} // verus!
