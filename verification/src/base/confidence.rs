use vstd::prelude::*;
use crate::base::fixed::MILLION;

verus! {

/// `x` cut to the range of a ratio in millionths.
pub open spec fn clamp_ratio(x: int) -> int {
    if x < 0 {
        0
    } else if x > MILLION {
        MILLION as int
    } else {
        x
    }
}

/// What an agreement between the two texts adds to the confidence, in millionths.
pub open spec fn similarity_term(similarity: Option<u32>) -> int {
    match similarity {
        None => 0,
        Some(sim) => if sim >= 900_000 {
            300_000
        } else if sim >= 700_000 {
            150_000
        } else {
            -200_000
        },
    }
}

/// The confidence of a block, in millionths: 0.4 for the parser, 0.3 for OCR,
/// the similarity term, and 0.1 added or taken for the geometry, cut to `[0, 1]`.
pub open spec fn score_confidence_spec(
    has_parser: bool,
    has_ocr: bool,
    similarity: Option<u32>,
    geometry_good: bool,
) -> int {
    clamp_ratio(
        (if has_parser { 400_000int } else { 0 }) + (if has_ocr { 300_000int } else { 0 })
            + similarity_term(similarity) + (if geometry_good { 100_000int } else { -100_000 }),
    )
}

/// `confidence` moved by `delta` millionths and cut to `[0, 1]`.
pub open spec fn adjust_confidence_spec(confidence: u32, delta: i32) -> int {
    clamp_ratio(confidence + delta)
}

/// Cuts a value to the range of a ratio.
pub fn clamp_to_ratio(x: i64) -> (r: u32)
    ensures
        r == clamp_ratio(x as int),
        r <= MILLION,
{
    if x < 0 {
        0
    } else if x > MILLION as i64 {
        MILLION
    } else {
        x as u32
    }
}

/// Scores a block from which tracks saw it, how well their texts agree and
/// whether their boxes agree.
pub fn score_confidence(
    has_parser: bool,
    has_ocr: bool,
    similarity: Option<u32>,
    geometry_good: bool,
) -> (score: u32)
    ensures
        score == score_confidence_spec(has_parser, has_ocr, similarity, geometry_good),
        score <= MILLION,
{
    let mut score: i64 = 0;
    if has_parser {
        score += 400_000;
    }
    if has_ocr {
        score += 300_000;
    }
    if let Some(sim) = similarity {
        if sim >= 900_000 {
            score += 300_000;
        } else if sim >= 700_000 {
            score += 150_000;
        } else {
            score -= 200_000;
        }
    }
    if geometry_good {
        score += 100_000;
    } else {
        score -= 100_000;
    }
    clamp_to_ratio(score)
}

/// Moves a confidence by `delta` millionths, staying within `[0, 1]`.
pub fn adjust_confidence(confidence: u32, delta: i32) -> (r: u32)
    ensures
        r == adjust_confidence_spec(confidence, delta),
        r <= MILLION,
{
    clamp_to_ratio(confidence as i64 + delta as i64)
}

} // verus!
