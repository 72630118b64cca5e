use vstd::prelude::*;
use crate::base::confidence::{
    adjust_confidence, adjust_confidence_spec, score_confidence, score_confidence_spec,
};
use crate::base::model::{
    copy_lines, copy_opt_string, lines_text, text_of_lines, Block, BlockDebug, BlockDebugView,
    BlockView, Line, LineView, PageClass, Provenance,
};
use crate::fusion::align::{MatchedPair, MatchedPairView};
use crate::fusion::compare::{text_similarity, text_similarity_spec};
use crate::fusion::align::{AlignmentResult, AlignmentResultView};
use crate::fusion::filters::{apply_filter_cascade, filter_cascade_spec};
use crate::fusion::laws::{lemma_filter_cascade_drawn, lemma_filter_cascade_idempotent};
use crate::fusion::quality::{
    has_korean_chars, has_korean_spec, is_blank_text, is_korean_parser_degraded,
    is_korean_parser_degraded_spec, is_noisy_ocr_spec, is_noisy_ocr_text, korean_quality_spec,
    korean_text_quality,
};
use crate::text::words::is_blank;

verus! {

/// The text of the lines, or nothing when they hold no character.
pub open spec fn text_from_lines_spec(lines: Seq<LineView>) -> Option<Seq<char>> {
    if lines_text(lines).len() == 0 {
        None
    } else {
        Some(lines_text(lines))
    }
}

/// Whether the boxes of a pair agree: they overlap by more than 0.3 or their
/// centres are less than 50 units apart.
pub open spec fn geometry_good_spec(pair: MatchedPairView) -> bool {
    pair.iou > 300_000 || pair.center_distance < 5_000
}

/// Whether a pair of texts below the agreement threshold is read from OCR.
pub open spec fn prefers_ocr_text(
    page_class: PageClass,
    similarity: u32,
    parser_text: Seq<char>,
    ocr_text: Seq<char>,
) -> bool {
    let korean = has_korean_spec(parser_text) || has_korean_spec(ocr_text);
    let parser_quality = korean_quality_spec(parser_text);
    let ocr_quality = korean_quality_spec(ocr_text);
    match page_class {
        PageClass::Digital => korean && similarity < 300_000 && ocr_quality > parser_quality + 5
            && ocr_text.len() >= parser_text.len() + 40,
        PageClass::Hybrid => (korean && similarity < 300_000 && ocr_quality > parser_quality + 4
            && ocr_text.len() >= parser_text.len() + 50) || (similarity < 350_000
            && ocr_text.len() >= parser_text.len() + 80 && !is_noisy_ocr_spec(ocr_text)),
        PageClass::Scanned => !is_blank(ocr_text) && !is_noisy_ocr_spec(ocr_text),
    }
}

/// Which lines a text pair keeps (`true` for those of OCR) and the provenance
/// it gets. Texts that agree to 0.72 or more are fused; below that one track wins.
pub open spec fn text_choice_spec(
    page_class: PageClass,
    similarity: u32,
    parser_text: Seq<char>,
    ocr_text: Seq<char>,
) -> (bool, Provenance) {
    if similarity >= 720_000 {
        (page_class == PageClass::Scanned, Provenance::Fused)
    } else if prefers_ocr_text(page_class, similarity, parser_text, ocr_text) {
        (true, Provenance::Ocr)
    } else {
        (false, Provenance::Parser)
    }
}

/// The confidence of a resolved text pair: the base score, less 0.2 for
/// degraded Korean kept from the parser, plus 0.05 for sound Korean taken from
/// OCR, plus 0.08 for OCR text on a scanned page, cut to `[0, 1]` after each step.
pub open spec fn pair_confidence_spec(
    base: u32,
    page_class: PageClass,
    provenance: Provenance,
    parser_text: Seq<char>,
    ocr_text: Seq<char>,
) -> u32 {
    let korean = has_korean_spec(parser_text) || has_korean_spec(ocr_text);
    let first = if korean && provenance == Provenance::Parser && korean_quality_spec(parser_text)
        < -2 {
        adjust_confidence_spec(base, -200_000i32) as u32
    } else {
        base
    };
    let second = if korean && provenance == Provenance::Ocr && korean_quality_spec(ocr_text) > 0 {
        adjust_confidence_spec(first, 50_000) as u32
    } else {
        first
    };
    if page_class == PageClass::Scanned && provenance == Provenance::Ocr {
        adjust_confidence_spec(second, 80_000) as u32
    } else {
        second
    }
}

/// The block that a matched pair resolves to. Two text blocks give a text
/// block in the parser's box; any other pair collapses to a figure that spans both boxes.
pub open spec fn resolve_pair_spec(pair: MatchedPairView, page_class: PageClass) -> BlockView {
    match (pair.a, pair.b) {
        (
            BlockView::TextBlock { bbox, lines: parser_lines, .. },
            BlockView::TextBlock { lines: ocr_lines, .. },
        ) => {
            let parser_text = lines_text(parser_lines);
            let ocr_text = lines_text(ocr_lines);
            let similarity = text_similarity_spec(parser_text, ocr_text) as u32;
            let base = score_confidence_spec(
                true,
                true,
                Some(similarity),
                geometry_good_spec(pair),
            ) as u32;
            let (use_ocr, provenance) = text_choice_spec(
                page_class,
                similarity,
                parser_text,
                ocr_text,
            );
            let lines = if use_ocr {
                ocr_lines
            } else {
                parser_lines
            };
            BlockView::TextBlock {
                bbox,
                lines,
                confidence: pair_confidence_spec(base, page_class, provenance, parser_text, ocr_text),
                source: provenance,
                debug: Some(
                    BlockDebugView {
                        parser_text: Some(parser_text),
                        ocr_text: Some(ocr_text),
                        final_text: text_from_lines_spec(lines),
                        similarity: Some(similarity),
                    },
                ),
            }
        },
        _ => BlockView::FigureBlock {
            bbox: pair.a.bbox().spec_union(pair.b.bbox()),
            confidence: score_confidence_spec(true, true, None, geometry_good_spec(pair)) as u32,
            source: Provenance::Fused,
            debug: None,
        },
    }
}

/// The confidence of a promoted block: the score of a block that one track
/// alone saw, less 0.2 for degraded Korean text from the parser; on a scanned
/// page 0.08 more for OCR and 0.1 less for the parser. `text` is the text of
/// a text block; a table, a figure or a formula has none.
pub open spec fn orphan_confidence_spec(
    provenance: Provenance,
    page_class: PageClass,
    text: Option<Seq<char>>,
) -> u32 {
    let base = score_confidence_spec(
        provenance == Provenance::Parser,
        provenance == Provenance::Ocr,
        None,
        true,
    ) as u32;
    let first = if provenance == Provenance::Parser && text is Some
        && is_korean_parser_degraded_spec(text->0) {
        adjust_confidence_spec(base, -200_000i32) as u32
    } else {
        base
    };
    if page_class != PageClass::Scanned {
        first
    } else if provenance == Provenance::Ocr {
        adjust_confidence_spec(first, 80_000) as u32
    } else if provenance == Provenance::Parser {
        adjust_confidence_spec(first, -100_000i32) as u32
    } else {
        first
    }
}

/// The block that an unmatched block becomes: the same variant in the same
/// box, with the given provenance and the confidence of an orphan. A text
/// block records its text; other blocks carry no debug trail.
pub open spec fn promote_single_spec(
    block: BlockView,
    provenance: Provenance,
    page_class: PageClass,
) -> BlockView {
    let plain = orphan_confidence_spec(provenance, page_class, None);
    match block {
        BlockView::TextBlock { bbox, lines, .. } => {
            let text = text_from_lines_spec(lines);
            BlockView::TextBlock {
                bbox,
                lines,
                confidence: orphan_confidence_spec(provenance, page_class, text),
                source: provenance,
                debug: Some(
                    BlockDebugView {
                        parser_text: if provenance == Provenance::Parser {
                            text
                        } else {
                            None
                        },
                        ocr_text: if provenance == Provenance::Ocr {
                            text
                        } else {
                            None
                        },
                        final_text: text,
                        similarity: None,
                    },
                ),
            }
        },
        BlockView::TableBlock { bbox, .. } => BlockView::TableBlock {
            bbox,
            confidence: plain,
            source: provenance,
            debug: None,
        },
        BlockView::FigureBlock { bbox, .. } => BlockView::FigureBlock {
            bbox,
            confidence: plain,
            source: provenance,
            debug: None,
        },
        BlockView::MathBlock { bbox, latex, .. } => BlockView::MathBlock {
            bbox,
            confidence: plain,
            source: provenance,
            latex,
            debug: None,
        },
    }
}

/// The text of the lines, or nothing when they hold no character.
pub fn text_from_lines(lines: &Vec<Line>) -> (r: Option<String>)
    ensures
        r.deep_view() == text_from_lines_spec(lines.deep_view()),
{
    let text = text_of_lines(lines);
    if text.as_str().is_empty() {
        None
    } else {
        Some(text)
    }
}

/// Decides whether a pair of texts below the agreement threshold is read from OCR.
fn prefers_ocr(page_class: PageClass, similarity: u32, parser_text: &str, ocr_text: &str) -> (r:
    bool)
    ensures
        r == prefers_ocr_text(page_class, similarity, parser_text@, ocr_text@),
{
    let korean: bool = has_korean_chars(parser_text) || has_korean_chars(ocr_text);
    let parser_quality: i128 = korean_text_quality(parser_text);
    let ocr_quality: i128 = korean_text_quality(ocr_text);
    let parser_len: u128 = parser_text.unicode_len() as u128;
    let ocr_len: u128 = ocr_text.unicode_len() as u128;
    match page_class {
        PageClass::Digital => korean && similarity < 300_000 && ocr_quality > parser_quality + 5
            && ocr_len >= parser_len + 40,
        PageClass::Hybrid => (korean && similarity < 300_000 && ocr_quality > parser_quality + 4
            && ocr_len >= parser_len + 50) || (similarity < 350_000 && ocr_len >= parser_len + 80
            && !is_noisy_ocr_text(ocr_text)),
        PageClass::Scanned => !is_blank_text(ocr_text) && !is_noisy_ocr_text(ocr_text),
    }
}

/// Chooses the lines (`true` for those of OCR) and the provenance of a text pair.
pub fn choose_text_source(
    page_class: PageClass,
    similarity: u32,
    parser_text: &str,
    ocr_text: &str,
) -> (choice: (bool, Provenance))
    ensures
        choice == text_choice_spec(page_class, similarity, parser_text@, ocr_text@),
{
    if similarity >= 720_000 {
        (page_class == PageClass::Scanned, Provenance::Fused)
    } else if prefers_ocr(page_class, similarity, parser_text, ocr_text) {
        (true, Provenance::Ocr)
    } else {
        (false, Provenance::Parser)
    }
}

/// Adjusts the base confidence of a resolved text pair.
pub fn pair_confidence(
    base: u32,
    page_class: PageClass,
    provenance: Provenance,
    parser_text: &str,
    ocr_text: &str,
) -> (confidence: u32)
    ensures
        confidence == pair_confidence_spec(base, page_class, provenance, parser_text@, ocr_text@),
        base <= 1_000_000 ==> confidence <= 1_000_000,
{
    let korean: bool = has_korean_chars(parser_text) || has_korean_chars(ocr_text);
    let mut confidence: u32 = base;
    if korean && provenance == Provenance::Parser && korean_text_quality(parser_text) < -2 {
        confidence = adjust_confidence(confidence, -200_000);
    }
    if korean && provenance == Provenance::Ocr && korean_text_quality(ocr_text) > 0 {
        confidence = adjust_confidence(confidence, 50_000);
    }
    if page_class == PageClass::Scanned && provenance == Provenance::Ocr {
        confidence = adjust_confidence(confidence, 80_000);
    }
    confidence
}

/// Resolves a matched pair into one block.
pub fn resolve_pair(pair: &MatchedPair, page_class: PageClass) -> (block: Block)
    ensures
        block@ == resolve_pair_spec(pair@, page_class),
        block@.wf(),
{
    let geometry_good: bool = pair.iou > 300_000 || pair.center_distance < 5_000;
    match (&pair.a, &pair.b) {
        (
            Block::TextBlock { bbox, lines: parser_lines, .. },
            Block::TextBlock { lines: ocr_lines, .. },
        ) => {
            let parser_text = text_of_lines(parser_lines);
            let ocr_text = text_of_lines(ocr_lines);
            let similarity: u32 = text_similarity(parser_text.as_str(), ocr_text.as_str());
            let base: u32 = score_confidence(true, true, Some(similarity), geometry_good);
            let (use_ocr, provenance) = choose_text_source(
                page_class,
                similarity,
                parser_text.as_str(),
                ocr_text.as_str(),
            );
            let lines = if use_ocr {
                copy_lines(ocr_lines)
            } else {
                copy_lines(parser_lines)
            };
            let confidence: u32 = pair_confidence(
                base,
                page_class,
                provenance,
                parser_text.as_str(),
                ocr_text.as_str(),
            );
            let final_text = text_from_lines(&lines);
            Block::TextBlock {
                bbox: *bbox,
                lines,
                confidence,
                source: provenance,
                debug: Some(
                    BlockDebug {
                        parser_text: Some(parser_text),
                        ocr_text: Some(ocr_text),
                        final_text,
                        similarity: Some(similarity),
                    },
                ),
            }
        },
        _ => Block::FigureBlock {
            bbox: pair.a.bbox().union(&pair.b.bbox()),
            confidence: score_confidence(true, true, None, geometry_good),
            source: Provenance::Fused,
            debug: None,
        },
    }
}

/// Scores a promoted block; `text` is the text of a text block, none for other blocks.
pub fn orphan_confidence(
    provenance: Provenance,
    page_class: PageClass,
    text: &Option<String>,
) -> (confidence: u32)
    ensures
        confidence == orphan_confidence_spec(provenance, page_class, text.deep_view()),
        confidence <= 1_000_000,
{
    let mut confidence: u32 = score_confidence(
        provenance == Provenance::Parser,
        provenance == Provenance::Ocr,
        None,
        true,
    );
    let degraded: bool = match text {
        Some(t) => is_korean_parser_degraded(t.as_str()),
        None => false,
    };
    if provenance == Provenance::Parser && degraded {
        confidence = adjust_confidence(confidence, -200_000);
    }
    if page_class == PageClass::Scanned {
        if provenance == Provenance::Ocr {
            confidence = adjust_confidence(confidence, 80_000);
        } else if provenance == Provenance::Parser {
            confidence = adjust_confidence(confidence, -100_000);
        }
    }
    confidence
}

/// Promotes an unmatched block to a block of the fused page.
pub fn promote_single(block: Block, provenance: Provenance, page_class: PageClass) -> (promoted:
    Block)
    ensures
        promoted@ == promote_single_spec(block@, provenance, page_class),
        promoted@.wf(),
{
    let plain: u32 = orphan_confidence(provenance, page_class, &None);
    match block {
        Block::TextBlock { bbox, lines, .. } => {
            let final_text = text_from_lines(&lines);
            let confidence: u32 = orphan_confidence(provenance, page_class, &final_text);
            let parser_text = if provenance == Provenance::Parser {
                copy_opt_string(&final_text)
            } else {
                None
            };
            let ocr_text = if provenance == Provenance::Ocr {
                copy_opt_string(&final_text)
            } else {
                None
            };
            Block::TextBlock {
                bbox,
                lines,
                confidence,
                source: provenance,
                debug: Some(BlockDebug { parser_text, ocr_text, final_text, similarity: None }),
            }
        },
        Block::TableBlock { bbox, .. } => Block::TableBlock {
            bbox,
            confidence: plain,
            source: provenance,
            debug: None,
        },
        Block::FigureBlock { bbox, .. } => Block::FigureBlock {
            bbox,
            confidence: plain,
            source: provenance,
            debug: None,
        },
        Block::MathBlock { bbox, latex, .. } => Block::MathBlock {
            bbox,
            confidence: plain,
            source: provenance,
            latex,
            debug: None,
        },
    }
}

/// The blocks of an alignment before filtering: the resolved pairs, then the
/// promoted parser blocks, then the promoted OCR blocks, each group in its order.
pub open spec fn promoted_blocks_spec(alignment: AlignmentResultView, page_class: PageClass) -> Seq<
    BlockView,
> {
    alignment.matched.map_values(|pair: MatchedPairView| resolve_pair_spec(pair, page_class))
        + alignment.unmatched_a.map_values(
        |b: BlockView| promote_single_spec(b, Provenance::Parser, page_class),
    ) + alignment.unmatched_b.map_values(
        |b: BlockView| promote_single_spec(b, Provenance::Ocr, page_class),
    )
}

/// The blocks of the fused page: what the alignment promotes, passed through the filter cascade.
pub open spec fn resolve_blocks_spec(alignment: AlignmentResultView, page_class: PageClass) -> Seq<
    BlockView,
> {
    filter_cascade_spec(promoted_blocks_spec(alignment, page_class), page_class)
}

/// Resolves every pair and promotes every unmatched block.
pub fn promote_blocks(alignment: &AlignmentResult, page_class: PageClass) -> (blocks: Vec<Block>)
    ensures
        blocks.deep_view() == promoted_blocks_spec(alignment@, page_class),
        forall|i: int| 0 <= i < blocks@.len() ==> (#[trigger] blocks@[i])@.wf(),
{
    let ghost pairs = alignment@.matched.map_values(
        |pair: MatchedPairView| resolve_pair_spec(pair, page_class),
    );
    let ghost from_parser = alignment@.unmatched_a.map_values(
        |b: BlockView| promote_single_spec(b, Provenance::Parser, page_class),
    );
    let ghost from_ocr = alignment@.unmatched_b.map_values(
        |b: BlockView| promote_single_spec(b, Provenance::Ocr, page_class),
    );
    let mut blocks: Vec<Block> = Vec::new();
    let mut i: usize = 0;
    while i < alignment.matched.len()
        invariant
            i <= alignment.matched.len(),
            pairs == alignment@.matched.map_values(
                |pair: MatchedPairView| resolve_pair_spec(pair, page_class),
            ),
            blocks.deep_view() == pairs.take(i as int),
            forall|k: int| 0 <= k < blocks@.len() ==> (#[trigger] blocks@[k])@.wf(),
        decreases alignment.matched.len() - i,
    {
        let ghost before = blocks.deep_view();
        assert(alignment@.matched[i as int] == alignment.matched@[i as int]@);
        blocks.push(resolve_pair(&alignment.matched[i], page_class));
        assert(blocks.deep_view() =~= before.push(pairs[i as int]));
        assert(pairs.take(i + 1) =~= before.push(pairs[i as int]));
        i += 1;
    }
    assert(pairs.take(pairs.len() as int) == pairs);
    let mut j: usize = 0;
    assert(pairs + from_parser.take(0) =~= pairs);
    while j < alignment.unmatched_a.len()
        invariant
            j <= alignment.unmatched_a.len(),
            from_parser == alignment@.unmatched_a.map_values(
                |b: BlockView| promote_single_spec(b, Provenance::Parser, page_class),
            ),
            blocks.deep_view() == pairs + from_parser.take(j as int),
            forall|k: int| 0 <= k < blocks@.len() ==> (#[trigger] blocks@[k])@.wf(),
        decreases alignment.unmatched_a.len() - j,
    {
        let ghost before = blocks.deep_view();
        assert(alignment@.unmatched_a[j as int] == alignment.unmatched_a@[j as int]@);
        blocks.push(promote_single(alignment.unmatched_a[j].duplicate(), Provenance::Parser, page_class));
        assert(blocks.deep_view() =~= before.push(from_parser[j as int]));
        assert(pairs + from_parser.take(j + 1) =~= before.push(from_parser[j as int]));
        j += 1;
    }
    assert(from_parser.take(from_parser.len() as int) == from_parser);
    let mut k: usize = 0;
    assert(pairs + from_parser + from_ocr.take(0) =~= pairs + from_parser);
    while k < alignment.unmatched_b.len()
        invariant
            k <= alignment.unmatched_b.len(),
            from_ocr == alignment@.unmatched_b.map_values(
                |b: BlockView| promote_single_spec(b, Provenance::Ocr, page_class),
            ),
            blocks.deep_view() == pairs + from_parser + from_ocr.take(k as int),
            forall|n: int| 0 <= n < blocks@.len() ==> (#[trigger] blocks@[n])@.wf(),
        decreases alignment.unmatched_b.len() - k,
    {
        let ghost before = blocks.deep_view();
        assert(alignment@.unmatched_b[k as int] == alignment.unmatched_b@[k as int]@);
        blocks.push(promote_single(alignment.unmatched_b[k].duplicate(), Provenance::Ocr, page_class));
        assert(blocks.deep_view() =~= before.push(from_ocr[k as int]));
        assert(pairs + from_parser + from_ocr.take(k + 1) =~= before.push(from_ocr[k as int]));
        k += 1;
    }
    assert(from_ocr.take(from_ocr.len() as int) == from_ocr);
    blocks
}

/// Turns an alignment into the blocks of the fused page. Every block has a
/// confidence within `[0, 1]`.
pub fn resolve_blocks(alignment: &AlignmentResult, page_class: PageClass) -> (blocks: Vec<Block>)
    ensures
        blocks.deep_view() == resolve_blocks_spec(alignment@, page_class),
        forall|i: int| 0 <= i < blocks@.len() ==> (#[trigger] blocks@[i])@.wf(),
{
    let promoted = promote_blocks(alignment, page_class);
    let ghost before = promoted.deep_view();
    let blocks = apply_filter_cascade(promoted, page_class);
    proof {
        lemma_filter_cascade_drawn(before, page_class);
        assert forall|i: int| 0 <= i < blocks@.len() implies (#[trigger] blocks@[i])@.wf() by {
            let view = blocks.deep_view()[i];
            assert(blocks.deep_view().contains(view));
            assert(before.contains(view));
            let k = choose|k: int| 0 <= k < before.len() && before[k] == view;
            assert(before[k] == promoted@[k]@);
        }
    }
    blocks
}

/// The blocks of a fused page have passed the filter cascade: passing them
/// through it again changes nothing.
pub proof fn lemma_resolved_blocks_are_settled(alignment: AlignmentResultView, page_class: PageClass)
    ensures
        filter_cascade_spec(resolve_blocks_spec(alignment, page_class), page_class)
            == resolve_blocks_spec(alignment, page_class),
{
    lemma_filter_cascade_idempotent(promoted_blocks_spec(alignment, page_class), page_class);
}

} // verus!
