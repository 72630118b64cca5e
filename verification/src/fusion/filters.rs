use vstd::prelude::*;
use crate::base::geometry::BBox;
use crate::base::model::{text_of_lines, Block, BlockKind, BlockView, PageClass, Provenance};
use crate::fusion::compare::{text_similarity, text_similarity_spec};
use crate::fusion::quality::{
    has_korean_chars, has_korean_spec, is_blank_text, is_noisy_ocr_spec, is_noisy_ocr_text, korean_quality_spec,
    korean_text_quality, normalize_spec, normalize_text_for_compare, syllable_count,
};
use crate::text::chars::CharClass;
use crate::text::strings::{chars_of, contains_chars, contains_run, count_class};
use crate::text::words::is_blank;

verus! {

/// A text block on the OCR side (`ocr_side`) or on the parser side, which
/// holds what the parser produced and what fusion confirmed.
pub open spec fn on_side(b: BlockView, ocr_side: bool) -> bool {
    b.kind() == BlockKind::Text && ((b.provenance() == Provenance::Ocr) == ocr_side)
}

/// The texts of the text blocks of one side, in order.
pub open spec fn side_texts(blocks: Seq<BlockView>, ocr_side: bool) -> Seq<Seq<char>>
    decreases blocks.len(),
{
    if blocks.len() == 0 {
        Seq::empty()
    } else if on_side(blocks.last(), ocr_side) {
        side_texts(blocks.drop_last(), ocr_side).push(blocks.last().text())
    } else {
        side_texts(blocks.drop_last(), ocr_side)
    }
}

/// The texts and boxes of the text blocks of the parser side, in order.
pub open spec fn parser_text_boxes(blocks: Seq<BlockView>) -> Seq<(Seq<char>, BBox)>
    decreases blocks.len(),
{
    if blocks.len() == 0 {
        Seq::empty()
    } else if on_side(blocks.last(), false) {
        parser_text_boxes(blocks.drop_last()).push((blocks.last().text(), blocks.last().bbox()))
    } else {
        parser_text_boxes(blocks.drop_last())
    }
}

/// The number of characters of all texts.
pub open spec fn total_len(texts: Seq<Seq<char>>) -> nat
    decreases texts.len(),
{
    if texts.len() == 0 {
        0
    } else {
        total_len(texts.drop_last()) + texts.last().len()
    }
}

/// The number of Hangul syllables of all texts.
pub open spec fn total_syllables(texts: Seq<Seq<char>>) -> nat
    decreases texts.len(),
{
    if texts.len() == 0 {
        0
    } else {
        total_syllables(texts.drop_last()) + syllable_count(texts.last())
    }
}

/// The highest Korean quality among the texts, if there is any text.
pub open spec fn best_quality(texts: Seq<Seq<char>>) -> Option<int>
    decreases texts.len(),
{
    if texts.len() == 0 {
        None
    } else {
        let q = korean_quality_spec(texts.last());
        match best_quality(texts.drop_last()) {
            Some(m) => if m >= q {
                Some(m)
            } else {
                Some(q)
            },
            None => Some(q),
        }
    }
}

/// Some text has at least the given quality.
pub open spec fn quality_reaches(texts: Seq<Seq<char>>, bound: int) -> bool {
    best_quality(texts) matches Some(m) && m >= bound
}

/// The largest area among the boxes, zero when there is none.
pub open spec fn largest_area(boxes: Seq<(Seq<char>, BBox)>) -> int
    decreases boxes.len(),
{
    if boxes.len() == 0 {
        0
    } else {
        let rest = largest_area(boxes.drop_last());
        let last = boxes.last().1.spec_area();
        if rest >= last {
            rest
        } else {
            last
        }
    }
}

/// `count * factor`, held at the largest machine count.
pub open spec fn saturating_times(count: nat, factor: nat) -> int {
    if count * factor > usize::MAX {
        usize::MAX as int
    } else {
        (count * factor) as int
    }
}

/// Whether a parser block survives the first stage: it is dropped when its
/// text is Korean of quality below -10 and some OCR text does better.
pub open spec fn keeps_parser_block(b: BlockView, ocr_texts: Seq<Seq<char>>) -> bool {
    !(b.is_text_from(Provenance::Parser) && has_korean_spec(b.text()) && korean_quality_spec(
        b.text(),
    ) < -10 && (best_quality(ocr_texts) matches Some(m) && m > korean_quality_spec(b.text())))
}

/// What stage one keeps of the given blocks.
pub open spec fn degraded_parser_keep(blocks: Seq<BlockView>) -> spec_fn(BlockView) -> bool {
    |b: BlockView| keeps_parser_block(b, side_texts(blocks, true))
}

/// Stage one: drops degraded Korean parser text where OCR read the page better.
pub open spec fn filter_degraded_parser_spec(blocks: Seq<BlockView>) -> Seq<BlockView> {
    blocks.filter(degraded_parser_keep(blocks))
}

/// The parser dominates a page when its texts hold 120 characters or more,
/// one of them has quality -2 or better, and one of them covers 300 000 square units or more.
pub open spec fn parser_dominant(blocks: Seq<BlockView>) -> bool {
    &&& total_len(side_texts(blocks, false)) >= 120
    &&& quality_reaches(side_texts(blocks, false), -2)
    &&& largest_area(parser_text_boxes(blocks)) >= 300_000
}

/// Whether a normalized OCR text repeats a normalized parser text: the parser
/// text contains it (at eight characters or more), or the two are similar to
/// 0.82, or to 0.55 with boxes that overlap by 0.55.
pub open spec fn repeats_normalized(
    ocr_norm: Seq<char>,
    ocr_box: BBox,
    parser_norm: Seq<char>,
    parser_box: BBox,
) -> bool {
    &&& parser_norm.len() > 0
    &&& {
        ||| (ocr_norm.len() >= 8 && contains_run(parser_norm, ocr_norm))
        ||| text_similarity_spec(parser_norm, ocr_norm) >= 820_000
        ||| (ocr_box.spec_iou(parser_box) >= 550_000 && text_similarity_spec(parser_norm, ocr_norm)
            >= 550_000)
    }
}

/// Whether a normalized OCR text is too short to stand alone or repeats one of the normalized parser texts.
pub open spec fn is_duplicate_normalized(
    ocr_norm: Seq<char>,
    ocr_box: BBox,
    parser_norms: Seq<(Seq<char>, BBox)>,
) -> bool {
    ocr_norm.len() < 4 || exists|i: int|
        0 <= i < parser_norms.len() && repeats_normalized(
            ocr_norm,
            ocr_box,
            (#[trigger] parser_norms[i]).0,
            parser_norms[i].1,
        )
}

/// The texts normalized, the boxes kept.
pub open spec fn normalized_boxes(boxes: Seq<(Seq<char>, BBox)>) -> Seq<(Seq<char>, BBox)> {
    Seq::new(boxes.len(), |i: int| (normalize_spec(boxes[i].0), boxes[i].1))
}

/// Whether an OCR text duplicates one of the parser's texts.
pub open spec fn is_duplicate_ocr_spec(
    ocr_text: Seq<char>,
    ocr_box: BBox,
    parser_boxes: Seq<(Seq<char>, BBox)>,
) -> bool {
    is_duplicate_normalized(normalize_spec(ocr_text), ocr_box, normalized_boxes(parser_boxes))
}

/// What stage two keeps of the given blocks.
pub open spec fn redundant_ocr_keep(blocks: Seq<BlockView>) -> spec_fn(BlockView) -> bool {
    |b: BlockView|
        !(parser_dominant(blocks) && on_side(b, true) && is_duplicate_ocr_spec(
            b.text(),
            b.bbox(),
            parser_text_boxes(blocks),
        ))
}

/// Stage two: where the parser dominates, drops OCR text that duplicates it.
pub open spec fn filter_redundant_ocr_spec(blocks: Seq<BlockView>) -> Seq<BlockView> {
    blocks.filter(redundant_ocr_keep(blocks))
}

/// What stage three keeps.
pub open spec fn low_quality_keep(aggressive: bool) -> spec_fn(BlockView) -> bool {
    |b: BlockView|
        !(on_side(b, true) && (is_blank(b.text()) || is_noisy_ocr_spec(b.text()) || (aggressive
            && normalize_spec(b.text()).len() <= 3)))
}

/// Stage three: drops OCR text that is blank or noisy, and when `aggressive`
/// also text of three characters or fewer.
pub open spec fn filter_low_quality_ocr_spec(blocks: Seq<BlockView>, aggressive: bool) -> Seq<
    BlockView,
> {
    blocks.filter(low_quality_keep(aggressive))
}

/// The parser reads Korean reliably when its texts hold 18 syllables or more
/// and one of them has quality -1 or better.
pub open spec fn korean_parser_reliable(blocks: Seq<BlockView>) -> bool {
    total_syllables(side_texts(blocks, false)) >= 18 && quality_reaches(
        side_texts(blocks, false),
        -1,
    )
}

/// What stage four keeps of the given blocks.
pub open spec fn korean_ocr_keep(blocks: Seq<BlockView>) -> spec_fn(BlockView) -> bool {
    |b: BlockView| !(korean_parser_reliable(blocks) && on_side(b, true) && has_korean_spec(b.text()))
}

/// Stage four: where the parser reads Korean reliably, drops every Korean OCR text.
pub open spec fn filter_korean_ocr_spec(blocks: Seq<BlockView>) -> Seq<BlockView> {
    blocks.filter(korean_ocr_keep(blocks))
}

/// The parser is reliable for a page when its texts hold 220 characters or
/// more, ten times that is no less than seven times what OCR holds (or OCR
/// holds nothing), and one of its texts has quality -2 or better.
pub open spec fn parser_reliable_spec(blocks: Seq<BlockView>) -> bool {
    let parser = side_texts(blocks, false);
    let ocr = side_texts(blocks, true);
    &&& total_len(parser) >= 220
    &&& parser.len() >= 1
    &&& (total_len(ocr) == 0 || saturating_times(total_len(parser), 10) >= saturating_times(
        total_len(ocr),
        7,
    ))
    &&& quality_reaches(parser, -2)
}

/// What stage five keeps of the given blocks.
pub open spec fn all_ocr_text_keep(blocks: Seq<BlockView>, page_class: PageClass) -> spec_fn(
    BlockView,
) -> bool {
    |b: BlockView|
        !(page_class != PageClass::Scanned && parser_reliable_spec(blocks) && on_side(b, true))
}

/// Stage five: on a page that is not scanned and whose parser is reliable, drops all OCR text.
pub open spec fn filter_ocr_text_spec(blocks: Seq<BlockView>, page_class: PageClass) -> Seq<
    BlockView,
> {
    blocks.filter(all_ocr_text_keep(blocks, page_class))
}

/// The stages that a page of the given class passes, in their order.
pub open spec fn filter_cascade_spec(blocks: Seq<BlockView>, page_class: PageClass) -> Seq<
    BlockView,
> {
    let first = filter_degraded_parser_spec(blocks);
    match page_class {
        PageClass::Scanned => filter_low_quality_ocr_spec(first, false),
        _ => filter_ocr_text_spec(
            filter_korean_ocr_spec(
                filter_low_quality_ocr_spec(filter_redundant_ocr_spec(first), true),
            ),
            page_class,
        ),
    }
}

/// Filtering one element further.
pub proof fn lemma_filter_take_step<A>(s: Seq<A>, p: spec_fn(A) -> bool, i: int)
    requires
        0 <= i < s.len(),
    ensures
        s.take(i + 1).filter(p) == if p(s[i]) {
            s.take(i).filter(p).push(s[i])
        } else {
            s.take(i).filter(p)
        },
{
    reveal(Seq::filter);
    assert(s.take(i + 1).drop_last() == s.take(i));
}

/// The text of a text block, empty for other blocks.
pub fn block_text(block: &Block) -> (text: String)
    ensures
        text@ == block@.text(),
{
    match block {
        Block::TextBlock { lines, .. } => text_of_lines(lines),
        _ => String::new(),
    }
}

/// Whether the block is a text block of the given side.
pub fn is_on_side(block: &Block, ocr_side: bool) -> (r: bool)
    ensures
        r == on_side(block@, ocr_side),
{
    match block {
        Block::TextBlock { source, .. } => (*source == Provenance::Ocr) == ocr_side,
        _ => false,
    }
}

/// Keeps the blocks whose flag is set.
fn retain_flagged(blocks: Vec<Block>, flags: &Vec<bool>, Ghost(keep): Ghost<
    spec_fn(BlockView) -> bool,
>) -> (out: Vec<Block>)
    requires
        flags@.len() == blocks@.len(),
        forall|i: int| 0 <= i < blocks@.len() ==> flags@[i] == keep(#[trigger] blocks@[i]@),
    ensures
        out.deep_view() == blocks.deep_view().filter(keep),
{
    let ghost views = blocks.deep_view();
    let ghost items = blocks@;
    let mut out: Vec<Block> = Vec::new();
    let n: usize = flags.len();
    let mut i: usize = 0;
    proof {
        reveal(Seq::filter);
        assert(views.take(0).filter(keep) =~= Seq::<BlockView>::empty());
    }
    for block in it: blocks
        invariant
            it.seq() == items,
            i == it.index(),
            n == items.len(),
            views.len() == items.len(),
            flags@.len() == items.len(),
            forall|k: int| 0 <= k < items.len() ==> views[k] == (#[trigger] items[k])@,
            forall|k: int| 0 <= k < items.len() ==> flags@[k] == keep(#[trigger] items[k]@),
            out.deep_view() == views.take(i as int).filter(keep),
    {
        proof {
            lemma_filter_take_step(views, keep, i as int);
            assert(block == items[i as int]);
        }
        if i < n && flags[i] {
            let ghost before = out.deep_view();
            out.push(block);
            assert(out.deep_view() =~= before.push(items[i as int]@));
        }
        i += 1;
    }
    assert(views.take(views.len() as int) == views);
    out
}

/// The texts of the text blocks of one side.
pub fn collect_side_texts(blocks: &Vec<Block>, ocr_side: bool) -> (texts: Vec<String>)
    ensures
        texts.deep_view() == side_texts(blocks.deep_view(), ocr_side),
{
    let ghost views = blocks.deep_view();
    let mut texts: Vec<String> = Vec::new();
    let mut i: usize = 0;
    assert(texts.deep_view() =~= side_texts(views.take(0), ocr_side));
    while i < blocks.len()
        invariant
            i <= blocks.len(),
            views == blocks.deep_view(),
            texts.deep_view() == side_texts(views.take(i as int), ocr_side),
        decreases blocks.len() - i,
    {
        proof {
            assert(views.take(i + 1).drop_last() == views.take(i as int));
            assert(views[i as int] == blocks@[i as int]@);
        }
        if is_on_side(&blocks[i], ocr_side) {
            let ghost before = texts.deep_view();
            texts.push(block_text(&blocks[i]));
            assert(texts.deep_view() =~= before.push(blocks@[i as int]@.text()));
        }
        i += 1;
    }
    assert(views.take(blocks@.len() as int) == views);
    texts
}

/// The texts and boxes of the text blocks of the parser side.
pub fn collect_parser_text_boxes(blocks: &Vec<Block>) -> (boxes: Vec<(String, BBox)>)
    ensures
        boxes.deep_view() == parser_text_boxes(blocks.deep_view()),
{
    let ghost views = blocks.deep_view();
    let mut boxes: Vec<(String, BBox)> = Vec::new();
    let mut i: usize = 0;
    assert(boxes.deep_view() =~= parser_text_boxes(views.take(0)));
    while i < blocks.len()
        invariant
            i <= blocks.len(),
            views == blocks.deep_view(),
            boxes.deep_view() == parser_text_boxes(views.take(i as int)),
        decreases blocks.len() - i,
    {
        proof {
            assert(views.take(i + 1).drop_last() == views.take(i as int));
            assert(views[i as int] == blocks@[i as int]@);
        }
        if is_on_side(&blocks[i], false) {
            let ghost before = boxes.deep_view();
            boxes.push((block_text(&blocks[i]), blocks[i].bbox()));
            assert(boxes.deep_view() =~= before.push(
                (blocks@[i as int]@.text(), blocks@[i as int]@.bbox()),
            ));
        }
        i += 1;
    }
    assert(views.take(blocks@.len() as int) == views);
    boxes
}

/// The number of characters of all texts.
pub fn total_chars(texts: &Vec<String>) -> (n: u128)
    ensures
        n == total_len(texts.deep_view()),
{
    let ghost views = texts.deep_view();
    let mut n: u128 = 0;
    let mut i: usize = 0;
    assert(views.take(0) =~= Seq::<Seq<char>>::empty());
    while i < texts.len()
        invariant
            i <= texts.len(),
            views == texts.deep_view(),
            n == total_len(views.take(i as int)),
            n <= i * usize::MAX,
        decreases texts.len() - i,
    {
        proof {
            assert(views.take(i + 1).drop_last() == views.take(i as int));
            assert(views[i as int] == texts@[i as int]@);
            assert((i + 1) * usize::MAX == i * usize::MAX + usize::MAX) by (nonlinear_arith);
            assert(i * usize::MAX <= usize::MAX * usize::MAX) by (nonlinear_arith)
                requires
                    i <= usize::MAX,
            ;
            assert(usize::MAX * usize::MAX + usize::MAX <= u128::MAX) by (nonlinear_arith)
                requires
                    usize::MAX <= u64::MAX,
            ;
        }
        let len: usize = texts[i].as_str().unicode_len();
        n = n + len as u128;
        i += 1;
    }
    assert(views.take(texts@.len() as int) == views);
    n
}

/// The number of Hangul syllables of all texts.
pub fn total_syllable_chars(texts: &Vec<String>) -> (n: u128)
    ensures
        n == total_syllables(texts.deep_view()),
{
    let ghost views = texts.deep_view();
    let mut n: u128 = 0;
    let mut i: usize = 0;
    assert(views.take(0) =~= Seq::<Seq<char>>::empty());
    while i < texts.len()
        invariant
            i <= texts.len(),
            views == texts.deep_view(),
            n == total_syllables(views.take(i as int)),
            n <= i * usize::MAX,
        decreases texts.len() - i,
    {
        proof {
            assert(views.take(i + 1).drop_last() == views.take(i as int));
            assert(views[i as int] == texts@[i as int]@);
            assert((i + 1) * usize::MAX == i * usize::MAX + usize::MAX) by (nonlinear_arith);
            assert(i * usize::MAX <= usize::MAX * usize::MAX) by (nonlinear_arith)
                requires
                    i <= usize::MAX,
            ;
            assert(usize::MAX * usize::MAX + usize::MAX <= u128::MAX) by (nonlinear_arith)
                requires
                    usize::MAX <= u64::MAX,
            ;
        }
        let chars = chars_of(texts[i].as_str());
        let count: usize = count_class(chars.as_slice(), CharClass::HangulSyllable);
        n = n + count as u128;
        i += 1;
    }
    assert(views.take(texts@.len() as int) == views);
    n
}

/// The highest Korean quality among the texts.
pub fn best_quality_of(texts: &Vec<String>) -> (best: Option<i128>)
    ensures
        match best {
            Some(m) => best_quality(texts.deep_view()) == Some(m as int),
            None => best_quality(texts.deep_view()) is None,
        },
{
    let ghost views = texts.deep_view();
    let mut best: Option<i128> = None;
    let mut i: usize = 0;
    assert(views.take(0) =~= Seq::<Seq<char>>::empty());
    while i < texts.len()
        invariant
            i <= texts.len(),
            views == texts.deep_view(),
            match best {
                Some(m) => best_quality(views.take(i as int)) == Some(m as int),
                None => best_quality(views.take(i as int)) is None,
            },
        decreases texts.len() - i,
    {
        proof {
            assert(views.take(i + 1).drop_last() == views.take(i as int));
            assert(views[i as int] == texts@[i as int]@);
        }
        let q: i128 = korean_text_quality(texts[i].as_str());
        best = match best {
            Some(m) => if m >= q {
                Some(m)
            } else {
                Some(q)
            },
            None => Some(q),
        };
        i += 1;
    }
    assert(views.take(texts@.len() as int) == views);
    best
}

/// Whether some text has at least the given quality.
pub fn quality_at_least(texts: &Vec<String>, bound: i128) -> (r: bool)
    ensures
        r == quality_reaches(texts.deep_view(), bound as int),
{
    match best_quality_of(texts) {
        Some(m) => m >= bound,
        None => false,
    }
}

/// The largest area among the boxes.
pub fn largest_box_area(boxes: &Vec<(String, BBox)>) -> (area: u64)
    ensures
        area == largest_area(boxes.deep_view()),
{
    let ghost views = boxes.deep_view();
    let mut area: u64 = 0;
    let mut i: usize = 0;
    assert(views.take(0) =~= Seq::<(Seq<char>, BBox)>::empty());
    while i < boxes.len()
        invariant
            i <= boxes.len(),
            views == boxes.deep_view(),
            area == largest_area(views.take(i as int)),
        decreases boxes.len() - i,
    {
        proof {
            assert(views.take(i + 1).drop_last() == views.take(i as int));
            assert(views[i as int].1 == boxes@[i as int].1);
        }
        let a: u64 = boxes[i].1.area();
        if a > area {
            area = a;
        }
        i += 1;
    }
    assert(views.take(boxes@.len() as int) == views);
    area
}

/// `count * factor`, held at the largest machine count.
fn times_saturating(count: u128, factor: u8) -> (r: u128)
    requires
        factor > 0,
    ensures
        r == saturating_times(count as nat, factor as nat),
{
    let cap: u128 = usize::MAX as u128;
    if count > cap / (factor as u128) {
        assert(count * factor > usize::MAX) by (nonlinear_arith)
            requires
                count > (usize::MAX as int) / (factor as int),
                factor > 0,
        ;
        cap
    } else {
        assert(count * factor <= usize::MAX) by (nonlinear_arith)
            requires
                count <= (usize::MAX as int) / (factor as int),
                factor > 0,
        ;
        count * (factor as u128)
    }
}

/// Stage one of the cascade.
pub fn filter_degraded_parser_blocks(blocks: Vec<Block>) -> (out: Vec<Block>)
    ensures
        out.deep_view() == filter_degraded_parser_spec(blocks.deep_view()),
{
    let ocr_texts = collect_side_texts(&blocks, true);
    let best_ocr = best_quality_of(&ocr_texts);
    let ghost keep = degraded_parser_keep(blocks.deep_view());
    let mut flags: Vec<bool> = Vec::new();
    let mut i: usize = 0;
    while i < blocks.len()
        invariant
            i <= blocks.len(),
            flags@.len() == i,
            keep == degraded_parser_keep(blocks.deep_view()),
            ocr_texts.deep_view() == side_texts(blocks.deep_view(), true),
            match best_ocr {
                Some(m) => best_quality(ocr_texts.deep_view()) == Some(m as int),
                None => best_quality(ocr_texts.deep_view()) is None,
            },
            forall|k: int| 0 <= k < i ==> flags@[k] == keep(#[trigger] blocks@[k]@),
        decreases blocks.len() - i,
    {
        let block = &blocks[i];
        let mut keep_it: bool = true;
        if block.block_kind() == BlockKind::Text && block.provenance() == Provenance::Parser {
            if let Some(best) = best_ocr {
                let text = block_text(block);
                let quality: i128 = korean_text_quality(text.as_str());
                if has_korean_chars(text.as_str()) && quality < -10 && best > quality {
                    keep_it = false;
                }
            }
        }
        flags.push(keep_it);
        i += 1;
    }
    retain_flagged(blocks, &flags, Ghost(keep))
}

/// Whether a normalized OCR text repeats a normalized parser text.
pub fn repeats_normalized_text(
    ocr_norm: &str,
    ocr_bbox: &BBox,
    parser_norm: &str,
    parser_bbox: &BBox,
) -> (r: bool)
    ensures
        r == repeats_normalized(ocr_norm@, *ocr_bbox, parser_norm@, *parser_bbox),
{
    if parser_norm.is_empty() {
        return false;
    }
    let ocr_chars = chars_of(ocr_norm);
    if ocr_chars.len() >= 8 {
        let parser_chars = chars_of(parser_norm);
        if contains_chars(parser_chars.as_slice(), ocr_chars.as_slice()) {
            return true;
        }
    }
    let similarity: u32 = text_similarity(parser_norm, ocr_norm);
    similarity >= 820_000 || (ocr_bbox.iou(parser_bbox) >= 550_000 && similarity >= 550_000)
}

/// Whether a normalized OCR text duplicates one of the normalized parser texts.
pub fn is_duplicate_of_normalized(
    ocr_norm: &str,
    ocr_bbox: &BBox,
    parser_norms: &Vec<(String, BBox)>,
) -> (r: bool)
    ensures
        r == is_duplicate_normalized(ocr_norm@, *ocr_bbox, parser_norms.deep_view()),
{
    if ocr_norm.unicode_len() < 4 {
        return true;
    }
    let ghost views = parser_norms.deep_view();
    let mut i: usize = 0;
    while i < parser_norms.len()
        invariant
            i <= parser_norms.len(),
            views == parser_norms.deep_view(),
            ocr_norm@.len() >= 4,
            forall|k: int|
                0 <= k < i ==> !repeats_normalized(
                    ocr_norm@,
                    *ocr_bbox,
                    (#[trigger] views[k]).0,
                    views[k].1,
                ),
        decreases parser_norms.len() - i,
    {
        assert(views[i as int] == (parser_norms@[i as int].0@, parser_norms@[i as int].1));
        if repeats_normalized_text(
            ocr_norm,
            ocr_bbox,
            parser_norms[i].0.as_str(),
            &parser_norms[i].1,
        ) {
            return true;
        }
        i += 1;
    }
    false
}

/// Normalizes the texts and keeps the boxes.
pub fn normalize_boxes(boxes: &Vec<(String, BBox)>) -> (norms: Vec<(String, BBox)>)
    ensures
        norms.deep_view() == normalized_boxes(boxes.deep_view()),
{
    let ghost views = boxes.deep_view();
    let mut norms: Vec<(String, BBox)> = Vec::new();
    let mut i: usize = 0;
    while i < boxes.len()
        invariant
            i <= boxes.len(),
            views == boxes.deep_view(),
            norms@.len() == i,
            forall|k: int|
                0 <= k < i ==> #[trigger] norms.deep_view()[k] == (
                    normalize_spec(views[k].0),
                    views[k].1,
                ),
        decreases boxes.len() - i,
    {
        let ghost before = norms.deep_view();
        assert(views[i as int] == (boxes@[i as int].0@, boxes@[i as int].1));
        norms.push((normalize_text_for_compare(boxes[i].0.as_str()), boxes[i].1));
        proof {
            assert forall|k: int| 0 <= k < i + 1 implies #[trigger] norms.deep_view()[k] == (
                normalize_spec(views[k].0),
                views[k].1,
            ) by {
                if k < i {
                    assert(norms.deep_view()[k] == before[k]);
                }
            }
        }
        i += 1;
    }
    assert(norms.deep_view() =~= normalized_boxes(views));
    norms
}

/// Whether an OCR text duplicates one of the parser's texts.
pub fn is_duplicate_ocr_text_block(
    ocr_text: &str,
    ocr_bbox: &BBox,
    parser_text_blocks: &Vec<(String, BBox)>,
) -> (r: bool)
    ensures
        r == is_duplicate_ocr_spec(ocr_text@, *ocr_bbox, parser_text_blocks.deep_view()),
{
    let ocr_norm = normalize_text_for_compare(ocr_text);
    let parser_norms = normalize_boxes(parser_text_blocks);
    is_duplicate_of_normalized(ocr_norm.as_str(), ocr_bbox, &parser_norms)
}

/// Decides whether the parser dominates the page.
pub fn is_parser_dominant(blocks: &Vec<Block>) -> (r: bool)
    ensures
        r == parser_dominant(blocks.deep_view()),
{
    let texts = collect_side_texts(blocks, false);
    let boxes = collect_parser_text_boxes(blocks);
    total_chars(&texts) >= 120 && quality_at_least(&texts, -2) && largest_box_area(&boxes)
        >= 300_000
}

/// Stage two of the cascade.
pub fn filter_redundant_ocr_text_blocks(blocks: Vec<Block>) -> (out: Vec<Block>)
    ensures
        out.deep_view() == filter_redundant_ocr_spec(blocks.deep_view()),
{
    let dominant: bool = is_parser_dominant(&blocks);
    let boxes = collect_parser_text_boxes(&blocks);
    let norms = normalize_boxes(&boxes);
    let ghost keep = redundant_ocr_keep(blocks.deep_view());
    let mut flags: Vec<bool> = Vec::new();
    let mut i: usize = 0;
    while i < blocks.len()
        invariant
            i <= blocks.len(),
            flags@.len() == i,
            keep == redundant_ocr_keep(blocks.deep_view()),
            dominant == parser_dominant(blocks.deep_view()),
            norms.deep_view() == normalized_boxes(parser_text_boxes(blocks.deep_view())),
            forall|k: int| 0 <= k < i ==> flags@[k] == keep(#[trigger] blocks@[k]@),
        decreases blocks.len() - i,
    {
        let block = &blocks[i];
        let mut keep_it: bool = true;
        if dominant && is_on_side(block, true) {
            let text = block_text(block);
            let norm = normalize_text_for_compare(text.as_str());
            if is_duplicate_of_normalized(norm.as_str(), &block.bbox(), &norms) {
                keep_it = false;
            }
        }
        flags.push(keep_it);
        i += 1;
    }
    retain_flagged(blocks, &flags, Ghost(keep))
}

/// Stage three of the cascade.
pub fn filter_low_quality_ocr_text_blocks(blocks: Vec<Block>, aggressive_short_filter: bool) -> (out:
    Vec<Block>)
    ensures
        out.deep_view() == filter_low_quality_ocr_spec(
            blocks.deep_view(),
            aggressive_short_filter,
        ),
{
    let ghost keep = low_quality_keep(aggressive_short_filter);
    let mut flags: Vec<bool> = Vec::new();
    let mut i: usize = 0;
    while i < blocks.len()
        invariant
            i <= blocks.len(),
            flags@.len() == i,
            keep == low_quality_keep(aggressive_short_filter),
            forall|k: int| 0 <= k < i ==> flags@[k] == keep(#[trigger] blocks@[k]@),
        decreases blocks.len() - i,
    {
        let block = &blocks[i];
        let mut keep_it: bool = true;
        if is_on_side(block, true) {
            let text = block_text(block);
            if is_blank_text(text.as_str()) || is_noisy_ocr_text(text.as_str()) {
                keep_it = false;
            } else if aggressive_short_filter {
                let norm = normalize_text_for_compare(text.as_str());
                if norm.as_str().unicode_len() <= 3 {
                    keep_it = false;
                }
            }
        }
        flags.push(keep_it);
        i += 1;
    }
    retain_flagged(blocks, &flags, Ghost(keep))
}

/// Decides whether the parser reads the Korean of the page reliably.
pub fn is_korean_parser_reliable(blocks: &Vec<Block>) -> (r: bool)
    ensures
        r == korean_parser_reliable(blocks.deep_view()),
{
    let texts = collect_side_texts(blocks, false);
    total_syllable_chars(&texts) >= 18 && quality_at_least(&texts, -1)
}

/// Stage four of the cascade. Strict and lenient pages are treated alike.
pub fn filter_korean_ocr_when_parser_reliable(blocks: Vec<Block>, strict: bool) -> (out: Vec<Block>)
    ensures
        out.deep_view() == filter_korean_ocr_spec(blocks.deep_view()),
{
    let _ = strict;
    let reliable: bool = is_korean_parser_reliable(&blocks);
    let ghost keep = korean_ocr_keep(blocks.deep_view());
    let mut flags: Vec<bool> = Vec::new();
    let mut i: usize = 0;
    while i < blocks.len()
        invariant
            i <= blocks.len(),
            flags@.len() == i,
            keep == korean_ocr_keep(blocks.deep_view()),
            reliable == korean_parser_reliable(blocks.deep_view()),
            forall|k: int| 0 <= k < i ==> flags@[k] == keep(#[trigger] blocks@[k]@),
        decreases blocks.len() - i,
    {
        let block = &blocks[i];
        let mut keep_it: bool = true;
        if reliable && is_on_side(block, true) {
            let text = block_text(block);
            if has_korean_chars(text.as_str()) {
                keep_it = false;
            }
        }
        flags.push(keep_it);
        i += 1;
    }
    retain_flagged(blocks, &flags, Ghost(keep))
}

/// Decides whether the parser is reliable enough to do without OCR text.
pub fn parser_reliable_for_accuracy(blocks: &Vec<Block>) -> (r: bool)
    ensures
        r == parser_reliable_spec(blocks.deep_view()),
{
    let parser_texts = collect_side_texts(blocks, false);
    if parser_texts.len() == 0 {
        return false;
    }
    let ocr_texts = collect_side_texts(blocks, true);
    let parser_chars: u128 = total_chars(&parser_texts);
    let ocr_chars: u128 = total_chars(&ocr_texts);
    parser_chars >= 220 && (ocr_chars == 0 || times_saturating(parser_chars, 10)
        >= times_saturating(ocr_chars, 7)) && quality_at_least(&parser_texts, -2)
}

/// Stage five of the cascade.
pub fn filter_ocr_text_when_parser_reliable(blocks: Vec<Block>, page_class: PageClass) -> (out: Vec<
    Block,
>)
    ensures
        out.deep_view() == filter_ocr_text_spec(blocks.deep_view(), page_class),
{
    let engaged: bool = page_class != PageClass::Scanned && parser_reliable_for_accuracy(&blocks);
    let ghost keep = all_ocr_text_keep(blocks.deep_view(), page_class);
    let mut flags: Vec<bool> = Vec::new();
    let mut i: usize = 0;
    while i < blocks.len()
        invariant
            i <= blocks.len(),
            flags@.len() == i,
            keep == all_ocr_text_keep(blocks.deep_view(), page_class),
            engaged == (page_class != PageClass::Scanned && parser_reliable_spec(
                blocks.deep_view(),
            )),
            forall|k: int| 0 <= k < i ==> flags@[k] == keep(#[trigger] blocks@[k]@),
        decreases blocks.len() - i,
    {
        let keep_it: bool = !(engaged && is_on_side(&blocks[i], true));
        flags.push(keep_it);
        i += 1;
    }
    retain_flagged(blocks, &flags, Ghost(keep))
}

/// Runs the stages that a page of the given class passes.
pub fn apply_filter_cascade(blocks: Vec<Block>, page_class: PageClass) -> (out: Vec<Block>)
    ensures
        out.deep_view() == filter_cascade_spec(blocks.deep_view(), page_class),
{
    let blocks = filter_degraded_parser_blocks(blocks);
    match page_class {
        PageClass::Digital => {
            let blocks = filter_redundant_ocr_text_blocks(blocks);
            let blocks = filter_low_quality_ocr_text_blocks(blocks, true);
            let blocks = filter_korean_ocr_when_parser_reliable(blocks, true);
            filter_ocr_text_when_parser_reliable(blocks, page_class)
        },
        PageClass::Hybrid => {
            let blocks = filter_redundant_ocr_text_blocks(blocks);
            let blocks = filter_low_quality_ocr_text_blocks(blocks, true);
            let blocks = filter_korean_ocr_when_parser_reliable(blocks, false);
            filter_ocr_text_when_parser_reliable(blocks, page_class)
        },
        PageClass::Scanned => filter_low_quality_ocr_text_blocks(blocks, false),
    }
}

} // verus!
