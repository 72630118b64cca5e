use vstd::prelude::*;
use crate::base::geometry::{spec_max, spec_min, BBox};
use crate::base::model::{Block, BlockKind, BlockView, Line, Provenance};
use crate::export::text_export::{
    block_plain_text, page_file_name, page_file_name_spec, plain_text_of,
    skips_degraded_parser_text, TextExporter,
};
use crate::fusion::quality::{jamo_count, syllable_count};
use crate::text::chars::{is_whitespace, is_whitespace_spec, CharClass};
use crate::text::decimal::{
    decimal, decimal_spec, padded_decimal, padded_decimal_spec, signed_decimal,
    signed_decimal_spec,
};
use crate::text::strings::{
    chars_of, count_chars, count_class, keep_chars, lemma_count_step, push_str, remove_class,
    string_of,
};
use crate::text::words::append_chars;

verus! {

/// Writes the document as Markdown, with the images of its tables, figures and formulas.
#[derive(Debug, Clone)]
pub struct MarkdownExporter {
    out_dir: String,
}

/// How a block enters the Markdown of a page: as text that is ready, or as
/// an image that has yet to be cut out of the page image.
#[derive(Debug, Clone)]
pub enum BlockPlan {
    Inline(String),
    Image { kind: BlockKind, bbox: BBox },
}

/// The value of a [`BlockPlan`].
pub enum BlockPlanView {
    Inline(Seq<char>),
    Image { kind: BlockKind, bbox: BBox },
}

impl DeepView for BlockPlan {
    type V = BlockPlanView;

    open spec fn deep_view(&self) -> BlockPlanView {
        match *self {
            BlockPlan::Inline(text) => BlockPlanView::Inline(text@),
            BlockPlan::Image { kind, bbox } => BlockPlanView::Image { kind, bbox },
        }
    }
}

impl View for BlockPlan {
    type V = BlockPlanView;

    open spec fn view(&self) -> BlockPlanView {
        self.deep_view()
    }
}

/// The name of whether a character is alphabetic or numeric in Unicode.
pub uninterp spec fn is_unicode_alphanumeric(c: char) -> bool;

/// `char::is_alphanumeric` tells whether a character is alphabetic or numeric in Unicode.
#[verifier::external_body]
fn char_is_alphanumeric(c: char) -> (r: bool)
    ensures
        r == is_unicode_alphanumeric(c),
{
    c.is_alphanumeric()
}

/// A character that is neither a letter, a digit nor whitespace.
pub open spec fn is_symbol(c: char) -> bool {
    !is_unicode_alphanumeric(c) && !is_whitespace_spec(c)
}

/// A text is noise by its counts when it has two characters or fewer, when
/// fewer than half of them are letters, or when it has eight symbols or more
/// and more symbols than letters.
pub open spec fn noisy_by_counts_spec(total: nat, letters: nat, symbols: nat) -> bool {
    total <= 2 || (total > 0 && letters * 2 < total) || (symbols >= 8 && symbols > letters)
}

/// OCR text that is left out as noise, judged without its whitespace.
pub open spec fn skips_noisy_ocr_text(source: Provenance, text: Seq<char>) -> bool {
    let compact = keep_chars(text, CharClass::Whitespace.negated());
    source == Provenance::Ocr && noisy_by_counts_spec(
        compact.len(),
        count_chars(compact, CharClass::AlnumOrSyllable.pred()),
        count_chars(text, |c: char| is_symbol(c)),
    )
}

/// The text of a text block in Markdown: its plain text unless one of the two rules leaves it out.
pub open spec fn text_markdown_spec(block: BlockView) -> Seq<char> {
    match block {
        BlockView::TextBlock { lines, source, .. } => {
            let text = block_plain_text(lines);
            if skips_degraded_parser_text(source, text) || skips_noisy_ocr_text(source, text) {
                Seq::empty()
            } else {
                text
            }
        },
        _ => Seq::empty(),
    }
}

/// The upper-case name of a kind, as placeholders show it.
pub open spec fn kind_tag(kind: BlockKind) -> Seq<char> {
    match kind {
        BlockKind::Text => "TEXT"@,
        BlockKind::Table => "TABLE"@,
        BlockKind::Figure => "FIGURE"@,
        BlockKind::Math => "MATH"@,
    }
}

/// The title of a kind, as captions show it.
pub open spec fn kind_title(kind: BlockKind) -> Seq<char> {
    match kind {
        BlockKind::Text => "Text"@,
        BlockKind::Table => "Table"@,
        BlockKind::Figure => "Figure"@,
        BlockKind::Math => "Math Equation"@,
    }
}

/// The alternative text of the image of a kind.
pub open spec fn kind_alt(kind: BlockKind) -> Seq<char> {
    match kind {
        BlockKind::Text => "Text"@,
        BlockKind::Table => "Table"@,
        BlockKind::Figure => "Figure"@,
        BlockKind::Math => "Math"@,
    }
}

/// What stands for a block whose image cannot be cut out: its kind and its
/// size, and its corner where `with_position` asks for it.
pub open spec fn size_placeholder_spec(kind: BlockKind, bbox: BBox, with_position: bool) -> Seq<char> {
    let size = "\n["@ + kind_tag(kind) + ": "@ + decimal_spec(bbox.spec_width() as nat) + "x"@
        + decimal_spec(bbox.spec_height() as nat);
    if with_position {
        size + " at ("@ + signed_decimal_spec(bbox.x0 as int) + ", "@ + signed_decimal_spec(
            bbox.y0 as int,
        ) + ")]\n"@
    } else {
        size + "]\n"@
    }
}

/// A formula given as LaTeX, set off as a display.
pub open spec fn latex_display_spec(latex: Seq<char>) -> Seq<char> {
    "\n$$\n"@ + latex + "\n$$\n"@
}

/// The caption of a block: its title and its number, counted from one.
pub open spec fn caption_spec(kind: BlockKind, block_idx: usize) -> Seq<char> {
    "\n**"@ + kind_title(kind) + " "@ + decimal_spec((block_idx + 1) as nat) + ":**\n\n"@
}

/// A captioned formula given as LaTeX.
pub open spec fn captioned_latex_spec(block_idx: usize, latex: Seq<char>) -> Seq<char> {
    caption_spec(BlockKind::Math, block_idx) + "$$\n"@ + latex + "\n$$\n"@
}

/// A captioned image.
pub open spec fn image_markdown_spec(kind: BlockKind, block_idx: usize, path: Seq<char>) -> Seq<char> {
    caption_spec(kind, block_idx) + "!["@ + kind_alt(kind) + "]("@ + path + ")\n"@
}

/// How a block enters the Markdown of a page. Text is ready at once. With a
/// page image a table, a figure or a formula without LaTeX becomes an image;
/// without one it becomes a placeholder. A formula with LaTeX is set as such.
pub open spec fn plan_block_spec(
    block: BlockView,
    block_idx: usize,
    has_image: bool,
    with_position: bool,
) -> BlockPlanView {
    match block {
        BlockView::TextBlock { .. } => BlockPlanView::Inline(text_markdown_spec(block)),
        BlockView::TableBlock { bbox, .. } => if has_image {
            BlockPlanView::Image { kind: BlockKind::Table, bbox }
        } else {
            BlockPlanView::Inline(size_placeholder_spec(BlockKind::Table, bbox, with_position))
        },
        BlockView::FigureBlock { bbox, .. } => if has_image {
            BlockPlanView::Image { kind: BlockKind::Figure, bbox }
        } else {
            BlockPlanView::Inline(size_placeholder_spec(BlockKind::Figure, bbox, with_position))
        },
        BlockView::MathBlock { bbox, latex, .. } => if latex is Some && latex->0.len() > 0 {
            if has_image {
                BlockPlanView::Inline(captioned_latex_spec(block_idx, latex->0))
            } else {
                BlockPlanView::Inline(latex_display_spec(latex->0))
            }
        } else if has_image {
            BlockPlanView::Image { kind: BlockKind::Math, bbox }
        } else {
            BlockPlanView::Inline(size_placeholder_spec(BlockKind::Math, bbox, with_position))
        },
    }
}

/// The part of a page image that a box covers: its corner, its width and its
/// height. Nothing where the box and the image do not meet.
pub open spec fn crop_region_spec(bbox: BBox, image_width: u32, image_height: u32) -> Option<
    (u32, u32, u32, u32),
> {
    let x0 = spec_max(bbox.x0 as int, 0);
    let y0 = spec_max(bbox.y0 as int, 0);
    let x1 = spec_max(spec_min(bbox.x1 as int, image_width as int), 0);
    let y1 = spec_max(spec_min(bbox.y1 as int, image_height as int), 0);
    if x1 <= x0 || y1 <= y0 {
        None
    } else {
        Some((x0 as u32, y0 as u32, (x1 - x0) as u32, (y1 - y0) as u32))
    }
}

/// The name of the image of a block: the page number in three digits, the
/// kind, and the number of the block in two digits.
pub open spec fn crop_file_name_spec(page_idx: usize, kind: BlockKind, block_idx: usize) -> Seq<char> {
    "page_"@ + padded_decimal_spec((page_idx + 1) as nat, 3) + "_"@ + kind.label() + "__"@
        + padded_decimal_spec(block_idx as nat, 2) + ".png"@
}

/// The texts followed by an empty line each; empty texts are left out.
pub open spec fn blocks_markdown_spec(texts: Seq<Seq<char>>) -> Seq<char>
    decreases texts.len(),
{
    if texts.len() == 0 {
        Seq::empty()
    } else if texts.last().len() == 0 {
        blocks_markdown_spec(texts.drop_last())
    } else {
        blocks_markdown_spec(texts.drop_last()) + texts.last() + "\n\n"@
    }
}

/// The Markdown of a page on its own: a heading and the blocks.
pub open spec fn page_markdown_spec(page_idx: usize, texts: Seq<Seq<char>>) -> Seq<char> {
    "# Page "@ + decimal_spec((page_idx + 1) as nat) + "\n\n"@ + blocks_markdown_spec(texts)
}

/// The pages of a document, each under a rule and a heading.
pub open spec fn pages_markdown_spec(pages: Seq<(usize, Seq<Seq<char>>)>) -> Seq<char>
    decreases pages.len(),
{
    if pages.len() == 0 {
        Seq::empty()
    } else {
        pages_markdown_spec(pages.drop_last()) + "---\n\n## Page "@ + decimal_spec(
            (pages.last().0 + 1) as nat,
        ) + "\n\n"@ + blocks_markdown_spec(pages.last().1)
    }
}

/// The Markdown of a document.
pub open spec fn document_markdown_spec(pages: Seq<(usize, Seq<Seq<char>>)>) -> Seq<char> {
    "# Document\n\n"@ + pages_markdown_spec(pages)
}

/// Judges a text by its counts of characters, letters and symbols.
pub fn noisy_by_counts(total: usize, letters: usize, symbols: usize) -> (r: bool)
    ensures
        r == noisy_by_counts_spec(total as nat, letters as nat, symbols as nat),
{
    total <= 2 || (total > 0 && (letters as u128) * 2 < total as u128) || (symbols >= 8 && symbols
        > letters)
}

/// Counts the characters that are neither letters, digits nor whitespace.
pub fn count_symbols(text: &[char]) -> (n: usize)
    ensures
        n == count_chars(text@, |c: char| is_symbol(c)),
{
    let ghost p = |c: char| is_symbol(c);
    let mut n: usize = 0;
    let mut i: usize = 0;
    while i < text.len()
        invariant
            i <= text.len(),
            n <= i,
            p == (|c: char| is_symbol(c)),
            n == count_chars(text@.take(i as int), p),
        decreases text.len() - i,
    {
        proof {
            lemma_count_step(text@, p, i as int);
        }
        let c: char = text[i];
        if !char_is_alphanumeric(c) && !is_whitespace(c) {
            n += 1;
        }
        i += 1;
    }
    assert(text@.take(text@.len() as int) == text@);
    n
}

/// Cuts the box down to the page image.
pub fn crop_region(bbox: &BBox, image_width: u32, image_height: u32) -> (region: Option<
    (u32, u32, u32, u32),
>)
    ensures
        region == crop_region_spec(*bbox, image_width, image_height),
{
    let x0: i64 = if bbox.x0 > 0 { bbox.x0 as i64 } else { 0 };
    let y0: i64 = if bbox.y0 > 0 { bbox.y0 as i64 } else { 0 };
    let right: i64 = if (bbox.x1 as i64) < image_width as i64 { bbox.x1 as i64 } else { image_width as i64 };
    let bottom: i64 = if (bbox.y1 as i64) < image_height as i64 { bbox.y1 as i64 } else { image_height as i64 };
    let x1: i64 = if right > 0 { right } else { 0 };
    let y1: i64 = if bottom > 0 { bottom } else { 0 };
    if x1 <= x0 || y1 <= y0 {
        None
    } else {
        Some((x0 as u32, y0 as u32, (x1 - x0) as u32, (y1 - y0) as u32))
    }
}

/// The upper-case name of a kind.
fn tag_of(kind: BlockKind) -> (r: &'static str)
    ensures
        r@ == kind_tag(kind),
{
    match kind {
        BlockKind::Text => "TEXT",
        BlockKind::Table => "TABLE",
        BlockKind::Figure => "FIGURE",
        BlockKind::Math => "MATH",
    }
}

/// The title of a kind.
fn title_of(kind: BlockKind) -> (r: &'static str)
    ensures
        r@ == kind_title(kind),
{
    match kind {
        BlockKind::Text => "Text",
        BlockKind::Table => "Table",
        BlockKind::Figure => "Figure",
        BlockKind::Math => "Math Equation",
    }
}

/// The alternative text of the image of a kind.
fn alt_of(kind: BlockKind) -> (r: &'static str)
    ensures
        r@ == kind_alt(kind),
{
    match kind {
        BlockKind::Text => "Text",
        BlockKind::Table => "Table",
        BlockKind::Figure => "Figure",
        BlockKind::Math => "Math",
    }
}

/// The lower-case name of a kind.
pub fn label_of(kind: BlockKind) -> (r: &'static str)
    ensures
        r@ == kind.label(),
{
    match kind {
        BlockKind::Text => "text",
        BlockKind::Table => "table",
        BlockKind::Figure => "figure",
        BlockKind::Math => "math",
    }
}

/// Writes the placeholder of a block whose image cannot be cut out.
pub fn size_placeholder(kind: BlockKind, bbox: &BBox, with_position: bool) -> (out: String)
    ensures
        out@ == size_placeholder_spec(kind, *bbox, with_position),
{
    let mut out: Vec<char> = Vec::new();
    push_str(&mut out, "\n[");
    push_str(&mut out, tag_of(kind));
    push_str(&mut out, ": ");
    let w = decimal(bbox.width() as u128);
    append_chars(&mut out, w.as_slice());
    push_str(&mut out, "x");
    let h = decimal(bbox.height() as u128);
    append_chars(&mut out, h.as_slice());
    if with_position {
        push_str(&mut out, " at (");
        let x = signed_decimal(bbox.x0 as i64);
        append_chars(&mut out, x.as_slice());
        push_str(&mut out, ", ");
        let y = signed_decimal(bbox.y0 as i64);
        append_chars(&mut out, y.as_slice());
        push_str(&mut out, ")]\n");
    } else {
        push_str(&mut out, "]\n");
    }
    assert(out@ =~= size_placeholder_spec(kind, *bbox, with_position));
    string_of(out.as_slice())
}

/// Writes the caption of a block.
fn caption(out: &mut Vec<char>, kind: BlockKind, block_idx: usize)
    ensures
        final(out)@ == old(out)@ + caption_spec(kind, block_idx),
{
    push_str(out, "\n**");
    push_str(out, title_of(kind));
    push_str(out, " ");
    let number = decimal(block_idx as u128 + 1);
    append_chars(out, number.as_slice());
    push_str(out, ":**\n\n");
    assert(out@ =~= old(out)@ + caption_spec(kind, block_idx));
}

impl MarkdownExporter {
    pub closed spec fn spec_out_dir(&self) -> Seq<char> {
        self.out_dir@
    }

    pub fn new(out_dir: String) -> (r: Self)
        ensures
            r.spec_out_dir() == out_dir@,
    {
        MarkdownExporter { out_dir }
    }

    /// The directory that the files are written to.
    pub fn out_dir(&self) -> (r: &str)
        ensures
            r@ == self.spec_out_dir(),
    {
        self.out_dir.as_str()
    }

    /// The directory, below the output directory, that the images go to.
    pub fn image_dir_name() -> (name: &'static str)
        ensures
            name@ == "figures"@,
    {
        "figures"
    }

    /// The number of syllables and the number of jamo of a text.
    pub fn korean_counts(text: &str) -> (counts: (usize, usize))
        ensures
            counts.0 == syllable_count(text@),
            counts.1 == jamo_count(text@),
    {
        TextExporter::korean_counts(text)
    }

    /// Whether a text is left out because the parser left it decomposed.
    pub fn should_skip_degraded_parser_text(source: Provenance, text: &str) -> (r: bool)
        ensures
            r == skips_degraded_parser_text(source, text@),
    {
        TextExporter::should_skip_degraded_parser_text(source, text)
    }

    /// Whether an OCR text is left out as noise.
    pub fn should_skip_noisy_ocr_text(source: Provenance, text: &str) -> (r: bool)
        ensures
            r == skips_noisy_ocr_text(source, text@),
    {
        if source != Provenance::Ocr {
            return false;
        }
        let chars = chars_of(text);
        let compact = remove_class(chars.as_slice(), CharClass::Whitespace);
        let letters: usize = count_class(compact.as_slice(), CharClass::AlnumOrSyllable);
        let symbols: usize = count_symbols(chars.as_slice());
        noisy_by_counts(compact.len(), letters, symbols)
    }

    /// The Markdown of a text block.
    pub fn text_markdown(lines: &Vec<Line>, source: Provenance) -> (out: String)
        ensures
            out@ == (if skips_degraded_parser_text(source, block_plain_text(lines.deep_view()))
                || skips_noisy_ocr_text(source, block_plain_text(lines.deep_view())) {
                Seq::<char>::empty()
            } else {
                block_plain_text(lines.deep_view())
            }),
    {
        let text = string_of(plain_text_of(lines).as_slice());
        if Self::should_skip_degraded_parser_text(source, text.as_str())
            || Self::should_skip_noisy_ocr_text(source, text.as_str()) {
            String::new()
        } else {
            text
        }
    }

    /// Decides how a block enters the Markdown of a page.
    pub fn plan_block(block: &Block, block_idx: usize, has_image: bool, with_position: bool) -> (plan:
        BlockPlan)
        ensures
            plan@ == plan_block_spec(block@, block_idx, has_image, with_position),
    {
        match block {
            Block::TextBlock { lines, source, .. } => BlockPlan::Inline(
                Self::text_markdown(lines, *source),
            ),
            Block::TableBlock { bbox, .. } => if has_image {
                BlockPlan::Image { kind: BlockKind::Table, bbox: *bbox }
            } else {
                BlockPlan::Inline(size_placeholder(BlockKind::Table, bbox, with_position))
            },
            Block::FigureBlock { bbox, .. } => if has_image {
                BlockPlan::Image { kind: BlockKind::Figure, bbox: *bbox }
            } else {
                BlockPlan::Inline(size_placeholder(BlockKind::Figure, bbox, with_position))
            },
            Block::MathBlock { bbox, latex, .. } => {
                match latex {
                    Some(l) => {
                        if !l.as_str().is_empty() {
                            return BlockPlan::Inline(
                                if has_image {
                                    Self::captioned_latex(block_idx, l.as_str())
                                } else {
                                    Self::latex_display(l.as_str())
                                },
                            );
                        }
                    },
                    None => {},
                }
                if has_image {
                    BlockPlan::Image { kind: BlockKind::Math, bbox: *bbox }
                } else {
                    BlockPlan::Inline(size_placeholder(BlockKind::Math, bbox, with_position))
                }
            },
        }
    }

    /// A formula given as LaTeX, set off as a display.
    pub fn latex_display(latex: &str) -> (out: String)
        ensures
            out@ == latex_display_spec(latex@),
    {
        let mut out: Vec<char> = Vec::new();
        push_str(&mut out, "\n$$\n");
        push_str(&mut out, latex);
        push_str(&mut out, "\n$$\n");
        assert(out@ =~= latex_display_spec(latex@));
        string_of(out.as_slice())
    }

    /// A captioned formula given as LaTeX.
    pub fn captioned_latex(block_idx: usize, latex: &str) -> (out: String)
        ensures
            out@ == captioned_latex_spec(block_idx, latex@),
    {
        let mut out: Vec<char> = Vec::new();
        caption(&mut out, BlockKind::Math, block_idx);
        push_str(&mut out, "$$\n");
        push_str(&mut out, latex);
        push_str(&mut out, "\n$$\n");
        assert(out@ =~= captioned_latex_spec(block_idx, latex@));
        string_of(out.as_slice())
    }

    /// A captioned image; `path` is the path of the image relative to the document.
    pub fn image_markdown(kind: BlockKind, block_idx: usize, path: &str) -> (out: String)
        ensures
            out@ == image_markdown_spec(kind, block_idx, path@),
    {
        let mut out: Vec<char> = Vec::new();
        caption(&mut out, kind, block_idx);
        push_str(&mut out, "![");
        push_str(&mut out, alt_of(kind));
        push_str(&mut out, "](");
        push_str(&mut out, path);
        push_str(&mut out, ")\n");
        assert(out@ =~= image_markdown_spec(kind, block_idx, path@));
        string_of(out.as_slice())
    }

    /// The name of the image of a block.
    pub fn crop_file_name(page_idx: usize, kind: BlockKind, block_idx: usize) -> (name: String)
        ensures
            name@ == crop_file_name_spec(page_idx, kind, block_idx),
    {
        let mut out: Vec<char> = Vec::new();
        push_str(&mut out, "page_");
        let page = padded_decimal(page_idx as u128 + 1, 3);
        append_chars(&mut out, page.as_slice());
        push_str(&mut out, "_");
        push_str(&mut out, label_of(kind));
        push_str(&mut out, "__");
        let block = padded_decimal(block_idx as u128, 2);
        append_chars(&mut out, block.as_slice());
        push_str(&mut out, ".png");
        assert(out@ =~= crop_file_name_spec(page_idx, kind, block_idx));
        string_of(out.as_slice())
    }

    fn blocks_markdown(out: &mut Vec<char>, texts: &Vec<String>)
        ensures
            final(out)@ == old(out)@ + blocks_markdown_spec(texts.deep_view()),
    {
        let ghost views = texts.deep_view();
        let mut i: usize = 0;
        assert(views.take(0) =~= Seq::<Seq<char>>::empty());
        assert(out@ =~= old(out)@ + blocks_markdown_spec(views.take(0)));
        while i < texts.len()
            invariant
                i <= texts.len(),
                views == texts.deep_view(),
                out@ == old(out)@ + blocks_markdown_spec(views.take(i as int)),
            decreases texts.len() - i,
        {
            let ghost so_far = blocks_markdown_spec(views.take(i as int));
            proof {
                assert(views.take(i + 1).drop_last() == views.take(i as int));
                assert(views.take(i + 1).last() == texts@[i as int]@);
            }
            if !texts[i].as_str().is_empty() {
                push_str(out, texts[i].as_str());
                push_str(out, "\n\n");
                assert(out@ =~= old(out)@ + (so_far + texts@[i as int]@ + "\n\n"@));
            }
            i += 1;
        }
        assert(views.take(texts@.len() as int) == views);
    }

    /// The Markdown of a page on its own, from the texts of its blocks.
    pub fn page_markdown(page_idx: usize, block_texts: &Vec<String>) -> (out: String)
        ensures
            out@ == page_markdown_spec(page_idx, block_texts.deep_view()),
    {
        let mut out: Vec<char> = Vec::new();
        push_str(&mut out, "# Page ");
        let number = decimal(page_idx as u128 + 1);
        append_chars(&mut out, number.as_slice());
        push_str(&mut out, "\n\n");
        Self::blocks_markdown(&mut out, block_texts);
        assert(out@ =~= page_markdown_spec(page_idx, block_texts.deep_view()));
        string_of(out.as_slice())
    }

    /// The Markdown of a document, from the index of each page and the texts of its blocks.
    pub fn document_markdown(pages: &Vec<(usize, Vec<String>)>) -> (out: String)
        ensures
            out@ == document_markdown_spec(pages.deep_view()),
    {
        let ghost views = pages.deep_view();
        let mut out: Vec<char> = Vec::new();
        push_str(&mut out, "# Document\n\n");
        let mut i: usize = 0;
        assert(views.take(0) =~= Seq::<(usize, Seq<Seq<char>>)>::empty());
        assert(out@ =~= "# Document\n\n"@ + pages_markdown_spec(views.take(0)));
        while i < pages.len()
            invariant
                i <= pages.len(),
                views == pages.deep_view(),
                out@ == "# Document\n\n"@ + pages_markdown_spec(views.take(i as int)),
            decreases pages.len() - i,
        {
            let ghost so_far = pages_markdown_spec(views.take(i as int));
            proof {
                assert(views.take(i + 1).drop_last() == views.take(i as int));
                assert(views.take(i + 1).last() == (pages@[i as int].0, pages@[i as int].1.deep_view()));
            }
            push_str(&mut out, "---\n\n## Page ");
            let number = decimal(pages[i].0 as u128 + 1);
            append_chars(&mut out, number.as_slice());
            push_str(&mut out, "\n\n");
            Self::blocks_markdown(&mut out, &pages[i].1);
            assert(out@ =~= "# Document\n\n"@ + (so_far + "---\n\n## Page "@ + decimal_spec(
                (pages@[i as int].0 + 1) as nat,
            ) + "\n\n"@ + blocks_markdown_spec(pages@[i as int].1.deep_view())));
            i += 1;
        }
        assert(views.take(pages@.len() as int) == views);
        string_of(out.as_slice())
    }

    /// The name of the file of the whole document.
    pub fn document_file_name() -> (name: &'static str)
        ensures
            name@ == "document.md"@,
    {
        "document.md"
    }

    /// The name of the file of a page.
    pub fn page_file_name(page_idx: usize) -> (name: String)
        ensures
            name@ == page_file_name_spec(page_idx, ".md"@),
    {
        page_file_name(page_idx, ".md")
    }
}

} // verus!
