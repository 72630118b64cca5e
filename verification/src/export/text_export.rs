use vstd::prelude::*;
use crate::base::geometry::BBox;
use crate::base::model::{
    Block, BlockView, DocumentFinal, Line, LineView, PageFinalView, Provenance, SpanView,
};
use crate::fusion::quality::{jamo_count, syllable_count};
use crate::text::chars::CharClass;
use crate::text::decimal::{
    decimal, decimal_spec, padded_decimal, padded_decimal_spec, signed_decimal,
    signed_decimal_spec,
};
use crate::text::strings::{chars_of, count_class, push_str, string_of};
use crate::text::words::append_chars;

verus! {

/// Writes the document as plain text.
#[derive(Debug, Clone)]
pub struct TextExporter {
    out_dir: String,
}

/// The texts of the spans of a line, written one after the other.
pub open spec fn line_plain_text(spans: Seq<SpanView>) -> Seq<char>
    decreases spans.len(),
{
    if spans.len() == 0 {
        Seq::empty()
    } else {
        line_plain_text(spans.drop_last()) + spans.last().text
    }
}

/// The lines of a block, one per line of text.
pub open spec fn block_plain_text(lines: Seq<LineView>) -> Seq<char>
    decreases lines.len(),
{
    if lines.len() == 0 {
        Seq::empty()
    } else if lines.len() == 1 {
        line_plain_text(lines[0].spans)
    } else {
        block_plain_text(lines.drop_last()) + seq!['\n'] + line_plain_text(lines.last().spans)
    }
}

/// Text of the parser that is mostly loose jamo: it holds eight jamo or more,
/// at least twice as many as syllables.
pub open spec fn skips_degraded_parser_text(source: Provenance, text: Seq<char>) -> bool {
    source == Provenance::Parser && jamo_count(text) >= 2 * syllable_count(text) && jamo_count(text)
        >= 8
}

/// What stands for a block without text: its kind, its corner and its size.
pub open spec fn placeholder_spec(label: Seq<char>, bbox: BBox) -> Seq<char> {
    "["@ + label + " at x:"@ + signed_decimal_spec(bbox.x0 as int) + " y:"@ + signed_decimal_spec(
        bbox.y0 as int,
    ) + " w:"@ + decimal_spec(bbox.spec_width() as nat) + " h:"@ + decimal_spec(
        bbox.spec_height() as nat,
    ) + "]"@
}

/// The text that a block contributes: its own text, unless that is degraded
/// parser text, or a placeholder for a table, a figure or a formula.
pub open spec fn format_block_spec(block: BlockView) -> Seq<char> {
    match block {
        BlockView::TextBlock { lines, source, .. } => if skips_degraded_parser_text(
            source,
            block_plain_text(lines),
        ) {
            Seq::empty()
        } else {
            block_plain_text(lines)
        },
        BlockView::TableBlock { bbox, .. } => placeholder_spec("TABLE"@, bbox),
        BlockView::FigureBlock { bbox, .. } => placeholder_spec("FIGURE"@, bbox),
        BlockView::MathBlock { bbox, .. } => placeholder_spec("MATH"@, bbox),
    }
}

/// The texts of the blocks, each followed by an empty line; blocks without text are left out.
pub open spec fn page_text_spec(blocks: Seq<BlockView>) -> Seq<char>
    decreases blocks.len(),
{
    if blocks.len() == 0 {
        Seq::empty()
    } else if format_block_spec(blocks.last()).len() == 0 {
        page_text_spec(blocks.drop_last())
    } else {
        page_text_spec(blocks.drop_last()) + format_block_spec(blocks.last()) + "\n\n"@
    }
}

/// The heading of a page: its number, counted from one.
pub open spec fn page_heading_spec(page_idx: usize) -> Seq<char> {
    "=== Page "@ + decimal_spec((page_idx + 1) as nat) + " ===\n\n"@
}

/// The text of a document: for each page its heading, its text and an empty line.
pub open spec fn document_text_spec(pages: Seq<PageFinalView>) -> Seq<char>
    decreases pages.len(),
{
    if pages.len() == 0 {
        Seq::empty()
    } else {
        document_text_spec(pages.drop_last()) + page_heading_spec(pages.last().page_idx)
            + page_text_spec(pages.last().blocks) + "\n"@
    }
}

/// The name of the file of a page: `page_`, the page number in three digits or more, and the extension.
pub open spec fn page_file_name_spec(page_idx: usize, extension: Seq<char>) -> Seq<char> {
    "page_"@ + padded_decimal_spec((page_idx + 1) as nat, 3) + extension
}

/// Writes the texts of the spans of the lines, one line of text per line.
pub fn plain_text_of(lines: &Vec<Line>) -> (out: Vec<char>)
    ensures
        out@ == block_plain_text(lines.deep_view()),
{
    let ghost views = lines.deep_view();
    let mut out: Vec<char> = Vec::new();
    let mut i: usize = 0;
    assert(views.take(0) =~= Seq::<LineView>::empty());
    while i < lines.len()
        invariant
            i <= lines.len(),
            views == lines.deep_view(),
            out@ == block_plain_text(views.take(i as int)),
        decreases lines.len() - i,
    {
        let ghost before = out@;
        let line = &lines[i];
        let ghost spans = line@.spans;
        proof {
            assert(views.take(i + 1).drop_last() == views.take(i as int));
            assert(views.take(i + 1).last() == line@);
            if i == 0 {
                assert(views.take(1)[0] == line@);
            }
        }
        if i > 0 {
            out.push('\n');
            assert(out@ =~= before + seq!['\n']);
        }
        let ghost start = out@;
        let mut j: usize = 0;
        assert(spans.take(0) =~= Seq::<SpanView>::empty());
        assert(start + line_plain_text(spans.take(0)) =~= start);
        while j < line.spans.len()
            invariant
                j <= line.spans.len(),
                spans == line@.spans,
                out@ == start + line_plain_text(spans.take(j as int)),
            decreases line.spans.len() - j,
        {
            let ghost so_far = line_plain_text(spans.take(j as int));
            proof {
                assert(spans.take(j + 1).drop_last() == spans.take(j as int));
                assert(spans.take(j + 1).last().text == line.spans@[j as int].text@);
            }
            push_str(&mut out, line.spans[j].text.as_str());
            assert(out@ =~= start + (so_far + line.spans@[j as int].text@));
            j += 1;
        }
        proof {
            assert(spans.take(spans.len() as int) == spans);
            if i == 0 {
                assert(out@ =~= line_plain_text(spans));
            }
        }
        i += 1;
    }
    assert(views.take(lines@.len() as int) == views);
    out
}

/// Writes the placeholder of a block without text.
pub fn placeholder(label: &str, bbox: &BBox) -> (out: Vec<char>)
    ensures
        out@ == placeholder_spec(label@, *bbox),
{
    let mut out: Vec<char> = Vec::new();
    push_str(&mut out, "[");
    push_str(&mut out, label);
    push_str(&mut out, " at x:");
    let x = signed_decimal(bbox.x0 as i64);
    append_chars(&mut out, x.as_slice());
    push_str(&mut out, " y:");
    let y = signed_decimal(bbox.y0 as i64);
    append_chars(&mut out, y.as_slice());
    push_str(&mut out, " w:");
    let w = decimal(bbox.width() as u128);
    append_chars(&mut out, w.as_slice());
    push_str(&mut out, " h:");
    let h = decimal(bbox.height() as u128);
    append_chars(&mut out, h.as_slice());
    push_str(&mut out, "]");
    assert(out@ =~= placeholder_spec(label@, *bbox));
    out
}

impl TextExporter {
    pub closed spec fn spec_out_dir(&self) -> Seq<char> {
        self.out_dir@
    }

    pub fn new(out_dir: String) -> (r: Self)
        ensures
            r.spec_out_dir() == out_dir@,
    {
        TextExporter { out_dir }
    }

    /// The directory that the files are written to.
    pub fn out_dir(&self) -> (r: &str)
        ensures
            r@ == self.spec_out_dir(),
    {
        self.out_dir.as_str()
    }

    /// The number of syllables and the number of jamo of a text.
    pub fn korean_counts(text: &str) -> (counts: (usize, usize))
        ensures
            counts.0 == syllable_count(text@),
            counts.1 == jamo_count(text@),
    {
        let chars = chars_of(text);
        (
            count_class(chars.as_slice(), CharClass::HangulSyllable),
            count_class(chars.as_slice(), CharClass::HangulJamo),
        )
    }

    /// Whether a text is left out because the parser left it decomposed.
    pub fn should_skip_degraded_parser_text(source: Provenance, text: &str) -> (r: bool)
        ensures
            r == skips_degraded_parser_text(source, text@),
    {
        if source != Provenance::Parser {
            return false;
        }
        let (syllables, jamos) = Self::korean_counts(text);
        (jamos as u128) >= (syllables as u128) * 2 && jamos >= 8
    }

    /// The text that a block contributes to the document.
    pub fn format_block(block: &Block) -> (out: String)
        ensures
            out@ == format_block_spec(block@),
    {
        match block {
            Block::TextBlock { lines, source, .. } => {
                let text = string_of(plain_text_of(lines).as_slice());
                if Self::should_skip_degraded_parser_text(*source, text.as_str()) {
                    String::new()
                } else {
                    text
                }
            },
            Block::TableBlock { bbox, .. } => string_of(placeholder("TABLE", bbox).as_slice()),
            Block::FigureBlock { bbox, .. } => string_of(placeholder("FIGURE", bbox).as_slice()),
            Block::MathBlock { bbox, .. } => string_of(placeholder("MATH", bbox).as_slice()),
        }
    }

    /// The text of the blocks of a page: what the page's own file holds.
    pub fn render_page(blocks: &Vec<Block>) -> (out: String)
        ensures
            out@ == page_text_spec(blocks.deep_view()),
    {
        let chars = Self::page_chars(blocks);
        string_of(chars.as_slice())
    }

    fn page_chars(blocks: &Vec<Block>) -> (out: Vec<char>)
        ensures
            out@ == page_text_spec(blocks.deep_view()),
    {
        let ghost views = blocks.deep_view();
        let mut out: Vec<char> = Vec::new();
        let mut i: usize = 0;
        assert(views.take(0) =~= Seq::<BlockView>::empty());
        while i < blocks.len()
            invariant
                i <= blocks.len(),
                views == blocks.deep_view(),
                out@ == page_text_spec(views.take(i as int)),
            decreases blocks.len() - i,
        {
            let ghost before = out@;
            proof {
                assert(views.take(i + 1).drop_last() == views.take(i as int));
                assert(views.take(i + 1).last() == blocks@[i as int]@);
            }
            let text = Self::format_block(&blocks[i]);
            if !text.as_str().is_empty() {
                push_str(&mut out, text.as_str());
                push_str(&mut out, "\n\n");
                assert(out@ =~= before + text@ + "\n\n"@);
            }
            i += 1;
        }
        assert(views.take(blocks@.len() as int) == views);
        out
    }

    /// The text of the whole document: what `document.txt` holds.
    pub fn render_document(document: &DocumentFinal) -> (out: String)
        ensures
            out@ == document_text_spec(document@.pages),
    {
        let ghost views = document@.pages;
        let mut out: Vec<char> = Vec::new();
        let mut i: usize = 0;
        assert(views.take(0) =~= Seq::<PageFinalView>::empty());
        while i < document.pages.len()
            invariant
                i <= document.pages.len(),
                views == document@.pages,
                out@ == document_text_spec(views.take(i as int)),
            decreases document.pages.len() - i,
        {
            let ghost before = out@;
            let page = &document.pages[i];
            proof {
                assert(views.take(i + 1).drop_last() == views.take(i as int));
                assert(views.take(i + 1).last() == page@);
            }
            push_str(&mut out, "=== Page ");
            let number = decimal(page.page_idx as u128 + 1);
            append_chars(&mut out, number.as_slice());
            push_str(&mut out, " ===\n\n");
            let body = Self::page_chars(&page.blocks);
            append_chars(&mut out, body.as_slice());
            push_str(&mut out, "\n");
            assert(out@ =~= before + page_heading_spec(page.page_idx) + page_text_spec(
                page@.blocks,
            ) + "\n"@);
            i += 1;
        }
        assert(views.take(document.pages@.len() as int) == views);
        string_of(out.as_slice())
    }

    /// The name of the file of the whole document.
    pub fn document_file_name() -> (name: &'static str)
        ensures
            name@ == "document.txt"@,
    {
        "document.txt"
    }

    /// The name of the file of a page.
    pub fn page_file_name(page_idx: usize) -> (name: String)
        ensures
            name@ == page_file_name_spec(page_idx, ".txt"@),
    {
        page_file_name(page_idx, ".txt")
    }
}

/// The name of the file of a page with the given extension.
pub fn page_file_name(page_idx: usize, extension: &str) -> (name: String)
    ensures
        name@ == page_file_name_spec(page_idx, extension@),
{
    let mut out: Vec<char> = Vec::new();
    push_str(&mut out, "page_");
    let number = padded_decimal(page_idx as u128 + 1, 3);
    append_chars(&mut out, number.as_slice());
    push_str(&mut out, extension);
    assert(out@ =~= page_file_name_spec(page_idx, extension@));
    string_of(out.as_slice())
}

} // verus!
