use vstd::prelude::*;
use crate::base::model::{
    Block, BlockDebug, BlockDebugView, BlockView, PageFinal, PageFinalView, Provenance,
};
use crate::export::markdown_export::label_of;
use crate::export::text_export::{page_file_name, page_file_name_spec};
use crate::text::decimal::{
    decimal, decimal_spec, padded_decimal, padded_decimal_spec, signed_decimal,
    signed_decimal_spec,
};
use crate::text::strings::{push_str, string_of};
use crate::text::words::append_chars;

verus! {

/// The page up to the page number in its title.
pub const PAGE_HEAD: &'static str = "<!DOCTYPE html>\n<html>\n<head>\n<meta charset='utf-8'>\n<title>DocStruct Debug Page ";

/// The page from its title to the address of the page image.
pub const PAGE_STYLE: &'static str = "</title>\n<style>\nbody { margin: 0; font-family: Arial, sans-serif; }\n#canvas { position: relative; }\n#canvas img { display: block; }\n.bbox { position: absolute; border: 2px solid rgba(0,0,255,0.4); box-sizing: border-box; }\n.bbox.parser { border-color: rgba(0,0,255,0.6); }\n.bbox.ocr { border-color: rgba(255,0,0,0.6); }\n.bbox.fused { border-color: rgba(0,128,0,0.6); }\n.bbox.text { background: rgba(100,100,255,0.1); }\n.bbox.table { background: rgba(255,165,0,0.15); border-style: dashed; }\n.bbox.figure { background: rgba(128,0,128,0.1); }\n.bbox.math { background: rgba(0,200,200,0.15); }\n#info { position: fixed; right: 10px; top: 10px; background: #fff; padding: 10px; border: 1px solid #ddd; max-width: 300px; }\n#legend { position: fixed; right: 10px; bottom: 10px; background: #fff; padding: 10px; border: 1px solid #ddd; font-size: 12px; }\n.legend-item { margin: 5px 0; }\n.legend-box { display: inline-block; width: 20px; height: 15px; border: 2px solid; vertical-align: middle; margin-right: 5px; }\n</style>\n</head>\n<body>\n<div id='info'>Click a block to inspect.</div>\n<div id='legend'>\n<div class='legend-item'><span class='legend-box' style='background: rgba(100,100,255,0.1); border-color: rgba(0,0,255,0.6);'></span>Text</div>\n<div class='legend-item'><span class='legend-box' style='background: rgba(255,165,0,0.15); border: 2px dashed rgba(255,0,0,0.6);'></span>Table</div>\n<div class='legend-item'><span class='legend-box' style='background: rgba(128,0,128,0.1); border-color: rgba(255,0,0,0.6);'></span>Figure</div>\n<div class='legend-item'><span class='legend-box' style='background: rgba(0,200,200,0.15); border-color: rgba(255,0,0,0.6);'></span>Math</div>\n</div>\n<div id='canvas'>\n<img src='";

/// What closes the page image.
pub const PAGE_IMAGE_END: &'static str = "' />\n";

/// The page after its boxes.
pub const PAGE_TAIL: &'static str = "\n</div>\n<script>\nconst info = document.getElementById('info');\nfor (const el of document.querySelectorAll('.bbox')) {\n  el.addEventListener('click', () => {\n    info.innerHTML = `type: ${el.dataset.type}<br/>provenance: ${el.dataset.provenance}<br/>confidence: ${el.dataset.confidence}<br/>similarity: ${el.dataset.similarity}<br/>parser_text: ${el.dataset.parserText}<br/>ocr_text: ${el.dataset.ocrText}<br/>final_text: ${el.dataset.finalText}`;\n  });\n}\n</script>\n</body>\n</html>";

/// Writes one HTML page per page of the document, with the boxes of all layers.
#[derive(Debug, Clone)]
pub struct HtmlDebugExporter {
    out_dir: String,
}

/// What stands for one character in HTML text.
pub open spec fn escape_char(c: char) -> Seq<char> {
    if c == '&' {
        "&amp;"@
    } else if c == '<' {
        "&lt;"@
    } else if c == '>' {
        "&gt;"@
    } else {
        seq![c]
    }
}

/// A text as HTML text: `&`, `<` and `>` are written as entities.
pub open spec fn escape_text_spec(s: Seq<char>) -> Seq<char>
    decreases s.len(),
{
    if s.len() == 0 {
        Seq::empty()
    } else {
        escape_text_spec(s.drop_last()) + escape_char(s.last())
    }
}

/// The lower-case name of a provenance.
pub open spec fn provenance_label_spec(provenance: Provenance) -> Seq<char> {
    match provenance {
        Provenance::Parser => "parser"@,
        Provenance::Ocr => "ocr"@,
        Provenance::Fused => "fused"@,
    }
}

/// A numeral without the zeros at its end.
pub open spec fn without_trailing_zeros(s: Seq<char>) -> Seq<char>
    decreases s.len(),
{
    if s.len() > 0 && s.last() == '0' {
        without_trailing_zeros(s.drop_last())
    } else {
        s
    }
}

/// A ratio in millionths as a decimal fraction with as many places as it needs.
pub open spec fn ratio_text_spec(value: u32) -> Seq<char> {
    if value % 1_000_000 == 0 {
        decimal_spec((value / 1_000_000) as nat)
    } else {
        decimal_spec((value / 1_000_000) as nat) + "."@ + without_trailing_zeros(
            padded_decimal_spec((value % 1_000_000) as nat, 6),
        )
    }
}

/// A ratio in millionths as a decimal fraction rounded to three places.
pub open spec fn three_places_spec(value: u32) -> Seq<char> {
    decimal_spec(((value + 500) / 1000 / 1000) as nat) + "."@ + padded_decimal_spec(
        ((value + 500) / 1000 % 1000) as nat,
        3,
    )
}

/// The escaped text of an optional text, empty for none.
pub open spec fn escaped_or_empty(text: Option<Seq<char>>) -> Seq<char> {
    match text {
        Some(t) => escape_text_spec(t),
        None => Seq::empty(),
    }
}

/// The debug trail of a block, empty where the block has none.
pub open spec fn extract_debug_spec(block: BlockView) -> BlockDebugView {
    match block.debug() {
        Some(d) => d,
        None => BlockDebugView { parser_text: None, ocr_text: None, final_text: None, similarity: None },
    }
}

/// The element that shows a block on the page of a layer.
pub open spec fn block_to_div_spec(block: BlockView, layer: Seq<char>) -> Seq<char> {
    let debug = extract_debug_spec(block);
    "<div class='bbox "@ + layer + " "@ + block.kind().label() + "' style='left:"@
        + signed_decimal_spec(block.bbox().x0 as int) + "px; top:"@ + signed_decimal_spec(
        block.bbox().y0 as int,
    ) + "px; width:"@ + decimal_spec(block.bbox().spec_width() as nat) + "px; height:"@
        + decimal_spec(block.bbox().spec_height() as nat) + "px;' data-text='"@ + escape_text_spec(
        block.text(),
    ) + "' data-type='"@ + block.kind().label() + "' data-provenance='"@ + provenance_label_spec(
        block.provenance(),
    ) + "' data-confidence='"@ + ratio_text_spec(block.confidence()) + "' data-parser-text='"@
        + escaped_or_empty(debug.parser_text) + "' data-ocr-text='"@ + escaped_or_empty(
        debug.ocr_text,
    ) + "' data-final-text='"@ + escaped_or_empty(debug.final_text) + "' data-similarity='"@ + (
    match debug.similarity {
        Some(v) => three_places_spec(v),
        None => Seq::empty(),
    }) + "'></div>"@
}

/// The elements of the blocks of one layer.
pub open spec fn layer_html_spec(blocks: Seq<BlockView>, layer: Seq<char>) -> Seq<char>
    decreases blocks.len(),
{
    if blocks.len() == 0 {
        Seq::empty()
    } else {
        layer_html_spec(blocks.drop_last(), layer) + block_to_div_spec(blocks.last(), layer)
    }
}

/// The elements of a page: the parser's blocks and the OCR's blocks where the
/// page kept them, then the fused blocks.
pub open spec fn page_blocks_html_spec(page: PageFinalView) -> Seq<char> {
    (match page.debug {
        Some(d) => layer_html_spec(d.parser_blocks, "parser"@) + layer_html_spec(
            d.ocr_blocks,
            "ocr"@,
        ),
        None => Seq::empty(),
    }) + layer_html_spec(page.blocks, "fused"@)
}

/// The HTML page of a page of the document.
pub open spec fn page_html_spec(page: PageFinalView) -> Seq<char> {
    PAGE_HEAD@ + decimal_spec((page.page_idx + 1) as nat) + PAGE_STYLE@ + page_file_name_spec(
        page.page_idx,
        ".png"@,
    ) + PAGE_IMAGE_END@ + page_blocks_html_spec(page) + PAGE_TAIL@
}

/// `html_escape::encode_text` writes `&`, `<` and `>` as the entities
/// `&amp;`, `&lt;` and `&gt;` and leaves every other character as it is.
#[verifier::external_body]
fn encode_text(text: &str) -> (r: String)
    ensures
        r@ == escape_text_spec(text@),
{
    html_escape::encode_text(text).into_owned()
}

/// The debug trail of a block, empty where the block has none.
pub fn extract_debug(block: &Block) -> (debug: BlockDebug)
    ensures
        debug@ == extract_debug_spec(block@),
{
    let found = match block {
        Block::TextBlock { debug, .. } => debug,
        Block::TableBlock { debug, .. } => debug,
        Block::FigureBlock { debug, .. } => debug,
        Block::MathBlock { debug, .. } => debug,
    };
    match found {
        Some(d) => d.duplicate(),
        None => BlockDebug { parser_text: None, ocr_text: None, final_text: None, similarity: None },
    }
}

/// The lower-case name of a provenance.
pub fn provenance_label(prov: Provenance) -> (r: &'static str)
    ensures
        r@ == provenance_label_spec(prov),
{
    match prov {
        Provenance::Parser => "parser",
        Provenance::Ocr => "ocr",
        Provenance::Fused => "fused",
    }
}

/// The lower-case name of the kind of a block.
pub fn block_type_label(block: &Block) -> (r: &'static str)
    ensures
        r@ == block@.kind().label(),
{
    label_of(block.block_kind())
}

/// Writes a ratio with as many decimal places as it needs.
pub fn ratio_text(value: u32) -> (out: Vec<char>)
    ensures
        out@ == ratio_text_spec(value),
{
    let mut out = decimal((value / 1_000_000) as u128);
    let fraction: u32 = value % 1_000_000;
    if fraction != 0 {
        let ghost whole = out@;
        let mut places = padded_decimal(fraction as u128, 6);
        let ghost all = places@;
        while places.len() > 0 && places[places.len() - 1] == '0'
            invariant
                without_trailing_zeros(all) == without_trailing_zeros(places@),
            decreases places.len(),
        {
            let ghost before = places@;
            places.pop();
            assert(places@ =~= before.drop_last());
        }
        out.push('.');
        append_chars(&mut out, places.as_slice());
        assert(out@ =~= whole + "."@ + without_trailing_zeros(all)) by {
            reveal_strlit(".");
            assert("."@ =~= seq!['.']);
        }
    }
    out
}

/// Writes a ratio rounded to three decimal places.
pub fn three_places(value: u32) -> (out: Vec<char>)
    ensures
        out@ == three_places_spec(value),
{
    let thousandths: u64 = (value as u64 + 500) / 1000;
    let mut out = decimal((thousandths / 1000) as u128);
    let ghost whole = out@;
    push_str(&mut out, ".");
    let places = padded_decimal((thousandths % 1000) as u128, 3);
    append_chars(&mut out, places.as_slice());
    assert(out@ =~= three_places_spec(value));
    out
}

fn push_escaped(out: &mut Vec<char>, text: &Option<String>)
    ensures
        final(out)@ == old(out)@ + escaped_or_empty(text.deep_view()),
{
    match text {
        Some(t) => {
            let escaped = encode_text(t.as_str());
            push_str(out, escaped.as_str());
        },
        None => {
            assert(out@ =~= old(out)@ + Seq::<char>::empty());
        },
    }
}

impl HtmlDebugExporter {
    pub closed spec fn spec_out_dir(&self) -> Seq<char> {
        self.out_dir@
    }

    pub fn new(out_dir: String) -> (r: Self)
        ensures
            r.spec_out_dir() == out_dir@,
    {
        HtmlDebugExporter { out_dir }
    }

    /// The directory that the files are written to.
    pub fn out_dir(&self) -> (r: &str)
        ensures
            r@ == self.spec_out_dir(),
    {
        self.out_dir.as_str()
    }

    /// The element that shows a block on the page of a layer.
    pub fn block_to_div(block: &Block, layer: &str) -> (out: String)
        ensures
            out@ == block_to_div_spec(block@, layer@),
    {
        let mut out: Vec<char> = Vec::new();
        Self::push_div(&mut out, block, layer);
        assert(out@ =~= block_to_div_spec(block@, layer@));
        string_of(out.as_slice())
    }

    fn push_div(out: &mut Vec<char>, block: &Block, layer: &str)
        ensures
            final(out)@ == old(out)@ + block_to_div_spec(block@, layer@),
    {
        let bbox = block.bbox();
        let debug = extract_debug(block);
        let block_type = block_type_label(block);
        let mut div: Vec<char> = Vec::new();
        push_str(&mut div, "<div class='bbox ");
        push_str(&mut div, layer);
        push_str(&mut div, " ");
        push_str(&mut div, block_type);
        push_str(&mut div, "' style='left:");
        append_chars(&mut div, signed_decimal(bbox.x0 as i64).as_slice());
        push_str(&mut div, "px; top:");
        append_chars(&mut div, signed_decimal(bbox.y0 as i64).as_slice());
        push_str(&mut div, "px; width:");
        append_chars(&mut div, decimal(bbox.width() as u128).as_slice());
        push_str(&mut div, "px; height:");
        append_chars(&mut div, decimal(bbox.height() as u128).as_slice());
        push_str(&mut div, "px;' data-text='");
        let text = crate::fusion::filters::block_text(block);
        push_str(&mut div, encode_text(text.as_str()).as_str());
        push_str(&mut div, "' data-type='");
        push_str(&mut div, block_type);
        push_str(&mut div, "' data-provenance='");
        push_str(&mut div, provenance_label(block.provenance()));
        push_str(&mut div, "' data-confidence='");
        append_chars(&mut div, ratio_text(block.confidence()).as_slice());
        push_str(&mut div, "' data-parser-text='");
        push_escaped(&mut div, &debug.parser_text);
        push_str(&mut div, "' data-ocr-text='");
        push_escaped(&mut div, &debug.ocr_text);
        push_str(&mut div, "' data-final-text='");
        push_escaped(&mut div, &debug.final_text);
        push_str(&mut div, "' data-similarity='");
        match debug.similarity {
            Some(v) => {
                append_chars(&mut div, three_places(v).as_slice());
            },
            None => {
                assert(div@ =~= div@ + Seq::<char>::empty());
            },
        }
        push_str(&mut div, "'></div>");
        assert(div@ =~= block_to_div_spec(block@, layer@));
        append_chars(out, div.as_slice());
    }

    fn push_layer(out: &mut Vec<char>, blocks: &Vec<Block>, layer: &str)
        ensures
            final(out)@ == old(out)@ + layer_html_spec(blocks.deep_view(), layer@),
    {
        let ghost views = blocks.deep_view();
        let mut i: usize = 0;
        assert(views.take(0) =~= Seq::<BlockView>::empty());
        assert(out@ =~= old(out)@ + layer_html_spec(views.take(0), layer@));
        while i < blocks.len()
            invariant
                i <= blocks.len(),
                views == blocks.deep_view(),
                out@ == old(out)@ + layer_html_spec(views.take(i as int), layer@),
            decreases blocks.len() - i,
        {
            let ghost so_far = layer_html_spec(views.take(i as int), layer@);
            proof {
                assert(views.take(i + 1).drop_last() == views.take(i as int));
                assert(views.take(i + 1).last() == blocks@[i as int]@);
            }
            Self::push_div(out, &blocks[i], layer);
            assert(out@ =~= old(out)@ + (so_far + block_to_div_spec(blocks@[i as int]@, layer@)));
            i += 1;
        }
        assert(views.take(blocks@.len() as int) == views);
    }

    /// The HTML page of a page of the document.
    pub fn render_page(page: &PageFinal) -> (out: String)
        ensures
            out@ == page_html_spec(page@),
    {
        let mut blocks: Vec<char> = Vec::new();
        match &page.debug {
            Some(d) => {
                Self::push_layer(&mut blocks, &d.parser_blocks, "parser");
                Self::push_layer(&mut blocks, &d.ocr_blocks, "ocr");
            },
            None => {},
        }
        Self::push_layer(&mut blocks, &page.blocks, "fused");
        assert(blocks@ =~= page_blocks_html_spec(page@));
        let mut out: Vec<char> = Vec::new();
        push_str(&mut out, PAGE_HEAD);
        append_chars(&mut out, decimal(page.page_idx as u128 + 1).as_slice());
        push_str(&mut out, PAGE_STYLE);
        let image = page_file_name(page.page_idx, ".png");
        push_str(&mut out, image.as_str());
        push_str(&mut out, PAGE_IMAGE_END);
        append_chars(&mut out, blocks.as_slice());
        push_str(&mut out, PAGE_TAIL);
        assert(out@ =~= page_html_spec(page@));
        string_of(out.as_slice())
    }

    /// The name of the file of a page.
    pub fn page_file_name(page_idx: usize) -> (name: String)
        ensures
            name@ == page_file_name_spec(page_idx, ".html"@),
    {
        page_file_name(page_idx, ".html")
    }
}

} // verus!
