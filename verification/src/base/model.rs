use vstd::prelude::*;
use crate::base::fixed::MILLION;
use crate::base::geometry::BBox;
use crate::text::strings::{chars_of, string_of};
use crate::text::words::{join, join_chars, texts_of};

verus! {

/// Which track produced a block.
#[derive(Debug, Clone, Copy, PartialEq, Eq, Structural)]
pub enum Provenance {
    Parser,
    Ocr,
    Fused,
}

/// How a page was produced, as far as the two tracks can tell.
#[derive(Debug, Clone, Copy, PartialEq, Eq, Structural)]
pub enum PageClass {
    Digital,
    Scanned,
    Hybrid,
}

/// The variant of a block, without its content.
#[derive(Debug, Clone, Copy, PartialEq, Eq, Structural)]
pub enum BlockKind {
    Text,
    Table,
    Figure,
    Math,
}

/// Font information of a span; `size` is counted in hundredths of a point.
#[derive(Debug, Clone)]
pub struct TextStyle {
    pub font: Option<String>,
    pub size: Option<u32>,
}

/// A run of text with its own box.
#[derive(Debug, Clone)]
pub struct Span {
    pub text: String,
    pub bbox: BBox,
    pub source: Provenance,
    pub style: Option<TextStyle>,
}

/// Spans in reading order.
#[derive(Debug, Clone)]
pub struct Line {
    pub spans: Vec<Span>,
}

/// The trail that fusion leaves on a block; `similarity` is counted in millionths.
#[derive(Debug, Clone)]
pub struct BlockDebug {
    pub parser_text: Option<String>,
    pub ocr_text: Option<String>,
    pub final_text: Option<String>,
    pub similarity: Option<u32>,
}

/// A region of a page; `confidence` is counted in millionths.
#[derive(Debug, Clone)]
pub enum Block {
    TextBlock { bbox: BBox, lines: Vec<Line>, confidence: u32, source: Provenance, debug: Option<BlockDebug> },
    TableBlock { bbox: BBox, confidence: u32, source: Provenance, debug: Option<BlockDebug> },
    FigureBlock { bbox: BBox, confidence: u32, source: Provenance, debug: Option<BlockDebug> },
    MathBlock {
        bbox: BBox,
        confidence: u32,
        source: Provenance,
        latex: Option<String>,
        debug: Option<BlockDebug>,
    },
}

/// One track's reading of a page.
#[derive(Debug, Clone)]
pub struct PageHypothesis {
    pub page_idx: usize,
    pub blocks: Vec<Block>,
    pub width: u32,
    pub height: u32,
}

/// The blocks that both tracks handed in, kept beside the fused page.
#[derive(Debug, Clone)]
pub struct PageDebug {
    pub parser_blocks: Vec<Block>,
    pub ocr_blocks: Vec<Block>,
}

/// The fused reading of a page.
#[derive(Debug, Clone)]
pub struct PageFinal {
    pub page_idx: usize,
    pub class: PageClass,
    pub blocks: Vec<Block>,
    pub width: u32,
    pub height: u32,
    pub debug: Option<PageDebug>,
}

/// The fused pages of a document, in page order.
#[derive(Debug, Clone)]
pub struct DocumentFinal {
    pub pages: Vec<PageFinal>,
}

/// The value of a [`TextStyle`].
pub struct TextStyleView {
    pub font: Option<Seq<char>>,
    pub size: Option<u32>,
}

/// The value of a [`Span`].
pub struct SpanView {
    pub text: Seq<char>,
    pub bbox: BBox,
    pub source: Provenance,
    pub style: Option<TextStyleView>,
}

/// The value of a [`Line`].
pub struct LineView {
    pub spans: Seq<SpanView>,
}

/// The value of a [`BlockDebug`].
pub struct BlockDebugView {
    pub parser_text: Option<Seq<char>>,
    pub ocr_text: Option<Seq<char>>,
    pub final_text: Option<Seq<char>>,
    pub similarity: Option<u32>,
}

/// The value of a [`Block`].
pub enum BlockView {
    TextBlock {
        bbox: BBox,
        lines: Seq<LineView>,
        confidence: u32,
        source: Provenance,
        debug: Option<BlockDebugView>,
    },
    TableBlock { bbox: BBox, confidence: u32, source: Provenance, debug: Option<BlockDebugView> },
    FigureBlock { bbox: BBox, confidence: u32, source: Provenance, debug: Option<BlockDebugView> },
    MathBlock {
        bbox: BBox,
        confidence: u32,
        source: Provenance,
        latex: Option<Seq<char>>,
        debug: Option<BlockDebugView>,
    },
}

/// The value of a [`PageHypothesis`].
pub struct PageHypothesisView {
    pub page_idx: usize,
    pub blocks: Seq<BlockView>,
    pub width: u32,
    pub height: u32,
}

/// The value of a [`PageDebug`].
pub struct PageDebugView {
    pub parser_blocks: Seq<BlockView>,
    pub ocr_blocks: Seq<BlockView>,
}

/// The value of a [`PageFinal`].
pub struct PageFinalView {
    pub page_idx: usize,
    pub class: PageClass,
    pub blocks: Seq<BlockView>,
    pub width: u32,
    pub height: u32,
    pub debug: Option<PageDebugView>,
}

/// The value of a [`DocumentFinal`].
pub struct DocumentFinalView {
    pub pages: Seq<PageFinalView>,
}

impl DeepView for TextStyle {
    type V = TextStyleView;

    open spec fn deep_view(&self) -> TextStyleView {
        TextStyleView { font: self.font.deep_view(), size: self.size }
    }
}

impl View for TextStyle {
    type V = TextStyleView;

    open spec fn view(&self) -> TextStyleView {
        self.deep_view()
    }
}

impl DeepView for Span {
    type V = SpanView;

    open spec fn deep_view(&self) -> SpanView {
        SpanView {
            text: self.text@,
            bbox: self.bbox,
            source: self.source,
            style: self.style.deep_view(),
        }
    }
}

impl View for Span {
    type V = SpanView;

    open spec fn view(&self) -> SpanView {
        self.deep_view()
    }
}

impl DeepView for Line {
    type V = LineView;

    open spec fn deep_view(&self) -> LineView {
        LineView { spans: self.spans.deep_view() }
    }
}

impl View for Line {
    type V = LineView;

    open spec fn view(&self) -> LineView {
        self.deep_view()
    }
}

impl DeepView for BlockDebug {
    type V = BlockDebugView;

    open spec fn deep_view(&self) -> BlockDebugView {
        BlockDebugView {
            parser_text: self.parser_text.deep_view(),
            ocr_text: self.ocr_text.deep_view(),
            final_text: self.final_text.deep_view(),
            similarity: self.similarity,
        }
    }
}

impl View for BlockDebug {
    type V = BlockDebugView;

    open spec fn view(&self) -> BlockDebugView {
        self.deep_view()
    }
}

impl DeepView for Block {
    type V = BlockView;

    open spec fn deep_view(&self) -> BlockView {
        match *self {
            Block::TextBlock { bbox, lines, confidence, source, debug } => BlockView::TextBlock {
                bbox,
                lines: lines.deep_view(),
                confidence,
                source,
                debug: debug.deep_view(),
            },
            Block::TableBlock { bbox, confidence, source, debug } => BlockView::TableBlock {
                bbox,
                confidence,
                source,
                debug: debug.deep_view(),
            },
            Block::FigureBlock { bbox, confidence, source, debug } => BlockView::FigureBlock {
                bbox,
                confidence,
                source,
                debug: debug.deep_view(),
            },
            Block::MathBlock { bbox, confidence, source, latex, debug } => BlockView::MathBlock {
                bbox,
                confidence,
                source,
                latex: latex.deep_view(),
                debug: debug.deep_view(),
            },
        }
    }
}

impl View for Block {
    type V = BlockView;

    open spec fn view(&self) -> BlockView {
        self.deep_view()
    }
}

impl DeepView for PageHypothesis {
    type V = PageHypothesisView;

    open spec fn deep_view(&self) -> PageHypothesisView {
        PageHypothesisView {
            page_idx: self.page_idx,
            blocks: self.blocks.deep_view(),
            width: self.width,
            height: self.height,
        }
    }
}

impl View for PageHypothesis {
    type V = PageHypothesisView;

    open spec fn view(&self) -> PageHypothesisView {
        self.deep_view()
    }
}

impl DeepView for PageDebug {
    type V = PageDebugView;

    open spec fn deep_view(&self) -> PageDebugView {
        PageDebugView {
            parser_blocks: self.parser_blocks.deep_view(),
            ocr_blocks: self.ocr_blocks.deep_view(),
        }
    }
}

impl View for PageDebug {
    type V = PageDebugView;

    open spec fn view(&self) -> PageDebugView {
        self.deep_view()
    }
}

impl DeepView for PageFinal {
    type V = PageFinalView;

    open spec fn deep_view(&self) -> PageFinalView {
        PageFinalView {
            page_idx: self.page_idx,
            class: self.class,
            blocks: self.blocks.deep_view(),
            width: self.width,
            height: self.height,
            debug: self.debug.deep_view(),
        }
    }
}

impl View for PageFinal {
    type V = PageFinalView;

    open spec fn view(&self) -> PageFinalView {
        self.deep_view()
    }
}

impl DeepView for DocumentFinal {
    type V = DocumentFinalView;

    open spec fn deep_view(&self) -> DocumentFinalView {
        DocumentFinalView { pages: self.pages.deep_view() }
    }
}

impl View for DocumentFinal {
    type V = DocumentFinalView;

    open spec fn view(&self) -> DocumentFinalView {
        self.deep_view()
    }
}

/// The span texts of one line, in order.
pub open spec fn line_span_texts(line: LineView) -> Seq<Seq<char>> {
    line.spans.map_values(|s: SpanView| s.text)
}

/// The span texts of all lines, in reading order.
pub open spec fn span_texts(lines: Seq<LineView>) -> Seq<Seq<char>>
    decreases lines.len(),
{
    if lines.len() == 0 {
        Seq::empty()
    } else {
        span_texts(lines.drop_last()) + line_span_texts(lines.last())
    }
}

/// All span texts of the lines, separated by single spaces.
pub open spec fn lines_text(lines: Seq<LineView>) -> Seq<char> {
    join(span_texts(lines), seq![' '])
}

impl BlockDebugView {
    /// A recorded similarity is a ratio.
    pub open spec fn wf(self) -> bool {
        self.similarity is Some ==> self.similarity->0 <= MILLION
    }
}

impl BlockView {
    /// The box of the block.
    pub open spec fn bbox(self) -> BBox {
        match self {
            BlockView::TextBlock { bbox, .. } => bbox,
            BlockView::TableBlock { bbox, .. } => bbox,
            BlockView::FigureBlock { bbox, .. } => bbox,
            BlockView::MathBlock { bbox, .. } => bbox,
        }
    }

    /// The track that produced the block.
    pub open spec fn provenance(self) -> Provenance {
        match self {
            BlockView::TextBlock { source, .. } => source,
            BlockView::TableBlock { source, .. } => source,
            BlockView::FigureBlock { source, .. } => source,
            BlockView::MathBlock { source, .. } => source,
        }
    }

    /// The confidence of the block, in millionths.
    pub open spec fn confidence(self) -> u32 {
        match self {
            BlockView::TextBlock { confidence, .. } => confidence,
            BlockView::TableBlock { confidence, .. } => confidence,
            BlockView::FigureBlock { confidence, .. } => confidence,
            BlockView::MathBlock { confidence, .. } => confidence,
        }
    }

    /// The trail that fusion left on the block.
    pub open spec fn debug(self) -> Option<BlockDebugView> {
        match self {
            BlockView::TextBlock { debug, .. } => debug,
            BlockView::TableBlock { debug, .. } => debug,
            BlockView::FigureBlock { debug, .. } => debug,
            BlockView::MathBlock { debug, .. } => debug,
        }
    }

    /// The variant of the block.
    pub open spec fn kind(self) -> BlockKind {
        match self {
            BlockView::TextBlock { .. } => BlockKind::Text,
            BlockView::TableBlock { .. } => BlockKind::Table,
            BlockView::FigureBlock { .. } => BlockKind::Figure,
            BlockView::MathBlock { .. } => BlockKind::Math,
        }
    }

    /// The text of a text block; other blocks bear none.
    pub open spec fn text_content(self) -> Option<Seq<char>> {
        match self {
            BlockView::TextBlock { lines, .. } => Some(lines_text(lines)),
            _ => None,
        }
    }

    /// The text of a text block, empty for other blocks.
    pub open spec fn text(self) -> Seq<char> {
        match self.text_content() {
            Some(t) => t,
            None => Seq::empty(),
        }
    }

    /// A text block that the given track produced.
    pub open spec fn is_text_from(self, source: Provenance) -> bool {
        self.kind() == BlockKind::Text && self.provenance() == source
    }

    /// The confidence and a recorded similarity are ratios.
    pub open spec fn wf(self) -> bool {
        &&& self.confidence() <= MILLION
        &&& self.debug() is Some ==> self.debug()->0.wf()
    }
}

impl BlockKind {
    /// The lower-case name of the kind.
    pub open spec fn label(self) -> Seq<char> {
        match self {
            BlockKind::Text => "text"@,
            BlockKind::Table => "table"@,
            BlockKind::Figure => "figure"@,
            BlockKind::Math => "math"@,
        }
    }
}

impl DocumentFinalView {
    /// Page indices strictly increase.
    pub open spec fn wf(self) -> bool {
        forall|i: int, j: int|
            0 <= i < j < self.pages.len() ==> (#[trigger] self.pages[i]).page_idx < (
            #[trigger] self.pages[j]).page_idx
    }
}

/// A copy of an optional string.
pub fn copy_opt_string(o: &Option<String>) -> (r: Option<String>)
    ensures
        r.deep_view() == o.deep_view(),
{
    match o {
        Some(s) => Some(s.clone()),
        None => None,
    }
}

impl TextStyle {
    /// A deep copy.
    pub fn duplicate(&self) -> (r: Self)
        ensures
            r@ == self@,
    {
        TextStyle { font: copy_opt_string(&self.font), size: self.size }
    }
}

impl Span {
    /// A deep copy.
    pub fn duplicate(&self) -> (r: Self)
        ensures
            r@ == self@,
    {
        let style = match &self.style {
            Some(s) => Some(s.duplicate()),
            None => None,
        };
        Span { text: self.text.clone(), bbox: self.bbox, source: self.source, style }
    }
}

impl Line {
    /// A deep copy.
    pub fn duplicate(&self) -> (r: Self)
        ensures
            r@ == self@,
    {
        let mut spans: Vec<Span> = Vec::new();
        let mut i: usize = 0;
        while i < self.spans.len()
            invariant
                i <= self.spans.len(),
                spans.deep_view() == self.spans.deep_view().take(i as int),
            decreases self.spans.len() - i,
        {
            let ghost before = spans.deep_view();
            spans.push(self.spans[i].duplicate());
            assert(spans.deep_view() =~= before.push(self.spans[i as int]@));
            assert(self.spans.deep_view().take(i + 1) =~= before.push(self.spans[i as int]@));
            i += 1;
        }
        assert(self.spans.deep_view().take(self.spans.len() as int) == self.spans.deep_view());
        Line { spans }
    }
}

/// A deep copy of a list of lines.
pub fn copy_lines(lines: &Vec<Line>) -> (r: Vec<Line>)
    ensures
        r.deep_view() == lines.deep_view(),
{
    let mut out: Vec<Line> = Vec::new();
    let mut i: usize = 0;
    while i < lines.len()
        invariant
            i <= lines.len(),
            out.deep_view() == lines.deep_view().take(i as int),
        decreases lines.len() - i,
    {
        let ghost before = out.deep_view();
        out.push(lines[i].duplicate());
        assert(out.deep_view() =~= before.push(lines[i as int]@));
        assert(lines.deep_view().take(i + 1) =~= before.push(lines[i as int]@));
        i += 1;
    }
    assert(lines.deep_view().take(lines.len() as int) == lines.deep_view());
    out
}

impl BlockDebug {
    /// A deep copy.
    pub fn duplicate(&self) -> (r: Self)
        ensures
            r@ == self@,
    {
        BlockDebug {
            parser_text: copy_opt_string(&self.parser_text),
            ocr_text: copy_opt_string(&self.ocr_text),
            final_text: copy_opt_string(&self.final_text),
            similarity: self.similarity,
        }
    }
}

/// A deep copy of an optional debug trail.
pub fn copy_opt_debug(o: &Option<BlockDebug>) -> (r: Option<BlockDebug>)
    ensures
        r.deep_view() == o.deep_view(),
{
    match o {
        Some(d) => Some(d.duplicate()),
        None => None,
    }
}

/// The span texts of the lines, in reading order.
pub fn collect_span_texts(lines: &Vec<Line>) -> (out: Vec<Vec<char>>)
    ensures
        texts_of(out@) == span_texts(lines.deep_view()),
{
    let mut out: Vec<Vec<char>> = Vec::new();
    let mut i: usize = 0;
    assert(texts_of(out@) =~= span_texts(lines.deep_view().take(0)));
    while i < lines.len()
        invariant
            i <= lines.len(),
            texts_of(out@) == span_texts(lines.deep_view().take(i as int)),
        decreases lines.len() - i,
    {
        let line = &lines[i];
        let ghost done = texts_of(out@);
        let ghost lv = line@;
        let mut j: usize = 0;
        assert(line_span_texts(lv).take(0) =~= Seq::<Seq<char>>::empty());
        assert(done + Seq::<Seq<char>>::empty() =~= done);
        while j < line.spans.len()
            invariant
                j <= line.spans.len(),
                lv == line@,
                texts_of(out@) == done + line_span_texts(lv).take(j as int),
            decreases line.spans.len() - j,
        {
            let ghost before = texts_of(out@);
            out.push(chars_of(line.spans[j].text.as_str()));
            proof {
                let t = line.spans[j as int].text@;
                assert(line_span_texts(lv)[j as int] == t);
                assert(line_span_texts(lv).take(j + 1) =~= line_span_texts(lv).take(j as int).push(t));
                assert(texts_of(out@) =~= before.push(t));
                assert(before.push(t) =~= done + line_span_texts(lv).take(j + 1));
            }
            j += 1;
        }
        proof {
            assert(line_span_texts(lv).take(line.spans.len() as int) =~= line_span_texts(lv));
            let all = lines.deep_view();
            assert(all.take(i + 1).drop_last() =~= all.take(i as int));
            assert(all.take(i + 1).last() == lv);
        }
        i += 1;
    }
    assert(lines.deep_view().take(lines.len() as int) == lines.deep_view());
    out
}

/// All span texts of the lines, separated by single spaces.
pub fn text_of_lines(lines: &Vec<Line>) -> (out: String)
    ensures
        out@ == lines_text(lines.deep_view()),
{
    let parts = collect_span_texts(lines);
    let sep: Vec<char> = vec![' '];
    assert(sep@ =~= seq![' ']);
    let joined = join_chars(&parts, sep.as_slice());
    string_of(joined.as_slice())
}

impl Block {
    /// The box of the block.
    pub fn bbox(&self) -> (r: BBox)
        ensures
            r == self@.bbox(),
    {
        match self {
            Block::TextBlock { bbox, .. } => *bbox,
            Block::TableBlock { bbox, .. } => *bbox,
            Block::FigureBlock { bbox, .. } => *bbox,
            Block::MathBlock { bbox, .. } => *bbox,
        }
    }

    /// The track that produced the block.
    pub fn provenance(&self) -> (r: Provenance)
        ensures
            r == self@.provenance(),
    {
        match self {
            Block::TextBlock { source, .. } => *source,
            Block::TableBlock { source, .. } => *source,
            Block::FigureBlock { source, .. } => *source,
            Block::MathBlock { source, .. } => *source,
        }
    }

    /// The confidence of the block, in millionths.
    pub fn confidence(&self) -> (r: u32)
        ensures
            r == self@.confidence(),
    {
        match self {
            Block::TextBlock { confidence, .. } => *confidence,
            Block::TableBlock { confidence, .. } => *confidence,
            Block::FigureBlock { confidence, .. } => *confidence,
            Block::MathBlock { confidence, .. } => *confidence,
        }
    }

    /// The span texts of a text block joined by single spaces; `None` for other blocks.
    pub fn text_content(&self) -> (r: Option<String>)
        ensures
            r.deep_view() == self@.text_content(),
    {
        match self {
            Block::TextBlock { lines, .. } => Some(text_of_lines(lines)),
            _ => None,
        }
    }

    /// The variant of the block.
    pub fn block_kind(&self) -> (r: BlockKind)
        ensures
            r == self@.kind(),
    {
        match self {
            Block::TextBlock { .. } => BlockKind::Text,
            Block::TableBlock { .. } => BlockKind::Table,
            Block::FigureBlock { .. } => BlockKind::Figure,
            Block::MathBlock { .. } => BlockKind::Math,
        }
    }

    /// The lower-case name of the variant.
    pub fn kind(&self) -> (r: &'static str)
        ensures
            r@ == self@.kind().label(),
    {
        match self {
            Block::TextBlock { .. } => "text",
            Block::TableBlock { .. } => "table",
            Block::FigureBlock { .. } => "figure",
            Block::MathBlock { .. } => "math",
        }
    }

    /// A deep copy.
    pub fn duplicate(&self) -> (r: Self)
        ensures
            r@ == self@,
    {
        match self {
            Block::TextBlock { bbox, lines, confidence, source, debug } => Block::TextBlock {
                bbox: *bbox,
                lines: copy_lines(lines),
                confidence: *confidence,
                source: *source,
                debug: copy_opt_debug(debug),
            },
            Block::TableBlock { bbox, confidence, source, debug } => Block::TableBlock {
                bbox: *bbox,
                confidence: *confidence,
                source: *source,
                debug: copy_opt_debug(debug),
            },
            Block::FigureBlock { bbox, confidence, source, debug } => Block::FigureBlock {
                bbox: *bbox,
                confidence: *confidence,
                source: *source,
                debug: copy_opt_debug(debug),
            },
            Block::MathBlock { bbox, confidence, source, latex, debug } => Block::MathBlock {
                bbox: *bbox,
                confidence: *confidence,
                source: *source,
                latex: copy_opt_string(latex),
                debug: copy_opt_debug(debug),
            },
        }
    }
}

impl BlockDebug {
    /// Whether a recorded similarity is a ratio.
    pub fn is_well_formed(&self) -> (r: bool)
        ensures
            r == self@.wf(),
    {
        match self.similarity {
            Some(v) => v <= MILLION,
            None => true,
        }
    }
}

impl Block {
    /// Whether the confidence and a recorded similarity are ratios.
    pub fn is_well_formed(&self) -> (r: bool)
        ensures
            r == self@.wf(),
    {
        let debug = match self {
            Block::TextBlock { debug, .. } => debug,
            Block::TableBlock { debug, .. } => debug,
            Block::FigureBlock { debug, .. } => debug,
            Block::MathBlock { debug, .. } => debug,
        };
        let debug_ok: bool = match debug {
            Some(d) => d.is_well_formed(),
            None => true,
        };
        self.confidence() <= MILLION && debug_ok
    }
}

impl DocumentFinal {
    /// A document without pages.
    pub fn new() -> (r: Self)
        ensures
            r@.pages.len() == 0,
            r@.wf(),
    {
        let pages: Vec<PageFinal> = Vec::new();
        let r = DocumentFinal { pages };
        assert(r@.pages =~= Seq::<PageFinalView>::empty());
        r
    }

    /// Whether the page indices strictly increase.
    pub fn is_ordered(&self) -> (r: bool)
        ensures
            r == self@.wf(),
    {
        let ghost views = self@.pages;
        let mut i: usize = 1;
        while i < self.pages.len()
            invariant
                1 <= i,
                views == self@.pages,
                forall|k: int| 1 <= k < i && k < views.len() ==> (#[trigger] views[k - 1]).page_idx
                    < views[k].page_idx,
            decreases self.pages.len() - i,
        {
            assert(views[i as int] == self.pages@[i as int]@);
            assert(views[i - 1] == self.pages@[i - 1]@);
            if self.pages[i - 1].page_idx >= self.pages[i].page_idx {
                return false;
            }
            i += 1;
        }
        proof {
            lemma_neighbours_order(views);
        }
        true
    }

    /// Appends a page whose index is greater than that of the last page. A
    /// page that would break the order is refused and handed back.
    pub fn push_page(&mut self, page: PageFinal) -> (refused: Option<PageFinal>)
        requires
            old(self)@.wf(),
        ensures
            final(self)@.wf(),
            match refused {
                None => final(self)@.pages == old(self)@.pages.push(page@),
                Some(p) => p == page && final(self)@.pages == old(self)@.pages,
            },
            refused is None <==> (old(self)@.pages.len() == 0 || old(self)@.pages.last().page_idx
                < page.page_idx),
    {
        let n: usize = self.pages.len();
        let ghost before = self@.pages;
        if n > 0 {
            assert(before[n - 1] == self.pages@[n - 1]@);
            if self.pages[n - 1].page_idx >= page.page_idx {
                return Some(page);
            }
        }
        let ghost view = page@;
        self.pages.push(page);
        proof {
            assert(self@.pages =~= before.push(view));
            assert forall|i: int, j: int| 0 <= i < j < self@.pages.len() implies (
            #[trigger] self@.pages[i]).page_idx < (#[trigger] self@.pages[j]).page_idx by {
                if j == n {
                    if i < n - 1 {
                        assert(before[i].page_idx < before[n - 1].page_idx);
                    }
                } else {
                    assert(before[i].page_idx < before[j].page_idx);
                }
            }
        }
        None
    }
}

/// Pages whose neighbours are in order are in order throughout.
proof fn lemma_neighbours_order(pages: Seq<PageFinalView>)
    requires
        forall|k: int| 1 <= k < pages.len() ==> (#[trigger] pages[k - 1]).page_idx
            < pages[k].page_idx,
    ensures
        (DocumentFinalView { pages }).wf(),
{
    assert forall|i: int, j: int| 0 <= i < j < pages.len() implies (#[trigger] pages[i]).page_idx
        < (#[trigger] pages[j]).page_idx by {
        lemma_order_between(pages, i, j);
    }
}

proof fn lemma_order_between(pages: Seq<PageFinalView>, i: int, j: int)
    requires
        forall|k: int| 1 <= k < pages.len() ==> (#[trigger] pages[k - 1]).page_idx
            < pages[k].page_idx,
        0 <= i < j < pages.len(),
    ensures
        pages[i].page_idx < pages[j].page_idx,
    decreases j - i,
{
    assert(pages[j - 1].page_idx < pages[j].page_idx);
    if i < j - 1 {
        lemma_order_between(pages, i, j - 1);
    }
}

/// A deep copy of a list of blocks.
pub fn copy_blocks(blocks: &[Block]) -> (r: Vec<Block>)
    ensures
        r.deep_view() == blocks.deep_view(),
{
    let mut out: Vec<Block> = Vec::new();
    let mut i: usize = 0;
    while i < blocks.len()
        invariant
            i <= blocks.len(),
            out.deep_view() == blocks.deep_view().take(i as int),
        decreases blocks.len() - i,
    {
        let ghost before = out.deep_view();
        out.push(blocks[i].duplicate());
        assert(out.deep_view() =~= before.push(blocks[i as int]@));
        assert(blocks.deep_view().take(i + 1) =~= before.push(blocks[i as int]@));
        i += 1;
    }
    assert(blocks.deep_view().take(blocks.len() as int) == blocks.deep_view());
    out
}

} // verus!
