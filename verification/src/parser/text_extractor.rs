use vstd::prelude::*;
use vstd::string::StringExecFns;
use crate::base::geometry::BBox;
use crate::fusion::quality::{has_korean_spec, jamo_count, syllable_count};
use crate::parser::hangul::{combine_hangul, combine_hangul_spec};
use crate::text::chars::CharClass;
use crate::text::decimal::{decimal, decimal_spec};
use crate::text::lines::{lines_spec, split_lines, trim_chars, trim_spec};
use crate::text::strings::{any_class, chars_of, count_class, keep_chars, string_of};
use crate::text::words::{append_chars, texts_of};

verus! {

/// A run of text that the parser read, with the box it is assigned to.
#[derive(Debug, Clone)]
pub struct GlyphRun {
    pub text: String,
    pub bbox: BBox,
}

/// The value of a [`GlyphRun`].
pub struct GlyphRunView {
    pub text: Seq<char>,
    pub bbox: BBox,
}

impl DeepView for GlyphRun {
    type V = GlyphRunView;

    open spec fn deep_view(&self) -> GlyphRunView {
        GlyphRunView { text: self.text@, bbox: self.bbox }
    }
}

impl View for GlyphRun {
    type V = GlyphRunView;

    open spec fn view(&self) -> GlyphRunView {
        self.deep_view()
    }
}

/// How the extraction tool lays the text of a page out.
#[derive(Debug, Clone, Copy, PartialEq, Eq, Structural)]
pub enum PdfToTextMode {
    Default,
    Raw,
    Layout,
}

/// What became of the text that the extraction tool printed for a page.
#[derive(Debug, Clone)]
pub enum GlyphOutcome {
    /// The tool printed nothing in any mode.
    Unreadable,
    /// Nothing is left of the text once it is cleaned.
    Empty,
    /// The Korean of the text is decomposed beyond use.
    Degraded,
    /// The text of the page.
    Text(GlyphRun),
}

/// The value of a [`GlyphOutcome`].
pub enum GlyphOutcomeView {
    Unreadable,
    Empty,
    Degraded,
    Text(GlyphRunView),
}

impl DeepView for GlyphOutcome {
    type V = GlyphOutcomeView;

    open spec fn deep_view(&self) -> GlyphOutcomeView {
        match *self {
            GlyphOutcome::Unreadable => GlyphOutcomeView::Unreadable,
            GlyphOutcome::Empty => GlyphOutcomeView::Empty,
            GlyphOutcome::Degraded => GlyphOutcomeView::Degraded,
            GlyphOutcome::Text(run) => GlyphOutcomeView::Text(run@),
        }
    }
}

impl View for GlyphOutcome {
    type V = GlyphOutcomeView;

    open spec fn view(&self) -> GlyphOutcomeView {
        self.deep_view()
    }
}

/// Three points for each composed syllable, two points off for each loose jamo.
pub open spec fn hangul_quality_score_spec(s: Seq<char>) -> int {
    3 * syllable_count(s) - 2 * jamo_count(s)
}

/// Korean text of eight characters or more with over twice as many jamo as syllables.
pub open spec fn is_degraded_korean_spec(s: Seq<char>) -> bool {
    syllable_count(s) + jamo_count(s) >= 8 && jamo_count(s) > 2 * syllable_count(s)
}

/// A trimmed line that holds loose jamo and little else.
pub open spec fn is_jamo_noise(line: Seq<char>) -> bool {
    let syllables = syllable_count(line);
    let jamos = jamo_count(line);
    (jamos >= 2 && syllables == 0) || (syllables + jamos > 0 && jamos >= 3 * syllables && jamos
        >= 4)
}

/// The lines that cleaning keeps: each line trimmed, without the lines of jamo noise.
pub open spec fn kept_lines(lines: Seq<Seq<char>>) -> Seq<Seq<char>>
    decreases lines.len(),
{
    if lines.len() == 0 {
        Seq::empty()
    } else {
        let line = trim_spec(lines.last());
        if line.len() > 0 && is_jamo_noise(line) {
            kept_lines(lines.drop_last())
        } else {
            kept_lines(lines.drop_last()).push(line)
        }
    }
}

/// The state of joining lines: the text so far, and whether the line before was empty.
pub open spec fn join_collapsing(lines: Seq<Seq<char>>) -> (Seq<char>, bool)
    decreases lines.len(),
{
    if lines.len() == 0 {
        (Seq::empty(), false)
    } else {
        let (text, after_blank) = join_collapsing(lines.drop_last());
        let line = lines.last();
        if line.len() == 0 && after_blank {
            (text, after_blank)
        } else if text.len() > 0 {
            (text + seq!['\n'] + line, line.len() == 0)
        } else {
            (line, line.len() == 0)
        }
    }
}

/// A text without its lines of jamo noise: the lines are trimmed, the noisy
/// ones dropped, and the rest joined by line feeds, where a run of empty
/// lines counts as one and empty lines at the start count as none.
pub open spec fn clean_decomposed_korean_lines_spec(s: Seq<char>) -> Seq<char> {
    join_collapsing(kept_lines(lines_spec(s))).0
}

/// What the tool printed, without form feeds and trimmed; nothing if that is empty.
pub open spec fn clean_tool_output_spec(s: Seq<char>) -> Option<Seq<char>> {
    let text = trim_spec(keep_chars(s, |c: char| c != '\u{000C}'));
    if text.len() == 0 {
        None
    } else {
        Some(text)
    }
}

/// The composed text with the highest score among the first `n` raw texts;
/// of several with the highest score the last one. Nothing when `n` is zero.
pub open spec fn best_combined(raws: Seq<Seq<char>>, n: int) -> Option<Seq<char>>
    decreases n,
{
    if n <= 0 || n > raws.len() {
        None
    } else {
        let candidate = combine_hangul_spec(raws[n - 1]);
        match best_combined(raws, n - 1) {
            Some(best) => if hangul_quality_score_spec(candidate) >= hangul_quality_score_spec(
                best,
            ) {
                Some(candidate)
            } else {
                Some(best)
            },
            None => Some(candidate),
        }
    }
}

/// The box that the text of a whole page is assigned to.
pub open spec fn page_box() -> BBox {
    BBox { x0: 0, y0: 0, x1: 1000, y1: 1400 }
}

/// What becomes of a composed text: it is cleaned; Korean text that stays
/// decomposed is given up.
pub open spec fn judge_text_spec(text: Seq<char>) -> GlyphOutcomeView {
    let cleaned = clean_decomposed_korean_lines_spec(text);
    if text.len() == 0 || cleaned.len() == 0 {
        GlyphOutcomeView::Empty
    } else if has_korean_spec(cleaned) && (hangul_quality_score_spec(cleaned) < -10
        || is_degraded_korean_spec(cleaned)) {
        GlyphOutcomeView::Degraded
    } else {
        GlyphOutcomeView::Text(GlyphRunView { text: cleaned, bbox: page_box() })
    }
}

/// What becomes of the texts that the tool printed in its modes.
pub open spec fn select_glyph_text_spec(raws: Seq<Seq<char>>) -> GlyphOutcomeView {
    match best_combined(raws, raws.len() as int) {
        None => GlyphOutcomeView::Unreadable,
        Some(text) => judge_text_spec(text),
    }
}

/// The arguments of the extraction tool for one page in one mode.
pub open spec fn tool_arguments_spec(pdf_path: Seq<char>, page_idx: usize, mode: PdfToTextMode) -> Seq<
    Seq<char>,
> {
    let number = decimal_spec((page_idx + 1) as nat);
    let head = seq!["-f"@, number, "-l"@, number, "-nopgbrk"@];
    let tail = seq![pdf_path, "-"@];
    match mode {
        PdfToTextMode::Default => head + tail,
        PdfToTextMode::Raw => head + seq!["-raw"@] + tail,
        PdfToTextMode::Layout => head + seq!["-layout"@] + tail,
    }
}

/// The modes in which the tool is tried, in their order.
pub fn extraction_modes() -> (modes: Vec<PdfToTextMode>)
    ensures
        modes@ == seq![PdfToTextMode::Raw, PdfToTextMode::Default, PdfToTextMode::Layout],
{
    let mut modes: Vec<PdfToTextMode> = Vec::new();
    modes.push(PdfToTextMode::Raw);
    modes.push(PdfToTextMode::Default);
    modes.push(PdfToTextMode::Layout);
    assert(modes@ =~= seq![PdfToTextMode::Raw, PdfToTextMode::Default, PdfToTextMode::Layout]);
    modes
}

/// The arguments that the extraction tool is started with to print the text
/// of one page to its standard output.
pub fn tool_arguments(pdf_path: &str, page_idx: usize, mode: PdfToTextMode) -> (args: Vec<String>)
    ensures
        args.deep_view() == tool_arguments_spec(pdf_path@, page_idx, mode),
{
    let number = string_of(decimal(page_idx as u128 + 1).as_slice());
    let mut args: Vec<String> = Vec::new();
    args.push(String::from_str("-f"));
    args.push(number.clone());
    args.push(String::from_str("-l"));
    args.push(number);
    args.push(String::from_str("-nopgbrk"));
    match mode {
        PdfToTextMode::Default => {},
        PdfToTextMode::Raw => {
            args.push(String::from_str("-raw"));
        },
        PdfToTextMode::Layout => {
            args.push(String::from_str("-layout"));
        },
    }
    args.push(String::from_str(pdf_path));
    args.push(String::from_str("-"));
    assert(args.deep_view() =~= tool_arguments_spec(pdf_path@, page_idx, mode));
    args
}

/// The number of syllables and the number of jamo of a text.
pub fn korean_counts(text: &str) -> (counts: (usize, usize))
    ensures
        counts.0 == syllable_count(text@),
        counts.1 == jamo_count(text@),
{
    let chars = chars_of(text);
    (
        count_class(chars.as_slice(), CharClass::HangulSyllable),
        count_class(chars.as_slice(), CharClass::HangulJamo),
    )
}

/// Scores how well the Korean of a text is composed.
pub fn hangul_quality_score(text: &str) -> (score: i128)
    ensures
        score == hangul_quality_score_spec(text@),
{
    let (syllables, jamos) = korean_counts(text);
    (syllables as i128) * 3 - (jamos as i128) * 2
}

/// Whether a text holds a Korean character.
pub fn has_korean_chars(text: &str) -> (r: bool)
    ensures
        r == has_korean_spec(text@),
{
    let chars = chars_of(text);
    any_class(chars.as_slice(), CharClass::Korean)
}

/// Whether the Korean of a text is decomposed beyond use.
pub fn is_degraded_korean_text(text: &str) -> (r: bool)
    ensures
        r == is_degraded_korean_spec(text@),
{
    let (syllables, jamos) = korean_counts(text);
    (syllables as u128) + (jamos as u128) >= 8 && (jamos as u128) > (syllables as u128) * 2
}

/// Whether a trimmed line is jamo noise.
fn is_jamo_noise_line(line: &[char]) -> (r: bool)
    ensures
        r == is_jamo_noise(line@),
{
    let syllables: u128 = count_class(line, CharClass::HangulSyllable) as u128;
    let jamos: u128 = count_class(line, CharClass::HangulJamo) as u128;
    (jamos >= 2 && syllables == 0) || (syllables + jamos > 0 && jamos >= syllables * 3 && jamos
        >= 4)
}

/// Drops the lines of jamo noise from a text.
pub fn clean_decomposed_korean_lines(text: &str) -> (out: String)
    ensures
        out@ == clean_decomposed_korean_lines_spec(text@),
{
    let chars = chars_of(text);
    let lines = split_lines(chars.as_slice());
    let ghost all = texts_of(lines@);
    let mut kept: Vec<Vec<char>> = Vec::new();
    let mut i: usize = 0;
    assert(texts_of(kept@) =~= kept_lines(all.take(0)));
    while i < lines.len()
        invariant
            i <= lines.len(),
            all == texts_of(lines@),
            texts_of(kept@) == kept_lines(all.take(i as int)),
        decreases lines.len() - i,
    {
        proof {
            assert(all.take(i + 1).drop_last() == all.take(i as int));
            assert(all.take(i + 1).last() == lines@[i as int]@);
        }
        let trimmed = trim_chars(lines[i].as_slice());
        if !(trimmed.len() > 0 && is_jamo_noise_line(trimmed.as_slice())) {
            let ghost before = texts_of(kept@);
            let ghost line = trimmed@;
            kept.push(trimmed);
            assert(texts_of(kept@) =~= before.push(line));
        }
        i += 1;
    }
    assert(all.take(lines@.len() as int) == all);
    let ghost kept_all = texts_of(kept@);
    let mut out: Vec<char> = Vec::new();
    let mut after_blank: bool = false;
    let mut k: usize = 0;
    assert(kept_all.take(0) =~= Seq::<Seq<char>>::empty());
    while k < kept.len()
        invariant
            k <= kept.len(),
            kept_all == texts_of(kept@),
            (out@, after_blank) == join_collapsing(kept_all.take(k as int)),
        decreases kept.len() - k,
    {
        proof {
            assert(kept_all.take(k + 1).drop_last() == kept_all.take(k as int));
            assert(kept_all.take(k + 1).last() == kept@[k as int]@);
        }
        let line = kept[k].as_slice();
        let blank: bool = line.len() == 0;
        if !(blank && after_blank) {
            if out.len() > 0 {
                let ghost before = out@;
                out.push('\n');
                assert(out@ =~= before + seq!['\n']);
                append_chars(&mut out, line);
            } else {
                append_chars(&mut out, line);
                assert(out@ =~= line@);
            }
            after_blank = blank;
        }
        k += 1;
    }
    assert(kept_all.take(kept@.len() as int) == kept_all);
    string_of(out.as_slice())
}

/// Cleans what the extraction tool printed: removes the form feeds and trims.
pub fn clean_tool_output(raw: &str) -> (r: Option<String>)
    ensures
        r.deep_view() == clean_tool_output_spec(raw@),
{
    let chars = chars_of(raw);
    let ghost keep = |c: char| c != '\u{000C}';
    let mut kept: Vec<char> = Vec::new();
    let mut i: usize = 0;
    while i < chars.len()
        invariant
            i <= chars.len(),
            keep == (|c: char| c != '\u{000C}'),
            kept@ == keep_chars(chars@.take(i as int), keep),
        decreases chars.len() - i,
    {
        proof {
            assert(chars@.take(i + 1).drop_last() == chars@.take(i as int));
        }
        if chars[i] != '\u{000C}' {
            kept.push(chars[i]);
        }
        i += 1;
    }
    assert(chars@.take(chars@.len() as int) == chars@);
    let trimmed = trim_chars(kept.as_slice());
    if trimmed.len() == 0 {
        None
    } else {
        Some(string_of(trimmed.as_slice()))
    }
}

/// Judges a composed text.
pub fn judge_text(text: &str) -> (outcome: GlyphOutcome)
    ensures
        outcome@ == judge_text_spec(text@),
{
    if text.is_empty() {
        return GlyphOutcome::Empty;
    }
    let cleaned = clean_decomposed_korean_lines(text);
    if cleaned.as_str().is_empty() {
        return GlyphOutcome::Empty;
    }
    if has_korean_chars(cleaned.as_str()) && (hangul_quality_score(cleaned.as_str()) < -10
        || is_degraded_korean_text(cleaned.as_str())) {
        return GlyphOutcome::Degraded;
    }
    GlyphOutcome::Text(GlyphRun { text: cleaned, bbox: BBox::new(0, 0, 1000, 1400) })
}

/// Chooses among the texts that the tool printed in its modes, composes the
/// Hangul of each, keeps the one that scores best, and judges it.
pub fn select_glyph_text(raws: &Vec<String>) -> (outcome: GlyphOutcome)
    ensures
        outcome@ == select_glyph_text_spec(raws.deep_view()),
{
    let ghost views = raws.deep_view();
    let mut best: Option<String> = None;
    let mut best_score: i128 = 0;
    let mut i: usize = 0;
    while i < raws.len()
        invariant
            i <= raws.len(),
            views == raws.deep_view(),
            best.deep_view() == best_combined(views, i as int),
            best matches Some(b) ==> best_score == hangul_quality_score_spec(b@),
        decreases raws.len() - i,
    {
        assert(views[i as int] == raws@[i as int]@);
        let combined = combine_hangul(raws[i].as_str());
        let score: i128 = hangul_quality_score(combined.as_str());
        let better: bool = match &best {
            Some(_) => score >= best_score,
            None => true,
        };
        if better {
            best = Some(combined);
            best_score = score;
        }
        i += 1;
    }
    match best {
        None => GlyphOutcome::Unreadable,
        Some(text) => judge_text(text.as_str()),
    }
}

impl GlyphOutcome {
    /// The glyph runs of the page: the text if there is one.
    pub fn into_runs(self) -> (runs: Vec<GlyphRun>)
        ensures
            runs.deep_view() == match self@ {
                GlyphOutcomeView::Text(run) => seq![run],
                _ => Seq::<GlyphRunView>::empty(),
            },
    {
        let mut runs: Vec<GlyphRun> = Vec::new();
        match self {
            GlyphOutcome::Text(run) => {
                let ghost v = run@;
                runs.push(run);
                assert(runs.deep_view() =~= seq![v]);
            },
            _ => {
                assert(runs.deep_view() =~= Seq::<GlyphRunView>::empty());
            },
        }
        runs
    }
}

} // verus!
