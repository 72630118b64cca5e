use vstd::prelude::*;
use crate::text::lines::{
    lines_spec, parse_count, parse_count_spec, skip_chars, split_lines, starts_with_chars,
    starts_with_spec, trim_chars, trim_spec,
};
use crate::text::strings::chars_of;
use crate::text::words::texts_of;

verus! {

/// Why a report of the document's properties gave no page count.
#[derive(Debug, Clone, Copy, PartialEq, Eq, Structural)]
pub enum PageCountError {
    /// No line of the report begins with `Pages:`.
    MissingPagesLine,
    /// What follows `Pages:` is not a count.
    InvalidPageCount,
}

/// A PDF document, named by its path.
#[derive(Debug, Clone)]
pub struct PdfReader {
    path: String,
}

/// The page count that the first `Pages:` line among `lines` states.
pub open spec fn page_count_of_lines(lines: Seq<Seq<char>>) -> Result<usize, PageCountError>
    decreases lines.len(),
{
    if lines.len() == 0 {
        Err(PageCountError::MissingPagesLine)
    } else if starts_with_spec(lines[0], "Pages:"@) {
        match parse_count_spec(trim_spec(lines[0].skip("Pages:"@.len() as int))) {
            Some(n) => Ok(n),
            None => Err(PageCountError::InvalidPageCount),
        }
    } else {
        page_count_of_lines(lines.drop_first())
    }
}

/// The page count that a report of the document's properties states.
pub open spec fn page_count_spec(report: Seq<char>) -> Result<usize, PageCountError> {
    page_count_of_lines(lines_spec(report))
}

impl PdfReader {
    pub closed spec fn spec_path(&self) -> Seq<char> {
        self.path@
    }

    pub fn new(path: String) -> (r: Self)
        ensures
            r.spec_path() == path@,
    {
        PdfReader { path }
    }

    pub fn path(&self) -> (r: &str)
        ensures
            r@ == self.spec_path(),
    {
        self.path.as_str()
    }

    /// Reads the page count off the report that `pdfinfo` printed for the document.
    pub fn page_count(&self, report: &str) -> (r: Result<usize, PageCountError>)
        ensures
            r == page_count_spec(report@),
    {
        parse_page_count(report)
    }
}

/// Reads the page count off a report of the document's properties: the count
/// on the first line that begins with `Pages:`.
pub fn parse_page_count(report: &str) -> (r: Result<usize, PageCountError>)
    ensures
        r == page_count_spec(report@),
{
    let chars = chars_of(report);
    let lines = split_lines(chars.as_slice());
    let prefix = chars_of("Pages:");
    let ghost all = texts_of(lines@);
    let mut i: usize = 0;
    assert(all.skip(0) == all);
    while i < lines.len()
        invariant
            i <= lines.len(),
            all == texts_of(lines@),
            all == lines_spec(report@),
            prefix@ == "Pages:"@,
            page_count_of_lines(all) == page_count_of_lines(all.skip(i as int)),
        decreases lines.len() - i,
    {
        let line = lines[i].as_slice();
        proof {
            assert(all.skip(i as int)[0] == line@);
            assert(all.skip(i as int).drop_first() == all.skip(i + 1));
        }
        if starts_with_chars(line, prefix.as_slice()) {
            let rest = skip_chars(line, prefix.len());
            let trimmed = trim_chars(rest.as_slice());
            return match parse_count(trimmed.as_slice()) {
                Some(n) => Ok(n),
                None => Err(PageCountError::InvalidPageCount),
            };
        }
        i += 1;
    }
    Err(PageCountError::MissingPagesLine)
}

} // verus!
