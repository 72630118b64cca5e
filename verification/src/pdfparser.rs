use vstd::prelude::*;
use vstd::slice::slice_subrange;

verus! {

/// An object header found in a PDF file: the object number, the generation
/// number, and the number of the line it stands on, counted from one.
#[derive(Debug, Clone, Copy, PartialEq, Eq, Structural)]
pub struct PdfObject {
    pub number: u32,
    pub generation: u16,
    pub line: usize,
}

/// The ASCII whitespace bytes: space, tab, line feed, form feed, carriage return.
pub open spec fn is_space(b: u8) -> bool {
    b == 0x20 || b == 0x09 || b == 0x0A || b == 0x0C || b == 0x0D
}

/// The bytes that end a line.
pub open spec fn is_break(b: u8) -> bool {
    b == 0x0A || b == 0x0D
}

/// The bytes `obj`.
pub open spec fn obj_keyword() -> Seq<u8> {
    seq![0x6Fu8, 0x62u8, 0x6Au8]
}

/// The bytes `%PDF-`.
pub open spec fn pdf_magic() -> Seq<u8> {
    seq![0x25u8, 0x50u8, 0x44u8, 0x46u8, 0x2Du8]
}

/// `s` without its leading ASCII whitespace.
pub open spec fn skip_leading_space(s: Seq<u8>) -> Seq<u8>
    decreases s.len(),
{
    if s.len() > 0 && is_space(s[0]) {
        skip_leading_space(s.drop_first())
    } else {
        s
    }
}

/// `s` without its trailing ASCII whitespace.
pub open spec fn skip_trailing_space(s: Seq<u8>) -> Seq<u8>
    decreases s.len(),
{
    if s.len() > 0 && is_space(s.last()) {
        skip_trailing_space(s.drop_last())
    } else {
        s
    }
}

/// `s` without ASCII whitespace at either end.
pub open spec fn trim_ascii_spec(s: Seq<u8>) -> Seq<u8> {
    skip_trailing_space(skip_leading_space(s))
}

/// The number that a run of ASCII digits denotes.
pub open spec fn digits_number(s: Seq<u8>) -> nat
    decreases s.len(),
{
    if s.len() == 0 {
        0
    } else {
        digits_number(s.drop_last()) * 10 + (s.last() - 0x30) as nat
    }
}

/// Every byte is an ASCII digit.
pub open spec fn all_digit_bytes(s: Seq<u8>) -> bool {
    forall|i: int| 0 <= i < s.len() ==> 0x30 <= #[trigger] s[i] <= 0x39
}

/// The number that one or more ASCII digits denote, if it fits 32 bits.
pub open spec fn parse_u32_spec(s: Seq<u8>) -> Option<u32> {
    if s.len() == 0 || !all_digit_bytes(s) || digits_number(s) > u32::MAX {
        None
    } else {
        Some(digits_number(s) as u32)
    }
}

/// The number that one or more ASCII digits denote, if it fits 16 bits.
pub open spec fn parse_u16_spec(s: Seq<u8>) -> Option<u16> {
    match parse_u32_spec(s) {
        Some(v) => if v <= u16::MAX {
            Some(v as u16)
        } else {
            None
        },
        None => None,
    }
}

/// The state of a scan for fields: the fields closed by a whitespace byte, and the bytes read since.
pub open spec fn scan_fields(s: Seq<u8>) -> (Seq<Seq<u8>>, Seq<u8>)
    decreases s.len(),
{
    if s.len() == 0 {
        (Seq::empty(), Seq::empty())
    } else {
        let (done, open) = scan_fields(s.drop_last());
        if is_space(s.last()) {
            (done.push(open), Seq::empty())
        } else {
            (done, open.push(s.last()))
        }
    }
}

/// The fields of a line: what stands between its whitespace bytes. Two
/// whitespace bytes in a row enclose an empty field.
pub open spec fn split_fields(s: Seq<u8>) -> Seq<Seq<u8>> {
    scan_fields(s).0.push(scan_fields(s).1)
}

/// The object header on a line: an object number, a generation number, and
/// `obj` as the last of three or more fields.
pub open spec fn parse_obj_line_spec(line: Seq<u8>) -> Option<(u32, u16)> {
    let fields = split_fields(line);
    if fields.len() >= 3 && parse_u32_spec(fields[0]) is Some && parse_u16_spec(fields[1]) is Some
        && fields.last() == obj_keyword() {
        Some((parse_u32_spec(fields[0])->0, parse_u16_spec(fields[1])->0))
    } else {
        None
    }
}

/// The end of the line that begins at `from`: the position of the next line break, or the end of the data.
pub open spec fn line_end(data: Seq<u8>, from: int) -> int
    decreases data.len() - from,
{
    if from < 0 || from >= data.len() {
        data.len() as int
    } else if is_break(data[from]) {
        from
    } else {
        line_end(data, from + 1)
    }
}

/// The position of the first byte at or after `from` that is no line break.
pub open spec fn skip_breaks(data: Seq<u8>, from: int) -> int
    decreases data.len() - from,
{
    if 0 <= from < data.len() && is_break(data[from]) {
        skip_breaks(data, from + 1)
    } else {
        from
    }
}

/// The number of the next line; line numbers stop at the largest machine count.
pub open spec fn next_line(line: usize) -> usize {
    if line < usize::MAX {
        (line + 1) as usize
    } else {
        line
    }
}

/// The object headers from position `start` on, where line `line` begins. A
/// run of line breaks ends one line.
pub open spec fn scan_from(data: Seq<u8>, start: int, line: usize) -> Seq<PdfObject>
    decreases data.len() - start,
{
    if start < 0 || start >= data.len() {
        Seq::empty()
    } else {
        let end = line_end(data, start);
        let next = skip_breaks(data, end);
        let head = match parse_obj_line_spec(trim_ascii_spec(data.subrange(start, end))) {
            Some((number, generation)) => seq![PdfObject { number, generation, line }],
            None => Seq::empty(),
        };
        if next <= start || next > data.len() {
            head
        } else {
            head + scan_from(data, next, next_line(line))
        }
    }
}

/// The object headers of a PDF file, in the order of their lines.
pub open spec fn scan_objects_spec(data: Seq<u8>) -> Seq<PdfObject> {
    scan_from(data, 0, 1)
}

/// A line ends at or after its start, within the data.
pub proof fn lemma_line_end_bounds(data: Seq<u8>, from: int)
    requires
        0 <= from <= data.len(),
    ensures
        from <= line_end(data, from) <= data.len(),
        forall|k: int| from <= k < line_end(data, from) ==> !is_break(#[trigger] data[k]),
        line_end(data, from) < data.len() ==> is_break(data[line_end(data, from)]),
    decreases data.len() - from,
{
    if from < data.len() && !is_break(data[from]) {
        lemma_line_end_bounds(data, from + 1);
    }
}

/// Skipping line breaks moves forward, within the data.
pub proof fn lemma_skip_breaks_bounds(data: Seq<u8>, from: int)
    requires
        0 <= from <= data.len(),
    ensures
        from <= skip_breaks(data, from) <= data.len(),
        from < data.len() && is_break(data[from]) ==> skip_breaks(data, from) > from,
    decreases data.len() - from,
{
    if from < data.len() && is_break(data[from]) {
        lemma_skip_breaks_bounds(data, from + 1);
    }
}

/// Whether a byte is ASCII whitespace.
pub fn is_ascii_space(b: u8) -> (r: bool)
    ensures
        r == is_space(b),
{
    b == 0x20 || b == 0x09 || b == 0x0A || b == 0x0C || b == 0x0D
}

/// Removes ASCII whitespace at both ends.
pub fn trim_ascii(input: &[u8]) -> (out: &[u8])
    ensures
        out@ == trim_ascii_spec(input@),
{
    let n: usize = input.len();
    let mut start: usize = 0;
    assert(input@.skip(0) == input@);
    while start < n && is_ascii_space(input[start])
        invariant
            start <= n,
            n == input.len(),
            skip_leading_space(input@) == skip_leading_space(input@.skip(start as int)),
        decreases n - start,
    {
        assert(input@.skip(start as int).drop_first() == input@.skip(start + 1));
        start += 1;
    }
    let ghost rest = input@.skip(start as int);
    assert(skip_leading_space(input@) == rest);
    let mut end: usize = n;
    assert(rest.take(rest.len() as int) == rest);
    while end > start && is_ascii_space(input[end - 1])
        invariant
            start <= end <= n,
            n == input.len(),
            rest == input@.skip(start as int),
            skip_trailing_space(rest) == skip_trailing_space(rest.take(end - start)),
        decreases end,
    {
        assert(rest.take(end - start).last() == input@[end - 1]);
        assert(rest.take(end - start).drop_last() == rest.take(end - start - 1));
        end -= 1;
    }
    assert(skip_trailing_space(rest) == rest.take(end - start)) by {
        if end > start {
            assert(rest.take(end - start).last() == input@[end - 1]);
        }
    }
    assert(rest.take(end - start) =~= input@.subrange(start as int, end as int));
    slice_subrange(input, start, end)
}

/// The value of a run of digits grows with its length.
proof fn lemma_digits_number_prefix(s: Seq<u8>, k: int)
    requires
        0 <= k <= s.len(),
        all_digit_bytes(s),
    ensures
        digits_number(s.take(k)) <= digits_number(s),
    decreases s.len() - k,
{
    if k < s.len() {
        lemma_digits_number_prefix(s, k + 1);
        assert(s.take(k + 1).drop_last() == s.take(k));
        assert(s.take(k + 1).last() == s[k]);
    } else {
        assert(s.take(k) == s);
    }
}

/// Reads a number of one or more ASCII digits; a number beyond 32 bits is none.
pub fn parse_u32(bytes: &[u8]) -> (r: Option<u32>)
    ensures
        r == parse_u32_spec(bytes@),
{
    if bytes.len() == 0 {
        return None;
    }
    let mut all: bool = true;
    let mut k: usize = 0;
    while k < bytes.len()
        invariant
            k <= bytes.len(),
            forall|i: int| 0 <= i < k ==> 0x30 <= #[trigger] bytes@[i] <= 0x39,
        decreases bytes.len() - k,
    {
        if bytes[k] < 0x30 || bytes[k] > 0x39 {
            return None;
        }
        k += 1;
    }
    let mut value: u32 = 0;
    let mut i: usize = 0;
    assert(bytes@.take(0) =~= Seq::<u8>::empty());
    while i < bytes.len()
        invariant
            i <= bytes.len(),
            all_digit_bytes(bytes@),
            value == digits_number(bytes@.take(i as int)),
        decreases bytes.len() - i,
    {
        let d: u32 = (bytes[i] - 0x30) as u32;
        proof {
            assert(bytes@.take(i + 1).drop_last() == bytes@.take(i as int));
            assert(bytes@.take(i + 1).last() == bytes@[i as int]);
            lemma_digits_number_prefix(bytes@, i + 1);
        }
        if value > (u32::MAX - d) / 10 {
            assert(digits_number(bytes@.take(i + 1)) > u32::MAX) by (nonlinear_arith)
                requires
                    digits_number(bytes@.take(i + 1)) == value * 10 + d,
                    value > (u32::MAX - d) / 10,
                    d < 10,
            ;
            return None;
        }
        assert(value * 10 + d <= u32::MAX) by (nonlinear_arith)
            requires
                value <= (u32::MAX - d) / 10,
                d < 10,
        ;
        value = value * 10 + d;
        i += 1;
    }
    assert(bytes@.take(bytes@.len() as int) == bytes@);
    Some(value)
}

/// Reads a number of one or more ASCII digits; a number beyond 16 bits is none.
pub fn parse_u16(bytes: &[u8]) -> (r: Option<u16>)
    ensures
        r == parse_u16_spec(bytes@),
{
    match parse_u32(bytes) {
        Some(v) => if v <= 0xFFFF {
            Some(v as u16)
        } else {
            None
        },
        None => None,
    }
}

/// The fields of a line.
fn fields_of(line: &[u8]) -> (out: Vec<Vec<u8>>)
    ensures
        Seq::new(out@.len(), |i: int| out@[i]@) == split_fields(line@),
{
    let mut out: Vec<Vec<u8>> = Vec::new();
    let mut open: Vec<u8> = Vec::new();
    let mut i: usize = 0;
    while i < line.len()
        invariant
            i <= line.len(),
            Seq::new(out@.len(), |k: int| out@[k]@) == scan_fields(line@.take(i as int)).0,
            open@ == scan_fields(line@.take(i as int)).1,
        decreases line.len() - i,
    {
        proof {
            assert(line@.take(i + 1).drop_last() == line@.take(i as int));
        }
        if is_ascii_space(line[i]) {
            let ghost before = Seq::new(out@.len(), |k: int| out@[k]@);
            let ghost field = open@;
            out.push(open);
            open = Vec::new();
            assert(Seq::new(out@.len(), |k: int| out@[k]@) =~= before.push(field));
        } else {
            open.push(line[i]);
        }
        i += 1;
    }
    assert(line@.take(line@.len() as int) == line@);
    let ghost before = Seq::new(out@.len(), |k: int| out@[k]@);
    let ghost field = open@;
    out.push(open);
    assert(Seq::new(out@.len(), |k: int| out@[k]@) =~= before.push(field));
    out
}

/// Whether the bytes are `obj`.
fn is_obj_keyword(bytes: &[u8]) -> (r: bool)
    ensures
        r == (bytes@ == obj_keyword()),
{
    if bytes.len() == 3 && bytes[0] == 0x6F && bytes[1] == 0x62 && bytes[2] == 0x6A {
        assert(bytes@ =~= obj_keyword());
        true
    } else {
        assert(bytes@.len() == 3 ==> (bytes@[0] != obj_keyword()[0] || bytes@[1] != obj_keyword()[1]
            || bytes@[2] != obj_keyword()[2]));
        false
    }
}

/// Reads the object header on a line.
pub fn parse_obj_line(line: &[u8]) -> (r: Option<(u32, u16)>)
    ensures
        r == parse_obj_line_spec(line@),
{
    let fields = fields_of(line);
    let ghost views = Seq::new(fields@.len(), |i: int| fields@[i]@);
    if fields.len() < 3 {
        return None;
    }
    assert(views[0] == fields@[0]@);
    assert(views[1] == fields@[1]@);
    assert(views.last() == fields@[fields@.len() - 1]@);
    let number = parse_u32(fields[0].as_slice());
    let generation = parse_u16(fields[1].as_slice());
    let last = fields[fields.len() - 1].as_slice();
    match (number, generation) {
        (Some(n), Some(g)) => if is_obj_keyword(last) {
            Some((n, g))
        } else {
            None
        },
        _ => None,
    }
}

/// Whether the data begins like a PDF file.
pub fn has_pdf_header(data: &[u8]) -> (r: bool)
    ensures
        r == (data@.len() >= 5 && data@.take(5) == pdf_magic()),
{
    if data.len() >= 5 && data[0] == 0x25 && data[1] == 0x50 && data[2] == 0x44 && data[3] == 0x46
        && data[4] == 0x2D {
        assert(data@.take(5) =~= pdf_magic());
        true
    } else {
        assert(data@.len() >= 5 ==> (data@.take(5)[0] != pdf_magic()[0] || data@.take(5)[1]
            != pdf_magic()[1] || data@.take(5)[2] != pdf_magic()[2] || data@.take(5)[3]
            != pdf_magic()[3] || data@.take(5)[4] != pdf_magic()[4]));
        false
    }
}

/// The first line of the data, without its line break.
pub fn header_line(data: &[u8]) -> (line: &[u8])
    ensures
        line@ == data@.subrange(0, line_end(data@, 0)),
{
    let mut end: usize = 0;
    while end < data.len() && data[end] != 0x0A && data[end] != 0x0D
        invariant
            end <= data.len(),
            line_end(data@, 0) == line_end(data@, end as int),
        decreases data.len() - end,
    {
        end += 1;
    }
    slice_subrange(data, 0, end)
}

/// Finds the object headers of a PDF file.
pub fn scan_objects(data: &[u8]) -> (objects: Vec<PdfObject>)
    ensures
        objects@ == scan_objects_spec(data@),
{
    let mut objects: Vec<PdfObject> = Vec::new();
    let mut line_num: usize = 1;
    let mut start: usize = 0;
    assert(objects@ + scan_from(data@, 0, 1) =~= scan_objects_spec(data@));
    while start < data.len()
        invariant
            start <= data.len(),
            objects@ + scan_from(data@, start as int, line_num) == scan_objects_spec(data@),
        decreases data.len() - start,
    {
        let ghost before = objects@;
        let mut end: usize = start;
        while end < data.len() && data[end] != 0x0A && data[end] != 0x0D
            invariant
                start <= end <= data.len(),
                line_end(data@, start as int) == line_end(data@, end as int),
            decreases data.len() - end,
        {
            end += 1;
        }
        assert(end == line_end(data@, start as int));
        let line = trim_ascii(slice_subrange(data, start, end));
        if let Some((number, generation)) = parse_obj_line(line) {
            objects.push(PdfObject { number, generation, line: line_num });
        }
        let ghost line_stop = end;
        while end < data.len() && (data[end] == 0x0A || data[end] == 0x0D)
            invariant
                line_stop <= end <= data.len(),
                skip_breaks(data@, line_stop as int) == skip_breaks(data@, end as int),
            decreases data.len() - end,
        {
            end += 1;
        }
        proof {
            assert(end == skip_breaks(data@, line_stop as int));
            lemma_line_end_bounds(data@, start as int);
            lemma_skip_breaks_bounds(data@, line_stop as int);
            assert(end > start);
            let head: Seq<PdfObject> = match parse_obj_line_spec(
                trim_ascii_spec(data@.subrange(start as int, line_stop as int)),
            ) {
                Some((number, generation)) => seq![PdfObject { number, generation, line: line_num }],
                None => Seq::empty(),
            };
            assert(objects@ =~= before + head);
            assert(before + (head + scan_from(data@, end as int, next_line(line_num))) =~= (before
                + head) + scan_from(data@, end as int, next_line(line_num)));
        }
        if line_num < usize::MAX {
            line_num += 1;
        }
        start = end;
    }
    assert(objects@ + Seq::<PdfObject>::empty() =~= objects@);
    objects
}

} // verus!
