use docstruct::pdfparser::{
    has_pdf_header, header_line, is_ascii_space, parse_obj_line, parse_u16, parse_u32,
    scan_objects, trim_ascii, PdfObject,
};

#[test]
fn ascii_whitespace() {
    for b in 0u8..=255 {
        assert_eq!(is_ascii_space(b), b.is_ascii_whitespace());
    }
    assert_eq!(trim_ascii(b"  1 0 obj \r\n"), b"1 0 obj");
    assert_eq!(trim_ascii(b""), b"");
    assert_eq!(trim_ascii(b" \t "), b"");
    assert_eq!(trim_ascii(b"x"), b"x");
    assert_eq!(trim_ascii(b"\x0Bx\x0B"), b"\x0Bx\x0B");
}

#[test]
fn numbers() {
    assert_eq!(parse_u32(b"0"), Some(0));
    assert_eq!(parse_u32(b"0042"), Some(42));
    assert_eq!(parse_u32(b"4294967295"), Some(u32::MAX));
    assert_eq!(parse_u32(b"4294967296"), None);
    assert_eq!(parse_u32(b"99999999999999999999"), None);
    assert_eq!(parse_u32(b""), None);
    assert_eq!(parse_u32(b"+1"), None);
    assert_eq!(parse_u32(b"1a"), None);
    assert_eq!(parse_u32(b"a"), None);
    assert_eq!(parse_u16(b"65535"), Some(u16::MAX));
    assert_eq!(parse_u16(b"65536"), None);
    assert_eq!(parse_u16(b"0"), Some(0));
    assert_eq!(parse_u16(b""), None);
}

#[test]
fn object_headers() {
    assert_eq!(parse_obj_line(b"1 0 obj"), Some((1, 0)));
    assert_eq!(parse_obj_line(b"12 65535 obj"), Some((12, 65535)));
    assert_eq!(parse_obj_line(b"12 0 << /Type /Catalog >> obj"), Some((12, 0)));
    assert_eq!(parse_obj_line(b"1\t0\tobj"), Some((1, 0)));
    assert_eq!(parse_obj_line(b"1 0 obj "), None);
    assert_eq!(parse_obj_line(b"1  0 obj"), None);
    assert_eq!(parse_obj_line(b"1 0 endobj"), None);
    assert_eq!(parse_obj_line(b"1 0"), None);
    assert_eq!(parse_obj_line(b"1 obj"), None);
    assert_eq!(parse_obj_line(b"obj"), None);
    assert_eq!(parse_obj_line(b""), None);
    assert_eq!(parse_obj_line(b"a 0 obj"), None);
    assert_eq!(parse_obj_line(b"1 65536 obj"), None);
    assert_eq!(parse_obj_line(b"4294967296 0 obj"), None);
    assert_eq!(parse_obj_line(b"1 0 obj obj"), Some((1, 0)));
}

#[test]
fn objects_are_found_line_by_line() {
    let data = b"%PDF-1.7\n1 0 obj\n<< >>\nendobj\n\n\n  2 0 obj  \r\n<< >>\rendobj\n3 1 obj";
    assert_eq!(
        scan_objects(data),
        vec![
            PdfObject { number: 1, generation: 0, line: 2 },
            PdfObject { number: 2, generation: 0, line: 5 },
            PdfObject { number: 3, generation: 1, line: 8 },
        ]
    );
    assert_eq!(scan_objects(b""), vec![]);
    assert_eq!(scan_objects(b"\n\n\n"), vec![]);
    assert_eq!(scan_objects(b"1 0 obj"), vec![PdfObject { number: 1, generation: 0, line: 1 }]);
    // the line breaks at the start end an empty first line
    assert_eq!(scan_objects(b"\n1 0 obj"), vec![PdfObject { number: 1, generation: 0, line: 2 }]);
    assert_eq!(scan_objects(b"\r\n\r\n1 0 obj\n"), vec![PdfObject { number: 1, generation: 0, line: 2 }]);
}

#[test]
fn header() {
    assert!(has_pdf_header(b"%PDF-1.4\n"));
    assert!(has_pdf_header(b"%PDF-"));
    assert!(!has_pdf_header(b"%PDF"));
    assert!(!has_pdf_header(b" %PDF-1.4"));
    assert!(!has_pdf_header(b"%pdf-1.4"));
    assert!(!has_pdf_header(b""));
    assert_eq!(header_line(b"%PDF-1.4\n1 0 obj"), b"%PDF-1.4");
    assert_eq!(header_line(b"%PDF-1.4\r\n"), b"%PDF-1.4");
    assert_eq!(header_line(b"%PDF-1.4"), b"%PDF-1.4");
    assert_eq!(header_line(b"\nrest"), b"");
    assert_eq!(header_line(b""), b"");
}
