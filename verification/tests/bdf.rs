use rom_gen::bdf::{parse, BdfError, Font, Glyph, Lines, SizePart};
use std::collections::HashMap;

const FONT: &str = "STARTFONT 2.1
FONT -misc-test
SIZE 20 96 96
FONTBOUNDINGBOX 10 4 0 -4
STARTPROPERTIES 3
FONT_ASCENT 16
CHARS
ENDPROPERTIES
CHARS 2
STARTCHAR U+0041
ENCODING 65
SWIDTH 500 0
BBX 10 3 0 -4
BITMAP
FFC0
0040
8000
ENDCHAR

STARTCHAR U+00e9
ENCODING 233
BBX 4 2 0 0
BITMAP
A
5
ENDCHAR
ENDFONT
";

fn with(from: &str, to: &str) -> String {
    assert!(FONT.contains(from));
    FONT.replacen(from, to, 1)
}

fn error_of(text: &str) -> BdfError {
    match parse(text) {
        Ok(_) => panic!("accepted"),
        Err(e) => e,
    }
}

fn small_font() -> Font {
    Font {
        width: 4,
        height: 3,
        glyphs: HashMap::new(),
        blank: Glyph { width: 4, height: 3, rows: vec![0, 0, 0] },
    }
}

#[test]
fn parse_reads_sizes_and_glyphs() {
    let font = parse(FONT).unwrap();
    assert_eq!((font.width, font.height), (10, 4));
    assert_eq!(font.glyphs.len(), 2);
    let a = font.glyph(0x41).unwrap();
    assert_eq!((a.width, a.height), (10, 3));
    assert_eq!(a.rows, vec![0x3ff, 0x001, 0x200]);
    let e = font.glyph(0xe9).unwrap();
    assert_eq!((e.width, e.height), (4, 2));
    assert_eq!(e.rows, vec![0xa, 0x5]);
    assert!(font.glyph(0x42).is_none());
    assert_eq!((font.blank.width, font.blank.height), (10, 4));
    assert_eq!(font.blank.rows, vec![0, 0, 0, 0]);
}

#[test]
fn font_parse_is_parse() {
    let font = Font::parse(FONT).unwrap();
    assert_eq!(font.glyph_or_blank(0x41).rows, vec![0x3ff, 0x001, 0x200]);
    assert_eq!(Font::parse("").err(), Some(BdfError::UnexpectedEof));
}

#[test]
fn parse_accepts_carriage_returns_and_ignores_what_follows_endfont() {
    let text = format!("{}garbage\n", FONT.replace('\n', "\r\n"));
    let font = parse(&text).unwrap();
    assert_eq!(font.glyphs.len(), 2);
    assert_eq!(font.glyph(0x41).unwrap().rows, vec![0x3ff, 0x001, 0x200]);
}

#[test]
fn parse_font_without_characters() {
    let font = parse("STARTFONT 2.1\nFONTBOUNDINGBOX 8 0\nCHARS 0\nENDFONT").unwrap();
    assert_eq!((font.width, font.height), (8, 0));
    assert_eq!(font.glyphs.len(), 0);
    assert_eq!(font.blank.rows, Vec::<usize>::new());
}

#[test]
fn parse_later_size_and_later_glyph_win() {
    let text = with("CHARS 2\n", "FONTBOUNDINGBOX +6 2\nCHARS 2\n");
    let font = parse(&text).unwrap();
    assert_eq!((font.width, font.height), (6, 2));
    assert_eq!(font.blank.rows, vec![0, 0]);
    let text = with("STARTCHAR U+00e9", "STARTCHAR U+41");
    let font = parse(&text).unwrap();
    assert_eq!(font.glyphs.len(), 1);
    assert_eq!(font.glyph(0x41).unwrap().rows, vec![0xa, 0x5]);
    let text = with("BBX 4 2 0 0\n", "BBX 9 9\nBBX 4 2 0 0\n");
    assert_eq!(parse(&text).unwrap().glyph(0xe9).unwrap().rows, vec![0xa, 0x5]);
}

#[test]
fn parse_row_as_wide_as_the_character_is_kept() {
    let text = with("BBX 10 3 0 -4", "BBX 16 3 0 -4");
    assert_eq!(parse(&text).unwrap().glyph(0x41).unwrap().rows, vec![0xffc0, 0x0040, 0x8000]);
    let text = with("BBX 10 3 0 -4", "BBX 0 3 0 -4");
    assert_eq!(parse(&text).unwrap().glyph(0x41).unwrap().rows, vec![0, 0, 0]);
}

#[test]
fn parse_row_counts_four_bits_for_a_sign() {
    let text = with("A\n5\nENDCHAR", "A\n+5\nENDCHAR");
    assert_eq!(parse(&text).unwrap().glyph(0xe9).unwrap().rows, vec![0xa, 0x0]);
    let text = with("A\n5\nENDCHAR", "A\n+50\nENDCHAR");
    assert_eq!(parse(&text).unwrap().glyph(0xe9).unwrap().rows, vec![0xa, 0x0]);
    let text = with("A\n5\nENDCHAR", "A\n+F00\nENDCHAR");
    assert_eq!(parse(&text).unwrap().glyph(0xe9).unwrap().rows, vec![0xa, 0x0]);
    let text = with("A\n5\nENDCHAR", "A\n5C\nENDCHAR");
    assert_eq!(parse(&text).unwrap().glyph(0xe9).unwrap().rows, vec![0xa, 0x5]);
}

#[test]
fn parse_row_of_full_width_with_no_bit_kept() {
    let digits = "F".repeat(usize::BITS as usize / 4);
    let text = with("BBX 4 2 0 0\nBITMAP\nA\n5\n", &format!("BBX 0 1\nBITMAP\n{}\n", digits));
    assert_eq!(parse(&text).unwrap().glyph(0xe9).unwrap().rows, vec![0]);
    let text = with("BBX 4 2 0 0\nBITMAP\nA\n5\n", &format!("BBX 1 1\nBITMAP\n{}\n", digits));
    assert_eq!(parse(&text).unwrap().glyph(0xe9).unwrap().rows, vec![1]);
}

#[test]
fn unexpected_eof() {
    assert_eq!(error_of(""), BdfError::UnexpectedEof);
    assert_eq!(error_of("STARTFONT 2.1"), BdfError::UnexpectedEof);
    assert_eq!(error_of("STARTFONT 2.1\nFONTBOUNDINGBOX 1 1\n"), BdfError::UnexpectedEof);
    assert_eq!(error_of("STARTFONT 2.1\nFONTBOUNDINGBOX 1 1\nCHARS 0\n"), BdfError::UnexpectedEof);
    assert_eq!(error_of(&with("ENDFONT\n", "")), BdfError::UnexpectedEof);
    assert_eq!(error_of(&with("ENDPROPERTIES\n", "")), BdfError::UnexpectedEof);
    let cut = FONT.find("0040").unwrap();
    assert_eq!(error_of(&FONT[..cut]), BdfError::UnexpectedEof);
    let cut = FONT.find("BITMAP").unwrap();
    assert_eq!(error_of(&FONT[..cut + 6]), BdfError::UnexpectedEof);
    assert_eq!(error_of(&FONT[..cut]), BdfError::UnexpectedEof);
}

#[test]
fn expected_start_font() {
    assert_eq!(error_of(&with("STARTFONT 2.1", "STARTFONT 2.2")), BdfError::ExpectedStartFont);
    assert_eq!(error_of(&with("STARTFONT 2.1", " STARTFONT 2.1")), BdfError::ExpectedStartFont);
    assert_eq!(error_of("\nSTARTFONT 2.1\n"), BdfError::ExpectedStartFont);
}

#[test]
fn expected_property() {
    assert_eq!(error_of(&with("SIZE 20 96 96", "COMMENT")), BdfError::ExpectedProperty);
    assert_eq!(error_of(&with("SIZE 20 96 96", "")), BdfError::ExpectedProperty);
    assert_eq!(error_of(&with("ENCODING 65", "ENCODING")), BdfError::ExpectedProperty);
    assert_eq!(error_of(&with("CHARS 2", "CHARS")), BdfError::ExpectedProperty);
}

#[test]
fn missing_font_bounding_box() {
    assert_eq!(
        error_of(&with("FONTBOUNDINGBOX 10 4 0 -4\n", "")),
        BdfError::MissingFontBoundingBox
    );
}

#[test]
fn invalid_font_bounding_box() {
    let width = BdfError::InvalidFontBoundingBox { part: SizePart::Width };
    let height = BdfError::InvalidFontBoundingBox { part: SizePart::Height };
    assert_eq!(error_of(&with("FONTBOUNDINGBOX 10 4 0 -4", "FONTBOUNDINGBOX x 4")), width);
    assert_eq!(error_of(&with("FONTBOUNDINGBOX 10 4 0 -4", "FONTBOUNDINGBOX  10 4")), width);
    assert_eq!(error_of(&with("FONTBOUNDINGBOX 10 4 0 -4", "FONTBOUNDINGBOX -1 4")), width);
    assert_eq!(error_of(&with("FONTBOUNDINGBOX 10 4 0 -4", "FONTBOUNDINGBOX ")), width);
    assert_eq!(
        error_of(&with("FONTBOUNDINGBOX 10 4 0 -4", "FONTBOUNDINGBOX 99999999999999999999 4")),
        width
    );
    assert_eq!(error_of(&with("FONTBOUNDINGBOX 10 4 0 -4", "FONTBOUNDINGBOX 10")), height);
    assert_eq!(error_of(&with("FONTBOUNDINGBOX 10 4 0 -4", "FONTBOUNDINGBOX 10 ")), height);
    assert_eq!(error_of(&with("FONTBOUNDINGBOX 10 4 0 -4", "FONTBOUNDINGBOX 10 -4")), height);
    assert_eq!(error_of(&with("FONTBOUNDINGBOX 10 4 0 -4", "FONTBOUNDINGBOX 10  4")), height);
}

#[test]
fn expected_start_char() {
    assert_eq!(error_of(&with("STARTCHAR U+0041", "CHAR U+0041")), BdfError::ExpectedStartChar);
    assert_eq!(error_of(&with("STARTCHAR U+0041", "STARTCHAR")), BdfError::ExpectedStartChar);
    assert_eq!(error_of(&with("STARTCHAR U+0041", "ENDFONT ")), BdfError::ExpectedStartChar);
    assert_eq!(error_of(&with("STARTCHAR U+0041", " ")), BdfError::ExpectedStartChar);
}

#[test]
fn expected_code_point() {
    assert_eq!(error_of(&with("STARTCHAR U+0041", "STARTCHAR 0041")), BdfError::ExpectedCodePoint);
    assert_eq!(error_of(&with("STARTCHAR U+0041", "STARTCHAR A")), BdfError::ExpectedCodePoint);
    assert_eq!(error_of(&with("STARTCHAR U+0041", "STARTCHAR  U+41")), BdfError::ExpectedCodePoint);
    assert_eq!(error_of(&with("STARTCHAR U+0041", "STARTCHAR u+41")), BdfError::ExpectedCodePoint);
}

#[test]
fn invalid_code_point() {
    assert_eq!(error_of(&with("STARTCHAR U+0041", "STARTCHAR U+")), BdfError::InvalidCodePoint);
    assert_eq!(error_of(&with("STARTCHAR U+0041", "STARTCHAR U+41 ")), BdfError::InvalidCodePoint);
    assert_eq!(error_of(&with("STARTCHAR U+0041", "STARTCHAR U+G")), BdfError::InvalidCodePoint);
    assert_eq!(
        error_of(&with("STARTCHAR U+0041", "STARTCHAR U+100000000")),
        BdfError::InvalidCodePoint
    );
    let font = parse(&with("STARTCHAR U+0041", "STARTCHAR U+ffffffff")).unwrap();
    assert!(font.glyph(0xffff_ffff).is_some());
}

#[test]
fn missing_bbx() {
    assert_eq!(error_of(&with("BBX 10 3 0 -4\n", "")), BdfError::MissingBbx);
    assert_eq!(error_of(&with("BBX 4 2 0 0\n", "")), BdfError::MissingBbx);
}

#[test]
fn invalid_bbx() {
    assert_eq!(
        error_of(&with("BBX 10 3 0 -4", "BBX ten 3")),
        BdfError::InvalidBbx { part: SizePart::Width }
    );
    assert_eq!(
        error_of(&with("BBX 10 3 0 -4", "BBX 10")),
        BdfError::InvalidBbx { part: SizePart::Height }
    );
    assert_eq!(
        error_of(&with("BBX 10 3 0 -4", "BBX 10 3.5")),
        BdfError::InvalidBbx { part: SizePart::Height }
    );
}

#[test]
fn bitmap_too_wide() {
    let digits = "0".repeat(usize::BITS as usize / 4 + 1);
    assert_eq!(error_of(&with("FFC0", &digits)), BdfError::BitmapTooWide);
    let text = with("BBX 10 3 0 -4", "BBX 1000 3 0 -4");
    assert_eq!(error_of(&with("FFC0", &digits)), BdfError::BitmapTooWide);
    assert_eq!(error_of(&text), BdfError::BitmapTooNarrow);
}

#[test]
fn bitmap_too_narrow() {
    assert_eq!(error_of(&with("FFC0", "FF")), BdfError::BitmapTooNarrow);
    assert_eq!(error_of(&with("FFC0", "")), BdfError::BitmapTooNarrow);
    assert_eq!(error_of(&with("BBX 4 2 0 0", "BBX 5 2 0 0")), BdfError::BitmapTooNarrow);
    assert_eq!(error_of(&with("0040", "ENDCHAR")), BdfError::InvalidBitmap);
}

#[test]
fn invalid_bitmap() {
    assert_eq!(error_of(&with("FFC0", "FFG0")), BdfError::InvalidBitmap);
    assert_eq!(error_of(&with("FFC0", "-FC0")), BdfError::InvalidBitmap);
    assert_eq!(error_of(&with("FFC0", "FF 0")), BdfError::InvalidBitmap);
    assert_eq!(error_of(&with("FFC0", "F\u{e9}0")), BdfError::InvalidBitmap);
    assert_eq!(error_of(&with("FFC0", "\u{e9}")), BdfError::BitmapTooNarrow);
    assert_eq!(error_of(&with("BBX 4 2 0 0\nBITMAP\nA", "BBX 0 2\nBITMAP\n")), BdfError::InvalidBitmap);
}

#[test]
fn expected_end_char() {
    assert_eq!(error_of(&with("8000\nENDCHAR", "8000\n0000\nENDCHAR")), BdfError::ExpectedEndChar);
    assert_eq!(error_of(&with("8000\nENDCHAR", "8000\n\nENDCHAR")), BdfError::ExpectedEndChar);
    assert_eq!(error_of(&with("8000\nENDCHAR", "8000\n ENDCHAR")), BdfError::ExpectedEndChar);
    assert!(parse(&with("8000\nENDCHAR", "8000\nENDCHARACTER")).is_ok());
}

#[test]
fn lines_are_read_one_after_the_other() {
    let mut lines = Lines::new("one\r\ntwo\n\nfour");
    assert_eq!(lines.all.len(), 4);
    assert_eq!(lines.taken, 0);
    assert_eq!(lines.line(), &[] as &[char]);
    assert_eq!(lines.next(), Ok(()));
    assert_eq!(lines.line(), &['o', 'n', 'e']);
    assert_eq!(lines.next(), Ok(()));
    assert_eq!(lines.line(), &['t', 'w', 'o']);
    assert_eq!(lines.next(), Ok(()));
    assert_eq!(lines.line(), &[] as &[char]);
    assert_eq!(lines.next(), Ok(()));
    assert_eq!(lines.line(), &['f', 'o', 'u', 'r']);
    assert_eq!(lines.next(), Err(BdfError::UnexpectedEof));
    assert_eq!(lines.taken, 4);
    assert_eq!(lines.line(), &['f', 'o', 'u', 'r']);
    assert_eq!(Lines::new("").next(), Err(BdfError::UnexpectedEof));
}

#[test]
fn glyph_add_fits_rows_to_the_font() {
    let mut font = small_font();
    font.glyph_add(65, vec![0xff, 0x01]);
    let glyph = font.glyph(65).unwrap();
    assert_eq!((glyph.width, glyph.height), (4, 3));
    assert_eq!(glyph.rows, vec![0xf, 0x1, 0]);
    font.glyph_add(66, vec![0x10, 0x25, 0x3a, 0x4f, 0x5f]);
    assert_eq!(font.glyph(66).unwrap().rows, vec![0x0, 0x5, 0xa]);
    font.glyph_add(65, vec![]);
    assert_eq!(font.glyph(65).unwrap().rows, vec![0, 0, 0]);
    assert_eq!(font.glyphs.len(), 2);
    assert_eq!((font.width, font.height), (4, 3));
    assert_eq!(font.blank.rows, vec![0, 0, 0]);
}

#[test]
fn glyph_add_with_extreme_widths() {
    let mut font = small_font();
    font.width = 0;
    font.glyph_add(1, vec![usize::MAX; 3]);
    assert_eq!(font.glyph(1).unwrap().rows, vec![0, 0, 0]);
    font.width = usize::BITS as usize - 1;
    font.glyph_add(2, vec![usize::MAX; 3]);
    assert_eq!(font.glyph(2).unwrap().rows, vec![usize::MAX >> 1; 3]);
    assert_eq!(font.glyph(2).unwrap().width, usize::BITS as usize - 1);
}

#[test]
fn glyph_copy_copies_an_existing_glyph() {
    let mut font = parse(FONT).unwrap();
    font.glyph_copy(0x41, 0x61);
    assert_eq!(font.glyphs.len(), 3);
    let copy = font.glyph(0x61).unwrap();
    assert_eq!((copy.width, copy.height), (10, 3));
    assert_eq!(copy.rows, vec![0x3ff, 0x001, 0x200]);
    assert_eq!(font.glyph(0x41).unwrap().rows, vec![0x3ff, 0x001, 0x200]);
    font.glyph_copy(0xe9, 0x41);
    assert_eq!(font.glyph(0x41).unwrap().rows, vec![0xa, 0x5]);
    assert_eq!(font.glyphs.len(), 3);
    font.glyph_copy(0x41, 0x41);
    assert_eq!(font.glyph(0x41).unwrap().rows, vec![0xa, 0x5]);
}

#[test]
fn glyph_copy_of_a_missing_glyph_changes_nothing() {
    let mut font = parse(FONT).unwrap();
    font.glyph_copy(0x100, 0x41);
    assert_eq!(font.glyphs.len(), 2);
    assert_eq!(font.glyph(0x41).unwrap().rows, vec![0x3ff, 0x001, 0x200]);
    assert!(font.glyph(0x100).is_none());
}

#[test]
fn glyph_or_blank_falls_back_to_the_blank_glyph() {
    let font = parse(FONT).unwrap();
    assert_eq!(font.glyph_or_blank(0xe9).rows, vec![0xa, 0x5]);
    let blank = font.glyph_or_blank(0x20);
    assert_eq!((blank.width, blank.height), (10, 4));
    assert_eq!(blank.rows, vec![0, 0, 0, 0]);
}

#[test]
fn glyph_clone_copies_all_fields() {
    let glyph = Glyph { width: 3, height: 2, rows: vec![5, 2] };
    let copy = glyph.clone();
    assert_eq!((copy.width, copy.height), (3, 2));
    assert_eq!(copy.rows, glyph.rows);
}
