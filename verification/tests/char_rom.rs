use rom_gen::bdf::{parse, Font, Glyph};
use rom_gen::char_rom::{
    char_rom, init_row, is_complete, write_rows, BLOCK_1, BLOCK_2, BLOCK_3, FOOT, HEAD,
};
use std::collections::HashMap;

fn font() -> Font {
    let mut font = Font {
        width: 10,
        height: 20,
        glyphs: HashMap::new(),
        blank: Glyph { width: 10, height: 20, rows: vec![0; 20] },
    };
    for code in 0..256usize {
        if code % 5 != 3 {
            let rows = (0..20).map(|row| (code * 37 + row * 101 + code * row) & 0x3ff).collect();
            font.glyph_add(code, rows);
        }
    }
    font
}

fn pixels(font: &Font, code: usize, row: usize) -> usize {
    match font.glyphs.get(&code) {
        Some(glyph) => glyph.rows[row],
        None => font.blank.rows[row],
    }
}

fn expected_wide(font: &Font, block: usize, rows: std::ops::Range<usize>) -> String {
    let mut text = String::new();
    for row in rows {
        for upper in 0..8 {
            let init = ((row * 8) + upper) & 63;
            let mut line = format!("defparam block_{}.INIT_RAM_{:02X} = 256'h", block, init);
            for lower in (0..32).rev() {
                let r = pixels(font, (upper * 32) + lower, row);
                line.push(char::from_digit(((r >> 4) & 15) as u32, 16).unwrap());
                line.push(char::from_digit((r & 15) as u32, 16).unwrap());
            }
            line.push_str(";\n");
            text.push_str(&line);
        }
    }
    text
}

fn expected_narrow(font: &Font) -> String {
    let mut text = String::new();
    for row in 0..20 {
        for upper in 0..2 {
            let init = (row * 2) + upper;
            let mut line = format!("defparam block_3.INIT_RAM_{:02X} = 256'h", init);
            let mut digit = 0u32;
            for lower in (0..128).rev() {
                let r = pixels(font, (upper * 128) + lower, row);
                if lower % 2 == 1 {
                    digit = ((r >> 6) & 12) as u32;
                } else {
                    digit |= ((r >> 8) & 3) as u32;
                    line.push(char::from_digit(digit, 16).unwrap());
                }
            }
            line.push_str(";\n");
            text.push_str(&line);
        }
    }
    text
}

#[test]
fn complete_font_has_twenty_rows_for_every_character() {
    assert!(is_complete(&font()));
    let mut short = font();
    short.blank.rows.pop();
    assert!(!is_complete(&short));
    let mut short = font();
    short.glyphs.get_mut(&255).unwrap().rows.truncate(19);
    assert!(!is_complete(&short));
    let mut other = font();
    other.glyphs.insert(256, Glyph { width: 10, height: 0, rows: vec![] });
    assert!(is_complete(&other));
    let mut tall = font();
    tall.blank.rows.push(0);
    assert!(is_complete(&tall));
}

#[test]
fn parsed_font_without_glyphs_is_complete_when_high_enough() {
    let font = parse("STARTFONT 2.1\nFONTBOUNDINGBOX 10 20\nCHARS 0\nENDFONT\n").unwrap();
    assert!(is_complete(&font));
    let font = parse("STARTFONT 2.1\nFONTBOUNDINGBOX 10 19\nCHARS 0\nENDFONT\n").unwrap();
    assert!(!is_complete(&font));
}

#[test]
fn init_row_of_a_wide_block() {
    let mut font = font();
    font.glyph_add(31, vec![0x3a5; 20]);
    font.glyph_add(0, vec![0x1f0; 20]);
    let row = init_row(&font, 0, 0);
    assert_eq!(row.len(), 64);
    assert!(row.starts_with("a5"));
    assert!(row.ends_with("f0"));
    font.glyph_add(32 + 31, (0..20).map(|r| r * 16 + 1).collect());
    let row = init_row(&font, 1, 3 * 8 + 1);
    assert!(row.starts_with("b1"));
    let row = init_row(&font, 2, 3 * 8 + 1);
    assert!(row.starts_with("31"));
}

#[test]
fn init_row_of_the_narrow_block() {
    let mut font = font();
    font.glyph_add(127, vec![0x200; 20]);
    font.glyph_add(126, vec![0x100; 20]);
    font.glyph_add(1, vec![0x3ff; 20]);
    font.glyph_add(0, vec![0x0ff; 20]);
    let row = init_row(&font, 3, 0);
    assert_eq!(row.len(), 64);
    assert!(row.starts_with("9"));
    assert!(row.ends_with("c"));
    font.glyph_add(128, vec![0x300; 20]);
    font.glyph_add(129, vec![0x100; 20]);
    assert!(init_row(&font, 3, 39).ends_with("7"));
}

#[test]
fn write_rows_of_each_block() {
    let font = font();
    let mut text = String::from("x");
    write_rows(&font, 0, &mut text);
    assert_eq!(text, format!("x{}", expected_wide(&font, 0, 0..8)));
    let mut text = String::new();
    write_rows(&font, 1, &mut text);
    assert_eq!(text, expected_wide(&font, 1, 8..16));
    let mut text = String::new();
    write_rows(&font, 2, &mut text);
    assert_eq!(text, expected_wide(&font, 2, 16..20));
    assert_eq!(text.matches("defparam").count(), 32);
    let mut text = String::new();
    write_rows(&font, 3, &mut text);
    assert_eq!(text, expected_narrow(&font));
    assert!(text.contains("defparam block_3.INIT_RAM_27 = 256'h"));
}

#[test]
fn char_rom_appends_the_whole_module() {
    let font = font();
    let mut text = String::from("// generated\n");
    char_rom(&font, &mut text);
    let mut expected = String::from("// generated\n");
    expected.push_str(HEAD);
    expected.push_str(&expected_wide(&font, 0, 0..8));
    expected.push_str(BLOCK_1);
    expected.push_str(&expected_wide(&font, 1, 8..16));
    expected.push_str(BLOCK_2);
    expected.push_str(&expected_wide(&font, 2, 16..20));
    expected.push_str(BLOCK_3);
    expected.push_str(&expected_narrow(&font));
    expected.push_str(FOOT);
    assert_eq!(text, expected);
    assert!(HEAD.starts_with("`default_nettype none\nmodule char_rom\n(\n"));
    assert!(HEAD.ends_with("defparam block_0.RESET_MODE = \"SYNC\";\n"));
    assert!(BLOCK_1.starts_with("\npROM block_1 (\n"));
    assert!(BLOCK_2.contains(".CE(ce & row[4] & ~row[3]),\n"));
    assert!(BLOCK_3.ends_with("defparam block_3.RESET_MODE = \"SYNC\";\n"));
    assert!(FOOT.ends_with("\nendmodule\n"));
}
