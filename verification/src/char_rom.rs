//! A font of 256 glyphs, 10 pixels wide and 20 rows high, as the
//! initialisation data of four memory blocks: three hold the low eight
//! pixels of the rows, eight rows to a block, the fourth the high two pixels
//! of every row.

use vstd::prelude::*;
use vstd::string::StringExecFns;
use crate::bdf::{Font, FontView, GlyphView};
use crate::blocks::{hex_digit, spec_hex_digit, spec_upper_hex_digit, upper_hex_digit};

verus! {

/// The number of glyphs.
pub const GLYPHS: usize = 256;

/// The number of rows of a glyph.
pub const ROWS: usize = 20;

/// The number of hexadecimal digits of an initialisation string.
pub const DIGITS: usize = 64;

/// The text before the initialisation strings of block 0.
pub const HEAD: &'static str = "`default_nettype none\nmodule char_rom\n(\n    input wire clk,\n    input wire ce,\n    input wire [7:0] char,\n    input wire [4:0] row,\n    output wire [9:0] q\n);\n\nreg [1:0] block;\n\nalways @(posedge clk) begin\n    if (ce) begin\n        block <= row[3:2];\n    end\nend\n\nwire [31:0] block_0_q;\nwire [31:0] block_1_q;\nwire [31:0] block_2_q;\nwire [31:0] block_3_q;\n\npROM block_0 (\n    .DO(block_0_q),\n    .CLK(clk),\n    .OCE(1'b1),\n    .CE(ce & ~row[4] & ~row[3]),\n    .RESET(1'b0),\n    .AD({row[2:0],char[7:0],3'b000})\n);\ndefparam block_0.READ_MODE = 1'b0;\ndefparam block_0.BIT_WIDTH = 8;\ndefparam block_0.RESET_MODE = \"SYNC\";\n";

/// The text between the initialisation strings of block 0 and those of block 1.
pub const BLOCK_1: &'static str = "\npROM block_1 (\n    .DO(block_1_q),\n    .CLK(clk),\n    .OCE(1'b1),\n    .CE(ce & ~row[4] & row[3]),\n    .RESET(1'b0),\n    .AD({row[2:0],char[7:0],3'b000})\n);\ndefparam block_1.READ_MODE = 1'b0;\ndefparam block_1.BIT_WIDTH = 8;\ndefparam block_1.RESET_MODE = \"SYNC\";\n";

/// The text between the initialisation strings of block 1 and those of block 2.
pub const BLOCK_2: &'static str = "\npROM block_2 (\n    .DO(block_2_q),\n    .CLK(clk),\n    .OCE(1'b1),\n    .CE(ce & row[4] & ~row[3]),\n    .RESET(1'b0),\n    .AD({row[2:0],char[7:0],3'b000})\n);\ndefparam block_2.READ_MODE = 1'b0;\ndefparam block_2.BIT_WIDTH = 8;\ndefparam block_2.RESET_MODE = \"SYNC\";\n";

/// The text between the initialisation strings of block 2 and those of block 3.
pub const BLOCK_3: &'static str = "\npROM block_3 (\n    .DO(block_3_q),\n    .CLK(clk),\n    .OCE(1'b1),\n    .CE(ce),\n    .RESET(1'b0),\n    .AD({row[4:0],char[7:0],1'b0})\n);\ndefparam block_3.READ_MODE = 1'b0;\ndefparam block_3.BIT_WIDTH = 2;\ndefparam block_3.RESET_MODE = \"SYNC\";\n";

/// The text after the initialisation strings of block 3.
pub const FOOT: &'static str = "\nassign q = row[4]\n        ? (row[3]\n            ? 10'b0000000000\n            : {block_3_q[1:0], block_2_q[7:0]})\n        : (row[3]\n            ? {block_3_q[1:0], block_1_q[7:0]}\n            : {block_3_q[1:0], block_0_q[7:0]});\n\nendmodule\n";

/// The text that an initialisation string starts with, up to the number of
/// its block.
pub const NAME: &'static str = "defparam block_";

/// The text between the number of a block and the number of an
/// initialisation string.
pub const INIT: &'static str = ".INIT_RAM_";

/// The text between the number of an initialisation string and its digits.
pub const ASSIGN: &'static str = " = 256'h";

/// The text that ends an initialisation string.
pub const END: &'static str = ";\n";

/// The glyph of a character: its own, or the blank glyph where it has none.
pub open spec fn glyph_of(font: FontView, code: int) -> GlyphView {
    if font.glyphs.contains_key(code as usize) {
        font.glyphs[code as usize]
    } else {
        font.blank
    }
}

/// Whether each of the 256 characters has a glyph of at least 20 rows.
pub open spec fn complete(font: FontView) -> bool {
    forall|code: int| 0 <= code < GLYPHS ==> (#[trigger] glyph_of(font, code)).rows.len() >= ROWS
}

/// A row of the glyph of a character.
pub open spec fn glyph_row(font: FontView, code: int, row: int) -> usize {
    glyph_of(font, code).rows[row]
}

/// Digit `k` of an initialisation string of the blocks that hold eight
/// pixels: two digits for each of 32 characters, the last character first,
/// the high four of its low eight pixels before the low four.
pub open spec fn wide_digit(font: FontView, row: int, upper: int, k: int) -> u8 {
    let pixels = glyph_row(font, upper * 32 + (31 - k / 2), row);
    if k % 2 == 0 {
        ((pixels >> 4) & 15) as u8
    } else {
        (pixels & 15) as u8
    }
}

/// Digit `k` of an initialisation string of the block that holds two
/// pixels: one digit for two of 128 characters, the last characters first,
/// the pixels of the odd character above those of the even one.
pub open spec fn narrow_digit(font: FontView, row: int, upper: int, k: int) -> u8 {
    let odd = glyph_row(font, upper * 128 + (127 - 2 * k), row);
    let even = glyph_row(font, upper * 128 + (126 - 2 * k), row);
    (((odd >> 6) & 12) | ((even >> 8) & 3)) as u8
}

/// The digits of initialisation string `n` of a block. Blocks 0 to 2 hold
/// rows 0 to 7, 8 to 15 and 16 to 19, eight strings to a row; block 3 holds
/// all rows, two strings to a row.
pub open spec fn spec_init_row(font: FontView, block: int, n: int) -> Seq<char> {
    Seq::new(
        DIGITS as nat,
        |k: int|
            spec_hex_digit(
                if block < 3 {
                    wide_digit(font, block * 8 + n / 8, n % 8, k)
                } else {
                    narrow_digit(font, n / 2, n % 2, k)
                },
            ),
    )
}

/// The text of initialisation string `n` of a block: its name, with the
/// number of the block and its own number in two upper-case hexadecimal
/// digits, and its digits.
pub open spec fn row_text(font: FontView, block: int, n: int) -> Seq<char> {
    NAME@ + seq![spec_hex_digit(block as u8)] + INIT@ + seq![
        spec_upper_hex_digit((n / 16) as u8),
        spec_upper_hex_digit((n % 16) as u8),
    ] + ASSIGN@ + spec_init_row(font, block, n) + END@
}

/// The text of the first `n` initialisation strings of a block.
pub open spec fn rows_text(font: FontView, block: int, n: int) -> Seq<char>
    decreases n,
{
    if n <= 0 {
        Seq::empty()
    } else {
        rows_text(font, block, n - 1) + row_text(font, block, n - 1)
    }
}

/// The number of initialisation strings of a block.
pub open spec fn rows_of(block: int) -> int {
    if block < 2 {
        64
    } else if block == 2 {
        32
    } else {
        40
    }
}

/// The whole module.
pub open spec fn spec_char_rom(font: FontView) -> Seq<char> {
    HEAD@ + rows_text(font, 0, 64) + BLOCK_1@ + rows_text(font, 1, 64) + BLOCK_2@ + rows_text(
        font,
        2,
        32,
    ) + BLOCK_3@ + rows_text(font, 3, 40) + FOOT@
}

/// Whether each of the 256 characters has a glyph of at least 20 rows.
pub fn is_complete(font: &Font) -> (r: bool)
    ensures
        r == complete(font@),
{
    let mut code: usize = 0;
    while code < GLYPHS
        invariant
            code <= GLYPHS,
            forall|c: int| 0 <= c < code ==> (#[trigger] glyph_of(font@, c)).rows.len() >= ROWS,
        decreases GLYPHS - code,
    {
        if font.glyph_or_blank(code).rows.len() < ROWS {
            assert(glyph_of(font@, code as int).rows.len() < ROWS);
            return false;
        }
        code += 1;
    }
    true
}

fn pixels(font: &Font, code: usize, row: usize) -> (r: usize)
    requires
        complete(font@),
        code < GLYPHS,
        row < ROWS,
    ensures
        r == glyph_row(font@, code as int, row as int),
{
    assert(glyph_of(font@, code as int).rows.len() >= ROWS);
    font.glyph_or_blank(code).rows[row]
}

/// The digits of an initialisation string of a block.
pub fn init_row(font: &Font, block: u8, n: usize) -> (text: String)
    requires
        complete(font@),
        block < 4,
        n < rows_of(block as int),
    ensures
        text@ == spec_init_row(font@, block as int, n as int),
{
    let mut text = String::new();
    let mut k: usize = 0;
    while k < DIGITS
        invariant
            k <= DIGITS,
            complete(font@),
            block < 4,
            n < rows_of(block as int),
            text@ =~= spec_init_row(font@, block as int, n as int).take(k as int),
        decreases DIGITS - k,
    {
        let digit: u8 = if block < 3 {
            let row: usize = block as usize * 8 + n / 8;
            let p: usize = pixels(font, (n % 8) * 32 + (31 - k / 2), row);
            assert(((p >> 4) & 15) < 16 && (p & 15) < 16) by (bit_vector);
            if k % 2 == 0 {
                ((p >> 4) & 15) as u8
            } else {
                (p & 15) as u8
            }
        } else {
            let odd: usize = pixels(font, (n % 2) * 128 + (127 - 2 * k), n / 2);
            let even: usize = pixels(font, (n % 2) * 128 + (126 - 2 * k), n / 2);
            assert((((odd >> 6) & 12) | ((even >> 8) & 3)) < 16) by (bit_vector);
            (((odd >> 6) & 12) | ((even >> 8) & 3)) as u8
        };
        text.push(hex_digit(digit));
        k += 1;
    }
    text
}

/// Appends the initialisation strings of a block.
pub fn write_rows(font: &Font, block: u8, verilog: &mut String)
    requires
        complete(font@),
        block < 4,
    ensures
        final(verilog)@ == old(verilog)@ + rows_text(
            font@,
            block as int,
            rows_of(block as int),
        ),
{
    let ghost start = verilog@;
    let count: usize = if block < 2 {
        64
    } else if block == 2 {
        32
    } else {
        40
    };
    let mut n: usize = 0;
    while n < count
        invariant
            n <= count,
            count == rows_of(block as int),
            complete(font@),
            block < 4,
            verilog@ == start + rows_text(font@, block as int, n as int),
        decreases count - n,
    {
        verilog.append(NAME);
        verilog.push(hex_digit(block));
        verilog.append(INIT);
        verilog.push(upper_hex_digit((n / 16) as u8));
        verilog.push(upper_hex_digit((n % 16) as u8));
        verilog.append(ASSIGN);
        let line = init_row(font, block, n);
        verilog.append(line.as_str());
        verilog.append(END);
        n += 1;
    }
}

/// Appends the module that holds the font in its four blocks.
pub fn char_rom(font: &Font, verilog: &mut String)
    requires
        complete(font@),
    ensures
        final(verilog)@ == old(verilog)@ + spec_char_rom(font@),
{
    verilog.append(HEAD);
    write_rows(font, 0, verilog);
    verilog.append(BLOCK_1);
    write_rows(font, 1, verilog);
    verilog.append(BLOCK_2);
    write_rows(font, 2, verilog);
    verilog.append(BLOCK_3);
    write_rows(font, 3, verilog);
    verilog.append(FOOT);
}

} // verus!
