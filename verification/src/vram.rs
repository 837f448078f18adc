//! The initial contents of the text buffer, as the initialisation data of
//! the two memory blocks that hold the high and the low half of each byte.

use vstd::prelude::*;
use vstd::string::StringExecFns;
use crate::code::{char_byte, low_byte};
use crate::blocks::{hex_digit, spec_hex_digit, spec_upper_hex_digit, upper_hex_digit};
use crate::text::{lines, lines_view, split_lines, to_chars};

verus! {

/// The number of text rows.
pub const ROWS: usize = 32;

/// The number of characters of a text row.
pub const COLUMNS: usize = 128;

/// The number of bytes of the text buffer.
pub const SIZE: usize = 4096;

/// The number of hexadecimal digits of an initialisation string: half a text
/// row.
pub const DIGITS: usize = 64;

/// The text before the initialisation strings of the high halves.
pub const HEAD: &'static str = "`default_nettype none\nmodule vram\n(\n    input wire clk,\n    // read\n    input wire read_ce,\n    input wire [4:0] read_row,\n    input wire [6:0] read_col,\n    output wire [7:0] read_char,\n    // write\n    input wire write_ce,\n    input wire [4:0] write_row,\n    input wire [6:0] write_col,\n    input wire [7:0] write_char\n);\n\nwire [31:0] read_upper;\nwire [31:0] read_lower;\nassign read_char = {read_upper[3:0], read_lower[3:0]};\n\nSDPB upper (\n    // port A = write\n    .CLKA(clk),\n    .CEA(write_ce),\n    .RESETA(1'b0),\n    .BLKSELA(3'b0),\n    .ADA({write_row, write_col, 2'b0}),\n    .DI({28'b0, write_char[7:4]}),\n    // port B = read\n    .CLKB(clk),\n    .CEB(read_ce),\n    .RESETB(1'b0),\n    .OCE(1'b1),\n    .BLKSELB(3'b0),\n    .ADB({read_row, read_col, 2'b0}),\n    .DO(read_upper)\n);\n\ndefparam upper.READ_MODE = 1'b0;\ndefparam upper.BIT_WIDTH_0 = 4;\ndefparam upper.BIT_WIDTH_1 = 4;\ndefparam upper.BLK_SEL_0 = 3'b000;\ndefparam upper.BLK_SEL_1 = 3'b000;\ndefparam upper.RESET_MODE = \"SYNC\";\n";

/// The text between the initialisation strings of the high halves and those
/// of the low halves.
pub const MIDDLE: &'static str = "\nSDPB lower (\n    // port A = write\n    .CLKA(clk),\n    .CEA(write_ce),\n    .RESETA(1'b0),\n    .BLKSELA(3'b0),\n    .ADA({write_row, write_col, 2'b0}),\n    .DI({28'b0, write_char[3:0]}),\n    // port B = read\n    .CLKB(clk),\n    .CEB(read_ce),\n    .RESETB(1'b0),\n    .OCE(1'b1),\n    .BLKSELB(3'b0),\n    .ADB({read_row, read_col, 2'b0}),\n    .DO(read_lower)\n);\n\ndefparam lower.READ_MODE = 1'b0;\ndefparam lower.BIT_WIDTH_0 = 4;\ndefparam lower.BIT_WIDTH_1 = 4;\ndefparam lower.BLK_SEL_0 = 3'b000;\ndefparam lower.BLK_SEL_1 = 3'b000;\ndefparam lower.RESET_MODE = \"SYNC\";\n";

/// The text after the initialisation strings of the low halves.
pub const FOOT: &'static str = "\nendmodule\n";

/// The text that an initialisation string of the high halves starts with.
pub const UPPER_NAME: &'static str = "defparam upper.INIT_RAM_";

/// The text that an initialisation string of the low halves starts with.
pub const LOWER_NAME: &'static str = "defparam lower.INIT_RAM_";

/// The text between the number of an initialisation string and its digits.
pub const ASSIGN: &'static str = " = 256'h";

/// The text that ends an initialisation string.
pub const END: &'static str = ";\n";

/// The text buffer.
#[derive(Clone, Copy, Debug)]
pub struct Vram {
    pub bytes: [u8; SIZE],
}

impl View for Vram {
    type V = Seq<u8>;

    open spec fn view(&self) -> Seq<u8> {
        self.bytes@
    }
}

/// Whether a character is an ASCII character.
pub open spec fn is_ascii(c: char) -> bool {
    c <= '\x7f'
}

/// The byte of a cell of the text buffer: the character of that line and
/// column where there is one and it is an ASCII character, else a space.
pub open spec fn cell(all: Seq<Seq<char>>, row: int, col: int) -> u8 {
    if 0 <= row < all.len() && 0 <= col < all[row].len() && is_ascii(all[row][col]) {
        low_byte(all[row][col])
    } else {
        0x20
    }
}

/// The text buffer that holds the given lines, row after row.
pub open spec fn spec_image(all: Seq<Seq<char>>) -> Seq<u8> {
    Seq::new(SIZE as nat, |a: int| cell(all, a / 128, a % 128))
}

/// Whether the lines fit the text buffer: no ASCII character stands within
/// the first 128 columns of a line after the first 32.
pub open spec fn fits(all: Seq<Seq<char>>) -> bool {
    forall|row: int, col: int|
        ROWS <= row < all.len() && 0 <= col < all[row].len() && col < COLUMNS ==> !is_ascii(
            #[trigger] all[row][col],
        )
}

/// The text buffer that holds a text, where the text fits it.
pub fn image(init: &str) -> (r: Option<Vram>)
    ensures
        match r {
            Some(vram) => fits(split_lines(init@)) && vram@ == spec_image(split_lines(init@)),
            None => !fits(split_lines(init@)),
        },
{
    let chars = to_chars(init);
    let all = lines(chars.as_slice());
    let ghost shown = lines_view(all@);
    let mut vram = Vram { bytes: [0x20u8; SIZE] };
    let n: usize = all.len();
    let mut row: usize = 0;
    while row < n
        invariant
            row <= n,
            n == all@.len(),
            shown == lines_view(all@),
            shown == split_lines(init@),
            forall|a: int|
                0 <= a < SIZE ==> vram@[a] == if a / 128 < row {
                    cell(shown, a / 128, a % 128)
                } else {
                    0x20
                },
            forall|i: int, j: int|
                ROWS <= i < row && 0 <= j < shown[i].len() && j < COLUMNS ==> !is_ascii(
                    #[trigger] shown[i][j],
                ),
        decreases n - row,
    {
        let line = all[row].as_slice();
        assert(line@ == shown[row as int]);
        let width: usize = if line.len() < COLUMNS {
            line.len()
        } else {
            COLUMNS
        };
        let mut col: usize = 0;
        while col < width
            invariant
                col <= width,
                width <= COLUMNS,
                width <= line@.len(),
                width == COLUMNS || width == line@.len(),
                row < n,
                n == all@.len(),
                shown == lines_view(all@),
                shown == split_lines(init@),
                line@ == shown[row as int],
                forall|a: int|
                    0 <= a < SIZE ==> vram@[a] == if a / 128 < row || (a / 128 == row && a % 128
                        < col) {
                        cell(shown, a / 128, a % 128)
                    } else {
                        0x20
                    },
                forall|i: int, j: int|
                    ROWS <= i < row && 0 <= j < shown[i].len() && j < COLUMNS ==> !is_ascii(
                        #[trigger] shown[i][j],
                    ),
                forall|j: int| ROWS <= row && 0 <= j < col ==> !is_ascii(#[trigger] line@[j]),
            decreases width - col,
        {
            let ghost before = vram@;
            let c: char = line[col];
            if c <= '\x7f' {
                if row >= ROWS {
                    assert(is_ascii(shown[row as int][col as int]));
                    return None;
                }
                let addr: usize = row * COLUMNS + col;
                assert(addr / 128 == row && addr % 128 == col);
                vram.bytes[addr] = char_byte(c);
            }
            assert forall|a: int| 0 <= a < SIZE implies vram@[a] == if a / 128 < row || (a / 128
                == row && a % 128 < col + 1) {
                cell(shown, a / 128, a % 128)
            } else {
                0x20
            } by {
                if a / 128 == row && a % 128 == col {
                    assert(a == row * 128 + col);
                    assert(shown[row as int][col as int] == line@[col as int]);
                } else {
                    assert(vram@[a] == before[a]);
                }
            }
            col += 1;
        }
        row += 1;
    }
    assert(vram@ =~= spec_image(shown));
    Some(vram)
}

/// The half of a byte that a memory block holds.
pub open spec fn half(byte: u8, upper: bool) -> u8 {
    if upper {
        (byte >> 4) & 15
    } else {
        byte & 15
    }
}

/// An initialisation string: one digit for each byte of half a text row, the
/// last byte first.
pub open spec fn spec_init_row(vram: Seq<u8>, row: int, high: int, upper: bool) -> Seq<char> {
    Seq::new(
        DIGITS as nat,
        |k: int| spec_hex_digit(half(vram[row * 128 + high * 64 + (DIGITS - 1 - k)], upper)),
    )
}

/// The text of an initialisation string: its name, with its number in two
/// upper-case hexadecimal digits, and its digits.
pub open spec fn row_text(vram: Seq<u8>, n: int, upper: bool) -> Seq<char> {
    (if upper {
        UPPER_NAME@
    } else {
        LOWER_NAME@
    }) + seq![spec_upper_hex_digit((n / 16) as u8), spec_upper_hex_digit((n % 16) as u8)]
        + ASSIGN@ + spec_init_row(vram, n / 2, n % 2, upper) + END@
}

/// The text of the first `n` initialisation strings of a block.
pub open spec fn rows_text(vram: Seq<u8>, n: int, upper: bool) -> Seq<char>
    decreases n,
{
    if n <= 0 {
        Seq::empty()
    } else {
        rows_text(vram, n - 1, upper) + row_text(vram, n - 1, upper)
    }
}

/// The whole module: the high halves in one block, the low halves in another.
pub open spec fn spec_vram(vram: Seq<u8>) -> Seq<char> {
    HEAD@ + rows_text(vram, 64, true) + MIDDLE@ + rows_text(vram, 64, false) + FOOT@
}

/// An initialisation string.
pub fn init_row(vram: &Vram, row: usize, high: usize, upper: bool) -> (text: String)
    requires
        row < ROWS,
        high < 2,
    ensures
        text@ == spec_init_row(vram@, row as int, high as int, upper),
{
    let mut text = String::new();
    let mut k: usize = 0;
    while k < DIGITS
        invariant
            k <= DIGITS,
            row < ROWS,
            high < 2,
            text@ =~= spec_init_row(vram@, row as int, high as int, upper).take(k as int),
        decreases DIGITS - k,
    {
        let byte: u8 = vram.bytes[row * 128 + high * 64 + (DIGITS - 1 - k)];
        let data: u8 = if upper {
            (byte >> 4) & 15
        } else {
            byte & 15
        };
        assert(((byte >> 4) & 15) < 16 && (byte & 15) < 16) by (bit_vector);
        text.push(hex_digit(data));
        k += 1;
    }
    text
}

/// Appends the initialisation strings of a block.
pub fn write_rows(vram: &Vram, upper: bool, verilog: &mut String)
    ensures
        final(verilog)@ == old(verilog)@ + rows_text(vram@, 64, upper),
{
    let ghost start = verilog@;
    let mut n: usize = 0;
    while n < 64
        invariant
            n <= 64,
            verilog@ == start + rows_text(vram@, n as int, upper),
        decreases 64 - n,
    {
        if upper {
            verilog.append(UPPER_NAME);
        } else {
            verilog.append(LOWER_NAME);
        }
        verilog.push(upper_hex_digit((n / 16) as u8));
        verilog.push(upper_hex_digit((n % 16) as u8));
        verilog.append(ASSIGN);
        let line = init_row(vram, n / 2, n % 2, upper);
        verilog.append(line.as_str());
        verilog.append(END);
        n += 1;
    }
}

/// Appends the module that holds the text buffer in its two blocks.
pub fn vram(vram: &Vram, verilog: &mut String)
    ensures
        final(verilog)@ == old(verilog)@ + spec_vram(vram@),
{
    verilog.append(HEAD);
    write_rows(vram, true, verilog);
    verilog.append(MIDDLE);
    write_rows(vram, false, verilog);
    verilog.append(FOOT);
}

} // verus!
