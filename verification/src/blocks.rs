//! The ROM as the initialisation data of four parallel memory blocks, each
//! two bits wide.

use vstd::prelude::*;
use vstd::string::StringExecFns;
use crate::rom::{Rom, ROM_SIZE};

verus! {

/// The number of memory blocks; block `b` holds bits `2b` and `2b + 1` of
/// every byte.
pub const BLOCKS: usize = 4;

/// The number of initialisation strings of a block.
pub const ROWS: usize = 64;

/// The number of hexadecimal digits of an initialisation string; a digit
/// holds the bits of two bytes.
pub const COLUMNS: usize = 64;

/// The text before the first block.
pub const HEADER: &'static str = "`default_nettype none\n`timescale 1ns / 1ps\nmodule key_code\n(\n    input   wire        clk,\n\n    input   wire        ce,\n\n    input   wire        extended,\n    input   wire [7:0]  scan_code,\n    input   wire        num_lock,\n    input   wire        control,\n    input   wire        caps_lock,\n    input   wire        shift,\n\n    output  logic [7:0] q\n);\n\n    logic [13:0]    addr;\n    wire [31:0]     block_3_q;\n    wire [31:0]     block_2_q;\n    wire [31:0]     block_1_q;\n    wire [31:0]     block_0_q;\n\n    always_comb begin\n        addr = {extended, scan_code, num_lock, control, caps_lock, shift, 1'b0};\n        q = {block_3_q[1:0], block_2_q[1:0], block_1_q[1:0], block_0_q[1:0]};\n    end\n\n";

/// The text that a block starts with.
pub const BLOCK_HEAD: &'static str = "    pROM\n    #(\n        .READ_MODE(1'b0),\n        .BIT_WIDTH(2),\n        .RESET_MODE(\"SYNC\"";

/// The text between one parameter of a block and the name of a row.
pub const ROW_HEAD: &'static str = "),\n        .INIT_RAM_";

/// The text between the name of a row and its initialisation string.
pub const ROW_MID: &'static str = "(256'h";

/// The text between the last row of a block and the number of the block.
pub const BLOCK_NAME: &'static str = ")\n    )\n    block_";

/// The text between the number of a block and the number in the name of its output.
pub const BLOCK_OUT: &'static str = "\n    (\n        .DO(block_";

/// The text that a block ends with.
pub const BLOCK_PORTS: &'static str = "_q),\n        .CLK(clk),\n        .OCE(1'b1),\n        .CE(ce),\n        .RESET(1'b0),\n        .AD(addr)\n    );\n\n";

/// The text after the last block.
pub const FOOTER: &'static str = "\nendmodule\n\nlocalparam  KEY_CODE_ESCAPE = 7;\nlocalparam  KEY_CODE_NUMBER = 6;\nlocalparam  KEY_CODE_TENS_HI = 5;\nlocalparam  KEY_CODE_TENS_LO = 4;\nlocalparam  KEY_CODE_ONES_HI = 3;\nlocalparam  KEY_CODE_ONES_LO = 0;\nlocalparam  KEY_CODE_BRACKET = 5;\nlocalparam  KEY_CODE_LETTER_HI = 4;\nlocalparam  KEY_CODE_LETTER_LO = 0;\n";

/// The two bits of a byte that a block holds.
pub open spec fn pair(byte: u8, block: u8) -> u8 {
    (byte >> ((2 * block) as u8)) & 3
}

/// The digit of a block at a row and a column: the bits of the byte at the
/// odd address above those of the byte at the even address.
pub open spec fn spec_nibble(rom: Seq<u8>, block: u8, row: int, col: int) -> u8 {
    let addr = row * 128 + col * 2;
    (pair(rom[addr + 1], block) << 2) | pair(rom[addr], block)
}

/// The lower-case hexadecimal digit for a value below 16.
pub open spec fn spec_hex_digit(value: u8) -> char {
    if value < 10 {
        (0x30 + value) as char
    } else {
        (0x61 + value - 10) as char
    }
}

/// The upper-case hexadecimal digit for a value below 16.
pub open spec fn spec_upper_hex_digit(value: u8) -> char {
    if value < 10 {
        (0x30 + value) as char
    } else {
        (0x41 + value - 10) as char
    }
}

/// The initialisation string of a row of a block: one digit for each column,
/// the highest column first.
pub open spec fn spec_init_row(rom: Seq<u8>, block: u8, row: int) -> Seq<char> {
    Seq::new(
        COLUMNS as nat,
        |k: int| spec_hex_digit(spec_nibble(rom, block, row, COLUMNS - 1 - k)),
    )
}

/// The lower-case hexadecimal digit for a value below 16.
pub fn hex_digit(value: u8) -> (c: char)
    requires
        value < 16,
    ensures
        c == spec_hex_digit(value),
{
    if value < 10 {
        (0x30 + value) as char
    } else {
        (0x61 + value - 10) as char
    }
}

/// The upper-case hexadecimal digit for a value below 16.
pub fn upper_hex_digit(value: u8) -> (c: char)
    requires
        value < 16,
    ensures
        c == spec_upper_hex_digit(value),
{
    if value < 10 {
        (0x30 + value) as char
    } else {
        (0x41 + value - 10) as char
    }
}

/// The digit of a block at a row and a column.
pub fn nibble(rom: &Rom, block: u8, row: usize, col: usize) -> (value: u8)
    requires
        block < BLOCKS,
        row < ROWS,
        col < COLUMNS,
    ensures
        value == spec_nibble(rom@, block, row as int, col as int),
        value < 16,
{
    let addr: usize = row * 128 + col * 2;
    let shift: u8 = 2 * block;
    let odd: u8 = rom.bytes[addr + 1];
    let even: u8 = rom.bytes[addr];
    let upper: u8 = (odd >> shift) & 3;
    let lower: u8 = (even >> shift) & 3;
    assert(((upper << 2) | lower) < 16) by (bit_vector)
        requires
            upper == (odd >> shift) & 3,
            lower == (even >> shift) & 3,
    ;
    (upper << 2) | lower
}

/// The initialisation string of a row of a block.
pub fn init_row(rom: &Rom, block: u8, row: usize) -> (text: String)
    requires
        block < BLOCKS,
        row < ROWS,
    ensures
        text@ == spec_init_row(rom@, block, row as int),
{
    let mut text = String::new();
    let mut k: usize = 0;
    while k < COLUMNS
        invariant
            k <= COLUMNS,
            block < BLOCKS,
            row < ROWS,
            text@ =~= spec_init_row(rom@, block, row as int).take(k as int),
        decreases COLUMNS - k,
    {
        text.push(hex_digit(nibble(rom, block, row, COLUMNS - 1 - k)));
        k += 1;
    }
    text
}

/// The two bits that a digit holds of the byte at the even address of its
/// column, or of the byte at the odd address.
pub open spec fn half(digit: u8, odd: bool) -> u8 {
    if odd {
        (digit >> 2) & 3
    } else {
        digit & 3
    }
}

/// The byte whose bits the four blocks hold as these pairs, block 0 lowest.
pub open spec fn rejoin(first: u8, second: u8, third: u8, fourth: u8) -> u8 {
    first | (second << 2) | (third << 4) | (fourth << 6)
}

/// The blocks hold the whole ROM: each byte is made of the pairs that the four
/// blocks hold for its address, at row `addr / 128` and column `addr % 128 / 2`.
pub proof fn lemma_blocks_hold_rom(rom: Seq<u8>, addr: int)
    requires
        rom.len() == ROM_SIZE,
        0 <= addr < ROM_SIZE,
    ensures
        rom[addr] == rejoin(
            half(spec_nibble(rom, 0, addr / 128, addr % 128 / 2), addr % 2 == 1),
            half(spec_nibble(rom, 1, addr / 128, addr % 128 / 2), addr % 2 == 1),
            half(spec_nibble(rom, 2, addr / 128, addr % 128 / 2), addr % 2 == 1),
            half(spec_nibble(rom, 3, addr / 128, addr % 128 / 2), addr % 2 == 1),
        ),
{
    let row = addr / 128;
    let col = addr % 128 / 2;
    let even: u8 = rom[row * 128 + col * 2];
    let odd: u8 = rom[row * 128 + col * 2 + 1];
    assert({
        let n0 = (((odd >> 0u8) & 3) << 2) | ((even >> 0u8) & 3);
        let n1 = (((odd >> 2u8) & 3) << 2) | ((even >> 2u8) & 3);
        let n2 = (((odd >> 4u8) & 3) << 2) | ((even >> 4u8) & 3);
        let n3 = (((odd >> 6u8) & 3) << 2) | ((even >> 6u8) & 3);
        &&& even == (n0 & 3) | ((n1 & 3) << 2) | ((n2 & 3) << 4) | ((n3 & 3) << 6)
        &&& odd == ((n0 >> 2) & 3) | (((n1 >> 2) & 3) << 2) | (((n2 >> 2) & 3) << 4) | (((n3 >> 2)
            & 3) << 6)
    }) by (bit_vector);
}

/// The text of a row: the end of the parameter before it, the row's name
/// with its number in two upper-case hexadecimal digits, and its
/// initialisation string.
pub open spec fn row_text(rom: Seq<u8>, block: u8, row: int) -> Seq<char> {
    ROW_HEAD@ + seq![
        spec_upper_hex_digit((row / 16) as u8),
        spec_upper_hex_digit((row % 16) as u8),
    ] + ROW_MID@ + spec_init_row(rom, block, row)
}

/// The text of the first `n` rows of a block.
pub open spec fn rows_text(rom: Seq<u8>, block: u8, n: int) -> Seq<char>
    decreases n,
{
    if n <= 0 {
        Seq::empty()
    } else {
        rows_text(rom, block, n - 1) + row_text(rom, block, n - 1)
    }
}

/// The text of a block: its parameters, with one initialisation string for
/// each row, by increasing row, and its ports.
pub open spec fn block_text(rom: Seq<u8>, block: u8) -> Seq<char> {
    BLOCK_HEAD@ + rows_text(rom, block, ROWS as int) + BLOCK_NAME@ + seq![
        spec_hex_digit(block),
    ] + BLOCK_OUT@ + seq![spec_hex_digit(block)] + BLOCK_PORTS@
}

/// The text of the first `n` blocks.
pub open spec fn blocks_text(rom: Seq<u8>, n: int) -> Seq<char>
    decreases n,
{
    if n <= 0 {
        Seq::empty()
    } else {
        blocks_text(rom, n - 1) + block_text(rom, (n - 1) as u8)
    }
}

/// The whole module: the header, the four blocks, and the footer.
pub open spec fn spec_key_code(rom: Seq<u8>) -> Seq<char> {
    HEADER@ + blocks_text(rom, BLOCKS as int) + FOOTER@
}

/// Appends the text of a row of a block.
pub fn write_row(rom: &Rom, block: u8, row: usize, verilog: &mut String)
    requires
        block < BLOCKS,
        row < ROWS,
    ensures
        final(verilog)@ == old(verilog)@ + row_text(rom@, block, row as int),
{
    verilog.append(ROW_HEAD);
    verilog.push(upper_hex_digit((row / 16) as u8));
    verilog.push(upper_hex_digit((row % 16) as u8));
    verilog.append(ROW_MID);
    let line = init_row(rom, block, row);
    verilog.append(line.as_str());
}

/// Appends the text of a block.
pub fn write_block(rom: &Rom, block: u8, verilog: &mut String)
    requires
        block < BLOCKS,
    ensures
        final(verilog)@ == old(verilog)@ + block_text(rom@, block),
{
    let ghost start = verilog@;
    verilog.append(BLOCK_HEAD);
    let mut row: usize = 0;
    while row < ROWS
        invariant
            row <= ROWS,
            block < BLOCKS,
            verilog@ == start + BLOCK_HEAD@ + rows_text(rom@, block, row as int),
        decreases ROWS - row,
    {
        write_row(rom, block, row, verilog);
        row += 1;
    }
    verilog.append(BLOCK_NAME);
    verilog.push(hex_digit(block));
    verilog.append(BLOCK_OUT);
    verilog.push(hex_digit(block));
    verilog.append(BLOCK_PORTS);
}

/// Appends the module that holds the ROM in its four blocks.
pub fn key_code(rom: &Rom, verilog: &mut String)
    ensures
        final(verilog)@ == old(verilog)@ + spec_key_code(rom@),
{
    let ghost start = verilog@;
    verilog.append(HEADER);
    let mut block: u8 = 0;
    while block < 4
        invariant
            block <= 4,
            verilog@ == start + HEADER@ + blocks_text(rom@, block as int),
        decreases 4 - block,
    {
        write_block(rom, block, verilog);
        block += 1;
    }
    verilog.append(FOOTER);
}

} // verus!
