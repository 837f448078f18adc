//! Generators for the memories of a terminal on an FPGA.
//!
//! The heart of the crate compiles a keyboard scan-code table into the lookup
//! ROM of the keyboard controller: [`table`] reads the table line by line
//! ([`line`]) into its keys ([`keys`]), [`code`] encodes what a key sends in
//! one byte, [`rom`] spreads the bytes of each key over every state of the
//! modifiers, and [`blocks`] writes the ROM out as the initialisation data of
//! four parallel memory blocks.
//!
//! Beside it stand the character ROM ([`bdf`] reads the font, [`char_rom`]
//! writes it out) and the initial contents of the text buffer ([`vram`]).
//! [`text`] holds what the readers share.
//!
//! Contracts speak of texts as sequences of characters and of memories as
//! sequences of bytes. What a function `f` computes is, as a rule, the spec
//! function `spec_f`.

pub mod bdf;
pub mod blocks;
pub mod char_rom;
pub mod code;
pub mod keys;
pub mod line;
pub mod rom;
pub mod table;
pub mod text;
pub mod vram;
