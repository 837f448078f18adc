//! Output codes of a key and their one-byte ROM encoding.

use vstd::prelude::*;

verus! {

/// Bit 7 of an encoded byte: the byte stands for an escape sequence.
pub const ENCODE_ESCAPE: u8 = 0b1000_0000;

/// Bit 6 of an escaped byte: the sequence is numeric.
pub const ENCODE_NUMBER: u8 = 0b0100_0000;

/// Where the tens digit of a numeric sequence starts.
pub const ENCODE_TENS_SHIFT: u8 = 4;

/// The two bits that hold the tens digit of a numeric sequence.
pub const ENCODE_TENS_MASK: u8 = 0b0011_0000;

/// The four bits that hold the ones digit of a numeric sequence.
pub const ENCODE_ONES_MASK: u8 = 0b0000_1111;

/// Bit 5 of a letter sequence: the introducer is `ESC [`, not `ESC O`.
pub const ENCODE_NOT_CONTROL: u8 = 0b0010_0000;

/// The five bits that hold the letter of a letter sequence.
pub const ENCODE_LETTER_MASK: u8 = 0b0001_1111;

/// What a key sends.
#[derive(Clone, Copy, Debug, PartialEq, Eq, Structural)]
pub enum Code {
    /// A single character: printable ASCII or an ASCII control byte.
    Basic { character: char },
    /// `ESC O <letter>` when `control` is set, `ESC [ <letter>` otherwise.
    Letter { control: bool, letter: char },
    /// `ESC [ <tens><ones> ~`.
    Number { tens: char, ones: char },
}

/// What a key sends while the control modifier is held.
#[derive(Clone, Copy, Debug, PartialEq, Eq, Structural)]
pub enum Control {
    /// Nothing of its own: the key leaves the control slots as they are, which
    /// in a fresh ROM is the NUL byte.
    Absent,
    /// A code of its own.
    Explicit(Code),
    /// Whatever the key sends without the control modifier.
    Similar,
}

/// One key of the table.
#[derive(Clone, Copy, Debug, PartialEq, Eq, Structural)]
pub struct Key {
    pub extended: bool,
    pub scan_code: u8,
    pub num_lock_override: Option<char>,
    pub normal: Code,
    pub shift: Code,
    pub control: Control,
}

/// The low eight bits of a character's code point.
pub open spec fn low_byte(c: char) -> u8 {
    (c as u32 & 0xff) as u8
}

/// The low eight bits of a character's code point.
pub fn char_byte(c: char) -> (b: u8)
    ensures
        b == low_byte(c),
        c as u32 <= 0xff ==> b as u32 == c as u32,
{
    let v: u32 = c as u32;
    assert(v <= 0xff ==> v & 0xff == v) by (bit_vector);
    (v & 0xff) as u8
}

impl Code {
    /// The values that the table grammar can produce: an ASCII character, an
    /// upper-case letter, two decimal digits of which the first is at most 3.
    pub open spec fn wf(self) -> bool {
        match self {
            Code::Basic { character } => character as u32 <= 0x7f,
            Code::Letter { control, letter } => 'A' <= letter <= 'Z',
            Code::Number { tens, ones } => '0' <= tens <= '3' && '0' <= ones <= '9',
        }
    }

    pub open spec fn spec_can_caps_lock(self) -> bool {
        match self {
            Code::Basic { character } => 'a' <= character <= 'z',
            _ => false,
        }
    }

    /// The byte that stands for this code in the ROM.
    pub open spec fn spec_encode(self) -> u8 {
        match self {
            Code::Basic { character } => low_byte(character),
            Code::Letter { control, letter } => {
                if control {
                    ENCODE_ESCAPE | (low_byte(letter) & ENCODE_LETTER_MASK)
                } else {
                    ENCODE_ESCAPE | ENCODE_NOT_CONTROL | (low_byte(letter) & ENCODE_LETTER_MASK)
                }
            },
            Code::Number { tens, ones } => {
                ENCODE_ESCAPE | ENCODE_NUMBER | ((low_byte(tens) << ENCODE_TENS_SHIFT)
                    & ENCODE_TENS_MASK) | (low_byte(ones) & ENCODE_ONES_MASK)
            },
        }
    }

    /// Whether caps lock exchanges what the key sends with and without shift:
    /// only for a lower-case ASCII letter.
    pub fn can_caps_lock(&self) -> (r: bool)
        ensures
            r == self.spec_can_caps_lock(),
    {
        match self {
            Code::Basic { character } => 'a' <= *character && *character <= 'z',
            _ => false,
        }
    }

    /// Encodes the code in one byte.
    pub fn encode(&self) -> (byte: u8)
        ensures
            byte == self.spec_encode(),
    {
        match self {
            Code::Basic { character } => char_byte(*character),
            Code::Letter { control, letter } => {
                let letter: u8 = char_byte(*letter) & ENCODE_LETTER_MASK;
                if *control {
                    ENCODE_ESCAPE | letter
                } else {
                    ENCODE_ESCAPE | ENCODE_NOT_CONTROL | letter
                }
            },
            Code::Number { tens, ones } => {
                let tens: u8 = (char_byte(*tens) << ENCODE_TENS_SHIFT) & ENCODE_TENS_MASK;
                let ones: u8 = char_byte(*ones) & ENCODE_ONES_MASK;
                ENCODE_ESCAPE | ENCODE_NUMBER | tens | ones
            },
        }
    }
}

impl Control {
    /// Whether a code of its own, if there is one, is well formed.
    pub open spec fn wf(self) -> bool {
        match self {
            Control::Explicit(code) => code.wf(),
            _ => true,
        }
    }
}

impl Key {
    /// Whether all codes of the key are well formed.
    pub open spec fn wf(self) -> bool {
        self.normal.wf() && self.shift.wf() && self.control.wf()
    }
}

/// The code that a ROM byte stands for.
pub open spec fn decode(byte: u8) -> Code {
    if byte & ENCODE_ESCAPE == 0 {
        Code::Basic { character: byte as char }
    } else if byte & ENCODE_NUMBER == 0 {
        Code::Letter {
            control: byte & ENCODE_NOT_CONTROL == 0,
            letter: (0x40u8 | (byte & ENCODE_LETTER_MASK)) as char,
        }
    } else {
        Code::Number {
            tens: (0x30u8 | ((byte & ENCODE_TENS_MASK) >> ENCODE_TENS_SHIFT)) as char,
            ones: (0x30u8 | (byte & ENCODE_ONES_MASK)) as char,
        }
    }
}

/// A character below 256 is its own low byte.
pub proof fn lemma_low_byte(c: char)
    requires
        c as u32 <= 0xff,
    ensures
        low_byte(c) as u32 == c as u32,
        low_byte(c) as char == c,
{
    let v: u32 = c as u32;
    assert(v <= 0xff ==> v & 0xff == v) by (bit_vector);
}

/// An ASCII character is encoded as itself, with the top bit clear, and read
/// back from its byte unchanged.
pub proof fn lemma_basic_round_trip(character: char)
    requires
        character as u32 <= 0x7f,
    ensures
        (Code::Basic { character }).spec_encode() as u32 == character as u32,
        (Code::Basic { character }).spec_encode() & ENCODE_ESCAPE == 0,
        decode((Code::Basic { character }).spec_encode()) == (Code::Basic { character }),
{
    lemma_low_byte(character);
    let b: u8 = low_byte(character);
    assert(b <= 0x7f ==> b & 0x80 == 0) by (bit_vector);
}

/// Decoding the byte of a well-formed code gives the code back.
pub proof fn lemma_decode_encode(code: Code)
    requires
        code.wf(),
    ensures
        decode(code.spec_encode()) == code,
{
    match code {
        Code::Basic { character } => {
            lemma_basic_round_trip(character);
        },
        Code::Letter { control, letter } => {
            lemma_low_byte(letter);
            let l: u8 = low_byte(letter);
            assert(0x41 <= l <= 0x5a ==> {
                &&& (0x80u8 | (l & 0x1f)) & 0x80 != 0
                &&& (0x80u8 | (l & 0x1f)) & 0x40 == 0
                &&& (0x80u8 | (l & 0x1f)) & 0x20 == 0
                &&& 0x40u8 | ((0x80u8 | (l & 0x1f)) & 0x1f) == l
                &&& (0x80u8 | 0x20 | (l & 0x1f)) & 0x80 != 0
                &&& (0x80u8 | 0x20 | (l & 0x1f)) & 0x40 == 0
                &&& (0x80u8 | 0x20 | (l & 0x1f)) & 0x20 != 0
                &&& 0x40u8 | ((0x80u8 | 0x20 | (l & 0x1f)) & 0x1f) == l
            }) by (bit_vector);
        },
        Code::Number { tens, ones } => {
            lemma_low_byte(tens);
            lemma_low_byte(ones);
            let t: u8 = low_byte(tens);
            let o: u8 = low_byte(ones);
            assert(0x30 <= t <= 0x33 && 0x30 <= o <= 0x39 ==> {
                let b = 0x80u8 | 0x40 | ((t << 4u8) & 0x30) | (o & 0x0f);
                &&& b & 0x80 != 0
                &&& b & 0x40 != 0
                &&& 0x30u8 | ((b & 0x30) >> 4u8) == t
                &&& 0x30u8 | (b & 0x0f) == o
            }) by (bit_vector);
        },
    }
}

/// Two well-formed codes with the same byte are the same code.
pub proof fn lemma_encode_injective(a: Code, b: Code)
    requires
        a.wf(),
        b.wf(),
        a.spec_encode() == b.spec_encode(),
    ensures
        a == b,
{
    lemma_decode_encode(a);
    lemma_decode_encode(b);
}

} // verus!
