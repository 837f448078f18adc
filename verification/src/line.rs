//! The grammar of a line of the scan-code table, and its parser.

use vstd::prelude::*;
use crate::code::{char_byte, Code, Control, Key};
use crate::keys::{inserted, keys_wf, lemma_position, lookup, Entries, KeyTable};
use crate::text::{
    after_prefix, digit, digit_value, equals, skip_spaces, split_at_gap, split_gap, strip_prefix,
    lemma_find_gap, lemma_trim, to_chars, to_string, trim, trim_spaces, trim_start,
};

verus! {

/// The codes of a key's line.
#[derive(Clone, Copy, Debug, PartialEq, Eq, Structural)]
pub enum CodeField {
    Normal,
    Shift,
    Control,
}

/// What a line ends before.
#[derive(Clone, Copy, Debug, PartialEq, Eq, Structural)]
pub enum Missing {
    /// The scan code, after the name.
    ScanCode,
    /// The codes, after the scan code or after the `NUM=` field.
    Codes,
    /// The shift code, after the normal code.
    ShiftCode,
}

/// Why a line of the table is refused.
#[derive(Debug, PartialEq, Eq)]
pub enum ParseError {
    /// The line ends where a two-space separator and a further field must follow.
    MalformedLine { missing: Missing },
    /// The scan code is not two hexadecimal digits, with or without `E0 ` before them.
    InvalidScanCode,
    /// What follows `NUM=` is not a single character.
    InvalidNumLock,
    /// A code of the key called `name` is written in no form that the grammar knows.
    InvalidCode { field: CodeField, name: String },
    /// The line refers to a key called `name`, and no earlier line declares one.
    UnknownKeyReference { name: String },
    /// The line declares a key called `name`, and so does an earlier line. No
    /// line by itself is refused for this: only the reading of a table whose
    /// names must be unique is.
    DuplicateKey { name: String },
}

/// A `ParseError` with its names as character sequences.
pub enum ParseErrorView {
    MalformedLine { missing: Missing },
    InvalidScanCode,
    InvalidNumLock,
    InvalidCode { field: CodeField, name: Seq<char> },
    UnknownKeyReference { name: Seq<char> },
    DuplicateKey { name: Seq<char> },
}

impl View for ParseError {
    type V = ParseErrorView;

    open spec fn view(&self) -> ParseErrorView {
        match *self {
            ParseError::MalformedLine { missing } => ParseErrorView::MalformedLine { missing },
            ParseError::InvalidScanCode => ParseErrorView::InvalidScanCode,
            ParseError::InvalidNumLock => ParseErrorView::InvalidNumLock,
            ParseError::InvalidCode { field, name } => ParseErrorView::InvalidCode {
                field,
                name: name@,
            },
            ParseError::UnknownKeyReference { name } => ParseErrorView::UnknownKeyReference {
                name: name@,
            },
            ParseError::DuplicateKey { name } => ParseErrorView::DuplicateKey { name: name@ },
        }
    }
}

/// Whether `c` is an upper-case ASCII letter.
pub open spec fn is_upper(c: char) -> bool {
    'A' <= c <= 'Z'
}

/// Whether `c` is an ASCII decimal digit.
pub open spec fn is_digit(c: char) -> bool {
    '0' <= c <= '9'
}

/// The control character that `^` followed by `c` names: `@` is NUL, the
/// letters follow, `_` is the last.
pub open spec fn caret_code(c: char) -> Option<Code> {
    if '@' <= c <= '_' {
        Some(Code::Basic { character: (c as u32 - 0x40) as char })
    } else {
        None
    }
}

/// The escape sequence that `t` names, `t` being what follows `^[`.
pub open spec fn escape_code(t: Seq<char>) -> Option<Code> {
    if t.len() == 2 && t[0] == 'O' && is_upper(t[1]) {
        Some(Code::Letter { control: true, letter: t[1] })
    } else if t.len() == 2 && t[0] == '[' && is_upper(t[1]) {
        Some(Code::Letter { control: false, letter: t[1] })
    } else if t.len() == 3 && t[0] == '[' && is_digit(t[1]) && t[2] == '~' {
        Some(Code::Number { tens: '0', ones: t[1] })
    } else if t.len() == 4 && t[0] == '[' && is_digit(t[1]) && t[1] <= '3' && is_digit(t[2])
        && t[3] == '~' {
        Some(Code::Number { tens: t[1], ones: t[2] })
    } else {
        None
    }
}

/// The code that a field of the table names, if it names one.
///
/// A field is one of the words `TAB`, `ENTER`, `BACKSPACE` and `SPACE`; a
/// single printable ASCII character; `^` and a character from `@` to `_`; or
/// `^[` and an escape sequence.
pub open spec fn spec_read_code(s: Seq<char>) -> Option<Code> {
    if s == "TAB"@ {
        Some(Code::Basic { character: '\t' })
    } else if s == "ENTER"@ {
        Some(Code::Basic { character: '\n' })
    } else if s == "BACKSPACE"@ {
        Some(Code::Basic { character: '\x7f' })
    } else if s == "SPACE"@ {
        Some(Code::Basic { character: ' ' })
    } else if s.len() == 1 {
        if ' ' <= s[0] <= '~' {
            Some(Code::Basic { character: s[0] })
        } else {
            None
        }
    } else if s.len() == 2 && s[0] == '^' {
        caret_code(s[1])
    } else if s.len() > 2 && s[0] == '^' && s[1] == '[' {
        escape_code(s.skip(2))
    } else {
        None
    }
}

/// Every code that the grammar yields is well formed.
pub proof fn lemma_read_code_wf(s: Seq<char>)
    ensures
        spec_read_code(s) matches Some(code) ==> code.wf(),
{
}

/// Reads one field of the table as a code; `None` where it names none.
pub fn parse_code(s: &[char]) -> (r: Option<Code>)
    ensures
        r == spec_read_code(s@),
{
    if equals(s, "TAB") {
        return Some(Code::Basic { character: '\t' });
    }
    if equals(s, "ENTER") {
        return Some(Code::Basic { character: '\n' });
    }
    if equals(s, "BACKSPACE") {
        return Some(Code::Basic { character: '\x7f' });
    }
    if equals(s, "SPACE") {
        return Some(Code::Basic { character: ' ' });
    }
    let n: usize = s.len();
    if n == 0 {
        return None;
    }
    if n == 1 {
        let c: char = s[0];
        if ' ' <= c && c <= '~' {
            return Some(Code::Basic { character: c });
        }
        return None;
    }
    if s[0] != '^' {
        return None;
    }
    if n == 2 {
        let c: char = s[1];
        if '@' <= c && c <= '_' {
            let b: u8 = char_byte(c) - 0x40;
            return Some(Code::Basic { character: b as char });
        }
        return None;
    }
    if s[1] != '[' {
        return None;
    }
    if n == 4 && s[2] == 'O' && 'A' <= s[3] && s[3] <= 'Z' {
        return Some(Code::Letter { control: true, letter: s[3] });
    }
    if s[2] != '[' {
        return None;
    }
    if n == 4 && 'A' <= s[3] && s[3] <= 'Z' {
        return Some(Code::Letter { control: false, letter: s[3] });
    }
    if n == 5 && '0' <= s[3] && s[3] <= '9' && s[4] == '~' {
        return Some(Code::Number { tens: '0', ones: s[3] });
    }
    if n == 6 && '0' <= s[3] && s[3] <= '3' && '0' <= s[4] && s[4] <= '9' && s[5] == '~' {
        return Some(Code::Number { tens: s[3], ones: s[4] });
    }
    None
}

/// The extended flag and the scan code that a scan-code field writes: two
/// hexadecimal digits, after `E0 ` for an extended key.
pub open spec fn spec_scan_code(s: Seq<char>) -> Option<(bool, u8)> {
    let (extended, digits) = match strip_prefix(s, "E0 "@) {
        Some(rest) => (true, rest),
        None => (false, s),
    };
    if digits.len() == 2 {
        match (digit_value(digits[0], 16), digit_value(digits[1], 16)) {
            (Some(high), Some(low)) => Some((extended, (high * 16 + low) as u8)),
            _ => None,
        }
    } else {
        None
    }
}

/// The num-lock override that the rest of a line starts with, and what
/// follows it: `NUM=`, one character, and the separator.
pub open spec fn spec_num_lock(rest: Seq<char>) -> Result<(Option<char>, Seq<char>), ParseErrorView> {
    match strip_prefix(rest, "NUM="@) {
        None => Ok((None, rest)),
        Some(field) => match split_gap(field) {
            None => Err(ParseErrorView::MalformedLine { missing: Missing::Codes }),
            Some((character, rest)) => if character.len() == 1 {
                Ok((Some(character[0]), trim_start(rest)))
            } else {
                Err(ParseErrorView::InvalidNumLock)
            },
        },
    }
}

/// The shift code that a field writes: `...` repeats the normal code.
pub open spec fn spec_shift_code(field: Seq<char>, normal: Code) -> Option<Code> {
    if field == "..."@ {
        Some(normal)
    } else {
        spec_read_code(field)
    }
}

/// The control code that a field writes: none where the field is empty, `...`
/// for the codes that the key has without control.
pub open spec fn spec_control_code(field: Seq<char>) -> Option<Control> {
    if field.len() == 0 {
        Some(Control::Absent)
    } else if field == "..."@ {
        Some(Control::Similar)
    } else {
        match spec_read_code(field) {
            Some(code) => Some(Control::Explicit(code)),
            None => None,
        }
    }
}

/// The codes that the key called `name` writes out itself: the normal code,
/// the shift code, and the control code if there is one.
pub open spec fn spec_own_codes(rest: Seq<char>, name: Seq<char>) -> Result<
    (Code, Code, Control),
    ParseErrorView,
> {
    match split_gap(rest) {
        None => Err(ParseErrorView::MalformedLine { missing: Missing::ShiftCode }),
        Some((normal_field, rest)) => match spec_read_code(normal_field) {
            None => Err(ParseErrorView::InvalidCode { field: CodeField::Normal, name }),
            Some(normal) => {
                let rest = trim_start(rest);
                let (shift_field, control_field) = match split_gap(rest) {
                    Some((field, rest)) => (field, trim_start(rest)),
                    None => (rest, Seq::<char>::empty()),
                };
                match spec_shift_code(shift_field, normal) {
                    None => Err(ParseErrorView::InvalidCode { field: CodeField::Shift, name }),
                    Some(shift) => match spec_control_code(control_field) {
                        None => Err(
                            ParseErrorView::InvalidCode { field: CodeField::Control, name },
                        ),
                        Some(control) => Ok((normal, shift, control)),
                    },
                }
            },
        },
    }
}

/// The codes of the key called `name`: those of the key that the line refers
/// to with `-> `, which must be among `keys`, or those that it writes out.
pub open spec fn spec_codes(rest: Seq<char>, name: Seq<char>, keys: Entries) -> Result<
    (Code, Code, Control),
    ParseErrorView,
> {
    match strip_prefix(rest, "-> "@) {
        Some(other) => match lookup(keys, other) {
            Some(key) => Ok((key.normal, key.shift, key.control)),
            None => Err(ParseErrorView::UnknownKeyReference { name: other }),
        },
        None => spec_own_codes(rest, name),
    }
}

/// The name and the key that a line of the table declares, given the keys
/// declared before it.
///
/// The fields of a line are its name, its scan code, an optional num-lock
/// override and its codes. Two spaces end a field; further spaces before the
/// next field, and spaces at either end of the line, do not count.
pub open spec fn spec_read_key(line: Seq<char>, keys: Entries) -> Result<
    (Seq<char>, Key),
    ParseErrorView,
> {
    match split_gap(trim(line)) {
        None => Err(ParseErrorView::MalformedLine { missing: Missing::ScanCode }),
        Some((name, rest)) => match split_gap(trim_start(rest)) {
            None => Err(ParseErrorView::MalformedLine { missing: Missing::Codes }),
            Some((scan_field, rest)) => match spec_scan_code(scan_field) {
                None => Err(ParseErrorView::InvalidScanCode),
                Some((extended, scan_code)) => match spec_num_lock(trim_start(rest)) {
                    Err(e) => Err(e),
                    Ok((num_lock_override, rest)) => match spec_codes(rest, name, keys) {
                        Err(e) => Err(e),
                        Ok((normal, shift, control)) => Ok(
                            (
                                name,
                                Key {
                                    extended,
                                    scan_code,
                                    num_lock_override,
                                    normal,
                                    shift,
                                    control,
                                },
                            ),
                        ),
                    },
                },
            },
        },
    }
}

/// A line declares a well-formed key, where the keys declared before it are
/// well formed.
pub proof fn lemma_read_key_wf(line: Seq<char>, keys: Entries)
    requires
        keys_wf(keys),
    ensures
        spec_read_key(line, keys) matches Ok((name, key)) ==> key.wf() && keys_wf(
            inserted(keys, name, key),
        ),
{
    if let Ok((name, key)) = spec_read_key(line, keys) {
        let (_, rest) = split_gap(trim(line)).unwrap();
        let (_, rest) = split_gap(trim_start(rest)).unwrap();
        let rest = match spec_num_lock(trim_start(rest)) {
            Ok((_, rest)) => rest,
            Err(_) => rest,
        };
        match strip_prefix(rest, "-> "@) {
            Some(other) => {
                lemma_position(keys, other);
            },
            None => {
                let (normal_field, rest) = split_gap(rest).unwrap();
                let rest = trim_start(rest);
                let (shift_field, control_field) = match split_gap(rest) {
                    Some((field, rest)) => (field, trim_start(rest)),
                    None => (rest, Seq::<char>::empty()),
                };
                lemma_read_code_wf(normal_field);
                lemma_read_code_wf(shift_field);
                lemma_read_code_wf(control_field);
            },
        }
        lemma_position(keys, name);
    }
}

/// The name that a line declares is not empty, and does not start with a
/// space.
pub proof fn lemma_read_key_name(line: Seq<char>, keys: Entries)
    ensures
        spec_read_key(line, keys) matches Ok((name, _)) ==> name.len() > 0 && name[0] != ' ',
{
    lemma_trim(line);
    lemma_find_gap(trim(line));
}

/// No line by itself is refused as a duplicate.
pub proof fn lemma_read_key_not_duplicate(line: Seq<char>, keys: Entries)
    ensures
        spec_read_key(line, keys) matches Err(e) ==> !(e is DuplicateKey),
{
}

/// Whether a result of the parser is the one that the grammar gives.
pub open spec fn key_result_is(
    r: Result<(String, Key), ParseError>,
    expected: Result<(Seq<char>, Key), ParseErrorView>,
) -> bool {
    match r {
        Ok((name, key)) => expected == Ok::<(Seq<char>, Key), ParseErrorView>((name@, key)),
        Err(e) => expected == Err::<(Seq<char>, Key), ParseErrorView>(e@),
    }
}

fn parse_scan_code(s: &[char]) -> (r: Option<(bool, u8)>)
    ensures
        r == spec_scan_code(s@),
{
    let (extended, digits) = match after_prefix(s, "E0 ") {
        Some(rest) => (true, rest),
        None => (false, s),
    };
    if digits.len() != 2 {
        return None;
    }
    match digit(digits[0], 16) {
        Some(high) => match digit(digits[1], 16) {
            Some(low) => Some((extended, high * 16 + low)),
            None => None,
        },
        None => None,
    }
}

fn parse_num_lock<'a>(rest: &'a [char]) -> (r: Result<(Option<char>, &'a [char]), ParseError>)
    ensures
        match r {
            Ok((c, rest_after)) => spec_num_lock(rest@) == Ok::<
                (Option<char>, Seq<char>),
                ParseErrorView,
            >((c, rest_after@)),
            Err(e) => spec_num_lock(rest@) == Err::<(Option<char>, Seq<char>), ParseErrorView>(e@),
        },
{
    match after_prefix(rest, "NUM=") {
        None => Ok((None, rest)),
        Some(field) => match split_at_gap(field) {
            None => Err(ParseError::MalformedLine { missing: Missing::Codes }),
            Some((character, rest)) => {
                if character.len() == 1 {
                    Ok((Some(character[0]), skip_spaces(rest)))
                } else {
                    Err(ParseError::InvalidNumLock)
                }
            },
        },
    }
}

fn parse_own_codes(rest: &[char], name: &[char]) -> (r: Result<(Code, Code, Control), ParseError>)
    ensures
        match r {
            Ok(codes) => spec_own_codes(rest@, name@) == Ok::<(Code, Code, Control), ParseErrorView>(
                codes,
            ),
            Err(e) => spec_own_codes(rest@, name@) == Err::<(Code, Code, Control), ParseErrorView>(
                e@,
            ),
        },
{
    let (normal_field, rest) = match split_at_gap(rest) {
        Some(parts) => parts,
        None => {
            return Err(ParseError::MalformedLine { missing: Missing::ShiftCode });
        },
    };
    let normal = match parse_code(normal_field) {
        Some(code) => code,
        None => {
            return Err(ParseError::InvalidCode { field: CodeField::Normal, name: to_string(name) });
        },
    };
    let rest = skip_spaces(rest);
    let nothing: &[char] = &[];
    let (shift_field, control_field) = match split_at_gap(rest) {
        Some((field, rest)) => (field, skip_spaces(rest)),
        None => (rest, nothing),
    };
    let shift = if equals(shift_field, "...") {
        normal
    } else {
        match parse_code(shift_field) {
            Some(code) => code,
            None => {
                return Err(
                    ParseError::InvalidCode { field: CodeField::Shift, name: to_string(name) },
                );
            },
        }
    };
    let control = if control_field.len() == 0 {
        Control::Absent
    } else if equals(control_field, "...") {
        Control::Similar
    } else {
        match parse_code(control_field) {
            Some(code) => Control::Explicit(code),
            None => {
                return Err(
                    ParseError::InvalidCode { field: CodeField::Control, name: to_string(name) },
                );
            },
        }
    };
    Ok((normal, shift, control))
}

/// Reads one line of the table, given as characters.
pub fn parse_key(line: &[char], keys: &KeyTable) -> (r: Result<(String, Key), ParseError>)
    ensures
        key_result_is(r, spec_read_key(line@, keys@)),
{
    let (name, rest) = match split_at_gap(trim_spaces(line)) {
        Some(parts) => parts,
        None => {
            return Err(ParseError::MalformedLine { missing: Missing::ScanCode });
        },
    };
    let (scan_field, rest) = match split_at_gap(skip_spaces(rest)) {
        Some(parts) => parts,
        None => {
            return Err(ParseError::MalformedLine { missing: Missing::Codes });
        },
    };
    let (extended, scan_code) = match parse_scan_code(scan_field) {
        Some(parts) => parts,
        None => {
            return Err(ParseError::InvalidScanCode);
        },
    };
    let (num_lock_override, rest) = match parse_num_lock(skip_spaces(rest)) {
        Ok(parts) => parts,
        Err(e) => {
            return Err(e);
        },
    };
    let (normal, shift, control) = match after_prefix(rest, "-> ") {
        Some(other) => match keys.get_chars(other) {
            Some(key) => (key.normal, key.shift, key.control),
            None => {
                return Err(ParseError::UnknownKeyReference { name: to_string(other) });
            },
        },
        None => match parse_own_codes(rest, name) {
            Ok(codes) => codes,
            Err(e) => {
                return Err(e);
            },
        },
    };
    Ok((to_string(name), Key { extended, scan_code, num_lock_override, normal, shift, control }))
}

/// Reads one line of the table: the name and the key that it declares, given
/// the keys declared before it.
pub fn read_key(line: &str, keys: &KeyTable) -> (r: Result<(String, Key), ParseError>)
    ensures
        key_result_is(r, spec_read_key(line@, keys@)),
{
    let chars = to_chars(line);
    parse_key(chars.as_slice(), keys)
}

/// Reads one field of the table as a code; `None` where it names none.
pub fn read_code(code: &str) -> (r: Option<Code>)
    ensures
        r == spec_read_code(code@),
{
    let chars = to_chars(code);
    parse_code(chars.as_slice())
}

} // verus!
