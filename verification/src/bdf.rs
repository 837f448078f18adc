//! Bitmap fonts in the BDF text format.

use std::collections::HashMap;
use vstd::prelude::*;
use crate::text::{
    byte_len, byte_length, equals, lines, lines_view, parse_unsigned, spec_parse_unsigned,
    split_at_char, split_char, split_lines, starts_with, strip_prefix, after_prefix, to_chars,
};

verus! {

/// The bitmap of one character: a row of pixels in the low `width` bits of
/// each entry of `rows`, top row first.
#[derive(Debug)]
pub struct Glyph {
    pub height: usize,
    pub width: usize,
    pub rows: Vec<usize>,
}

/// A font: the glyphs of its characters by code point, and the blank glyph
/// that stands for every other character.
#[derive(Debug)]
pub struct Font {
    pub height: usize,
    pub width: usize,
    pub glyphs: HashMap<usize, Glyph>,
    pub blank: Glyph,
}

/// A glyph with its rows as a sequence.
pub struct GlyphView {
    pub height: usize,
    pub width: usize,
    pub rows: Seq<usize>,
}

/// A font with its glyphs as a map.
pub struct FontView {
    pub height: usize,
    pub width: usize,
    pub glyphs: Map<usize, GlyphView>,
    pub blank: GlyphView,
}

impl View for Glyph {
    type V = GlyphView;

    open spec fn view(&self) -> GlyphView {
        GlyphView { height: self.height, width: self.width, rows: self.rows@ }
    }
}

/// The glyphs of a map, each as its view.
pub open spec fn glyph_views(glyphs: Map<usize, Glyph>) -> Map<usize, GlyphView> {
    glyphs.map_values(|g: Glyph| g@)
}

impl View for Font {
    type V = FontView;

    open spec fn view(&self) -> FontView {
        FontView {
            height: self.height,
            width: self.width,
            glyphs: glyph_views(self.glyphs@),
            blank: self.blank@,
        }
    }
}

impl Clone for Glyph {
    fn clone(&self) -> (copy: Glyph)
        ensures
            copy@ == self@,
    {
        let n: usize = self.rows.len();
        let mut rows: Vec<usize> = Vec::new();
        let mut i: usize = 0;
        while i < n
            invariant
                i <= n,
                n == self.rows@.len(),
                rows@ =~= self.rows@.take(i as int),
            decreases n - i,
        {
            rows.push(self.rows[i]);
            i += 1;
        }
        assert(self.rows@.take(n as int) =~= self.rows@);
        Glyph { height: self.height, width: self.width, rows }
    }
}

/// The pixels of a row that a glyph of the given width keeps.
pub open spec fn row_mask(width: usize) -> usize {
    ((1usize << width) - 1) as usize
}

/// The rows of a glyph of the given size made from `rows`: cut or filled up
/// with empty rows to the height, each row cut to the width.
pub open spec fn fitted_rows(rows: Seq<usize>, height: usize, width: usize) -> Seq<usize> {
    Seq::new(
        height as nat,
        |i: int|
            if i < rows.len() {
                rows[i] & row_mask(width)
            } else {
                0
            },
    )
}

impl Font {
    /// Puts a glyph of the font's size, made from `rows`, at `index`. The
    /// font must be narrower than a machine word.
    pub fn glyph_add(&mut self, index: usize, rows: Vec<usize>)
        requires
            old(self).width < usize::BITS,
        ensures
            final(self)@ == (FontView {
                glyphs: old(self)@.glyphs.insert(
                    index,
                    GlyphView {
                        height: old(self).height,
                        width: old(self).width,
                        rows: fitted_rows(rows@, old(self).height, old(self).width),
                    },
                ),
                ..old(self)@
            }),
            old(self)@.wf() ==> final(self)@.wf(),
    {
        let mut rows = rows;
        let ghost given = rows@;
        rows.resize(self.height, 0);
        let width: usize = self.width;
        assert((1usize << width) >= 1) by (bit_vector)
            requires
                width < usize::BITS,
        ;
        let mask: usize = (1usize << width) - 1;
        assert(0usize & mask == 0) by (bit_vector);
        let n: usize = rows.len();
        let mut i: usize = 0;
        while i < n
            invariant
                i <= n,
                n == rows@.len(),
                n == self.height,
                mask == row_mask(self.width),
                0usize & mask == 0,
                forall|j: int| 0 <= j < i ==> rows@[j] == fitted_rows(given, self.height, self.width)[j],
                forall|j: int|
                    i <= j < n ==> rows@[j] == if j < given.len() {
                        given[j]
                    } else {
                        0
                    },
            decreases n - i,
        {
            let row: usize = rows[i];
            rows[i] = row & mask;
            i += 1;
        }
        assert(rows@ =~= fitted_rows(given, self.height, self.width));
        let glyph = Glyph { width: self.width, height: self.height, rows };
        self.glyphs.insert(index, glyph);
        assert(final(self)@.glyphs =~= old(self)@.glyphs.insert(index, glyph@));
    }

    /// Puts a copy of the glyph at `from`, if there is one, at `to`.
    pub fn glyph_copy(&mut self, from: usize, to: usize)
        ensures
            final(self)@ == (FontView {
                glyphs: if old(self)@.glyphs.contains_key(from) {
                    old(self)@.glyphs.insert(to, old(self)@.glyphs[from])
                } else {
                    old(self)@.glyphs
                },
                ..old(self)@
            }),
            old(self)@.wf() ==> final(self)@.wf(),
    {
        let copy: Option<Glyph> = match self.glyphs.get(&from) {
            Some(glyph) => Some(glyph.clone()),
            None => None,
        };
        if let Some(glyph) = copy {
            self.glyphs.insert(to, glyph);
            assert(final(self)@.glyphs =~= old(self)@.glyphs.insert(to, old(self)@.glyphs[from]));
        } else {
        }
    }

    /// The glyph at `index`.
    pub fn glyph(&self, index: usize) -> (r: Option<&Glyph>)
        ensures
            match r {
                Some(glyph) => self@.glyphs.contains_key(index) && self@.glyphs[index] == glyph@,
                None => !self@.glyphs.contains_key(index),
            },
    {
        self.glyphs.get(&index)
    }

    /// The glyph at `index`, or the blank glyph where there is none.
    pub fn glyph_or_blank(&self, index: usize) -> (glyph: &Glyph)
        ensures
            glyph@ == if self@.glyphs.contains_key(index) {
                self@.glyphs[index]
            } else {
                self@.blank
            },
    {
        if let Some(glyph) = self.glyphs.get(&index) {
            glyph
        } else {
            &self.blank
        }
    }
}

/// The part of a size that is wrong.
#[derive(Clone, Copy, Debug, PartialEq, Eq, Structural)]
pub enum SizePart {
    Width,
    Height,
}

/// Why a font is refused.
#[derive(Clone, Copy, Debug, PartialEq, Eq, Structural)]
pub enum BdfError {
    /// The text ends where a further line must follow.
    UnexpectedEof,
    /// The first line is not `STARTFONT 2.1`.
    ExpectedStartFont,
    /// A line that must hold a keyword and its values holds no space.
    ExpectedProperty,
    /// `CHARS` comes before any `FONTBOUNDINGBOX`.
    MissingFontBoundingBox,
    /// A part of the size after `FONTBOUNDINGBOX` is missing or is no number.
    InvalidFontBoundingBox { part: SizePart },
    /// A line between two characters is not `STARTCHAR` and a code point.
    ExpectedStartChar,
    /// The code point after `STARTCHAR` does not start with `U+`.
    ExpectedCodePoint,
    /// The code point is no hexadecimal number of 32 bits.
    InvalidCodePoint,
    /// `BITMAP` comes before any `BBX` of the character.
    MissingBbx,
    /// A part of the size after `BBX` is missing or is no number.
    InvalidBbx { part: SizePart },
    /// A line of a bitmap holds more bits than a row can.
    BitmapTooWide,
    /// A line of a bitmap holds fewer bits than the character is wide.
    BitmapTooNarrow,
    /// A line of a bitmap is no hexadecimal number.
    InvalidBitmap,
    /// The line after the last row of a bitmap does not start with `ENDCHAR`.
    ExpectedEndChar,
}

/// The width and the height that the values of a size keyword write: two
/// decimal numbers, each ended by a space or by the end of the values.
pub open spec fn spec_size(values: Seq<char>) -> Result<(usize, usize), SizePart> {
    match split_char(values, ' ') {
        None => match spec_parse_unsigned(values, 10, usize::MAX as int) {
            None => Err(SizePart::Width),
            Some(_) => Err(SizePart::Height),
        },
        Some((first, rest)) => match spec_parse_unsigned(first, 10, usize::MAX as int) {
            None => Err(SizePart::Width),
            Some(width) => {
                let second = match split_char(rest, ' ') {
                    Some((second, _)) => second,
                    None => rest,
                };
                match spec_parse_unsigned(second, 10, usize::MAX as int) {
                    None => Err(SizePart::Height),
                    Some(height) => Ok((width as usize, height as usize)),
                }
            },
        },
    }
}

/// `value` moved right by `n` bits; nothing is left of it from the width of
/// a row on.
pub open spec fn shifted(value: usize, n: int) -> usize {
    if n >= usize::BITS {
        0
    } else {
        value >> (n as usize)
    }
}

/// The row that a line of a bitmap writes for a character of the given
/// width: a hexadecimal number of four bits for each byte of the line, of
/// which the highest `width` bits are the row.
pub open spec fn spec_bitmap_row(line: Seq<char>, width: usize) -> Result<usize, BdfError> {
    let wide = 4 * byte_len(line);
    if wide > usize::BITS {
        Err(BdfError::BitmapTooWide)
    } else if wide < width {
        Err(BdfError::BitmapTooNarrow)
    } else {
        match spec_parse_unsigned(line, 16, usize::MAX as int) {
            None => Err(BdfError::InvalidBitmap),
            Some(value) => Ok(shifted(value as usize, wide - width)),
        }
    }
}

/// The code point that the line of a character starts it with: `STARTCHAR`,
/// a space, `U+` and a hexadecimal number of 32 bits.
pub open spec fn spec_start_char(line: Seq<char>) -> Result<usize, BdfError> {
    match split_char(line, ' ') {
        None => Err(BdfError::ExpectedStartChar),
        Some((keyword, code_point)) => if keyword != "STARTCHAR"@ {
            Err(BdfError::ExpectedStartChar)
        } else {
            match strip_prefix(code_point, "U+"@) {
                None => Err(BdfError::ExpectedCodePoint),
                Some(digits) => match spec_parse_unsigned(digits, 16, u32::MAX as int) {
                    None => Err(BdfError::InvalidCodePoint),
                    Some(code) => Ok(code as usize),
                },
            }
        },
    }
}

/// The blank glyph of a size.
pub open spec fn blank_glyph(size: (usize, usize)) -> GlyphView {
    GlyphView { width: size.0, height: size.1, rows: Seq::new(size.1 as nat, |i: int| 0usize) }
}

/// The font of a size and its glyphs.
pub open spec fn font_view(size: (usize, usize), glyphs: Map<usize, GlyphView>) -> FontView {
    FontView { width: size.0, height: size.1, glyphs, blank: blank_glyph(size) }
}

/// The font that the lines from line `i` on describe, where line `i` is a
/// line of a bitmap or the line after it: `rows` are the rows read so far of
/// the character `code`, which is `width` wide and `height` high.
pub open spec fn spec_bitmap(
    all: Seq<Seq<char>>,
    i: int,
    size: (usize, usize),
    glyphs: Map<usize, GlyphView>,
    code: usize,
    width: usize,
    height: usize,
    rows: Seq<usize>,
) -> Result<FontView, BdfError>
    decreases all.len() - i, 0int,
{
    if !(0 <= i < all.len()) {
        Err(BdfError::UnexpectedEof)
    } else if rows.len() >= height {
        if "ENDCHAR"@.is_prefix_of(all[i]) {
            spec_chars(all, i + 1, size, glyphs.insert(code, GlyphView { width, height, rows }))
        } else {
            Err(BdfError::ExpectedEndChar)
        }
    } else {
        match spec_bitmap_row(all[i], width) {
            Err(e) => Err(e),
            Ok(row) => spec_bitmap(all, i + 1, size, glyphs, code, width, height, rows.push(row)),
        }
    }
}

/// The font that the lines from line `i` on describe, where line `i` stands
/// between `STARTCHAR` and `BITMAP` of the character `code`, and `bbx` is the
/// last size that a `BBX` line of the character gave.
pub open spec fn spec_char_properties(
    all: Seq<Seq<char>>,
    i: int,
    size: (usize, usize),
    glyphs: Map<usize, GlyphView>,
    code: usize,
    bbx: Option<(usize, usize)>,
) -> Result<FontView, BdfError>
    decreases all.len() - i, 0int,
{
    if !(0 <= i < all.len()) {
        Err(BdfError::UnexpectedEof)
    } else if "BITMAP"@.is_prefix_of(all[i]) {
        match bbx {
            None => Err(BdfError::MissingBbx),
            Some((width, height)) => spec_bitmap(
                all,
                i + 1,
                size,
                glyphs,
                code,
                width,
                height,
                Seq::empty(),
            ),
        }
    } else {
        match split_char(all[i], ' ') {
            None => Err(BdfError::ExpectedProperty),
            Some((keyword, values)) => if keyword == "BBX"@ {
                match spec_size(values) {
                    Err(part) => Err(BdfError::InvalidBbx { part }),
                    Ok(bbx) => spec_char_properties(all, i + 1, size, glyphs, code, Some(bbx)),
                }
            } else {
                spec_char_properties(all, i + 1, size, glyphs, code, bbx)
            },
        }
    }
}

/// The font that the lines from line `i` on describe, where line `i` stands
/// between two characters and `glyphs` are the characters read so far.
/// Empty lines are passed over, and `ENDFONT` ends the font.
pub open spec fn spec_chars(
    all: Seq<Seq<char>>,
    i: int,
    size: (usize, usize),
    glyphs: Map<usize, GlyphView>,
) -> Result<FontView, BdfError>
    decreases all.len() - i, 1int,
{
    if !(0 <= i < all.len()) {
        Err(BdfError::UnexpectedEof)
    } else if all[i].len() == 0 {
        spec_chars(all, i + 1, size, glyphs)
    } else if all[i] == "ENDFONT"@ {
        Ok(font_view(size, glyphs))
    } else {
        match spec_start_char(all[i]) {
            Err(e) => Err(e),
            Ok(code) => spec_char_properties(all, i + 1, size, glyphs, code, None),
        }
    }
}

/// The font that the lines from line `i` on describe, where line `i` stands
/// before `CHARS`, `size` is the last size that a `FONTBOUNDINGBOX` line
/// gave, and `in_properties` says whether the line stands between
/// `STARTPROPERTIES` and the next line that starts with `ENDPROPERTIES`.
pub open spec fn spec_global(
    all: Seq<Seq<char>>,
    i: int,
    size: Option<(usize, usize)>,
    in_properties: bool,
) -> Result<FontView, BdfError>
    decreases all.len() - i,
{
    if !(0 <= i < all.len()) {
        Err(BdfError::UnexpectedEof)
    } else if in_properties {
        spec_global(all, i + 1, size, !"ENDPROPERTIES"@.is_prefix_of(all[i]))
    } else {
        match split_char(all[i], ' ') {
            None => Err(BdfError::ExpectedProperty),
            Some((keyword, values)) => if keyword == "CHARS"@ {
                match size {
                    None => Err(BdfError::MissingFontBoundingBox),
                    Some(size) => spec_chars(all, i + 1, size, Map::empty()),
                }
            } else if keyword == "FONTBOUNDINGBOX"@ {
                match spec_size(values) {
                    Err(part) => Err(BdfError::InvalidFontBoundingBox { part }),
                    Ok(size) => spec_global(all, i + 1, Some(size), false),
                }
            } else {
                spec_global(all, i + 1, size, keyword == "STARTPROPERTIES"@)
            },
        }
    }
}

/// The font that a text describes.
pub open spec fn spec_parse(text: Seq<char>) -> Result<FontView, BdfError> {
    let all = split_lines(text);
    if all.len() == 0 {
        Err(BdfError::UnexpectedEof)
    } else if all[0] != "STARTFONT 2.1"@ {
        Err(BdfError::ExpectedStartFont)
    } else {
        spec_global(all, 1, None, false)
    }
}

/// The lines of a text, read one after the other.
pub struct Lines {
    /// All lines of the text.
    pub all: Vec<Vec<char>>,
    /// How many of them have been read; the last of these is the current line.
    pub taken: usize,
}

impl Lines {
    /// All lines of the text.
    pub open spec fn lines(&self) -> Seq<Seq<char>> {
        lines_view(self.all@)
    }

    /// The current line; empty before the first line is read.
    pub open spec fn current(&self) -> Seq<char> {
        if 0 < self.taken <= self.all@.len() {
            self.all@[self.taken - 1]@
        } else {
            Seq::empty()
        }
    }

    /// The lines of a text, none of them read yet.
    pub fn new(text: &str) -> (r: Lines)
        ensures
            r.lines() == split_lines(text@),
            r.taken == 0,
    {
        let chars = to_chars(text);
        Lines { all: lines(chars.as_slice()), taken: 0 }
    }

    /// Goes on to the next line, if there is one.
    pub fn next(&mut self) -> (r: Result<(), BdfError>)
        ensures
            final(self).all == old(self).all,
            match r {
                Ok(_) => old(self).taken < old(self).all@.len() && final(self).taken == old(
                    self,
                ).taken + 1,
                Err(e) => e == BdfError::UnexpectedEof && old(self).taken >= old(self).all@.len()
                    && final(self).taken == old(self).taken,
            },
    {
        if self.taken < self.all.len() {
            self.taken += 1;
            Ok(())
        } else {
            Err(BdfError::UnexpectedEof)
        }
    }

    /// The current line.
    pub fn line(&self) -> (r: &[char])
        ensures
            r@ == self.current(),
    {
        if 0 < self.taken && self.taken <= self.all.len() {
            self.all[self.taken - 1].as_slice()
        } else {
            &[]
        }
    }
}

fn parse_size(values: &[char]) -> (r: Result<(usize, usize), SizePart>)
    ensures
        r == spec_size(values@),
{
    let (first, rest): (&[char], Option<&[char]>) = match split_at_char(values, ' ') {
        Some((first, rest)) => (first, Some(rest)),
        None => (values, None),
    };
    let width: usize = match parse_unsigned(first, 10, usize::MAX) {
        Some(width) => width,
        None => {
            return Err(SizePart::Width);
        },
    };
    let rest: &[char] = match rest {
        Some(rest) => rest,
        None => {
            return Err(SizePart::Height);
        },
    };
    let second: &[char] = match split_at_char(rest, ' ') {
        Some((second, _)) => second,
        None => rest,
    };
    match parse_unsigned(second, 10, usize::MAX) {
        Some(height) => Ok((width, height)),
        None => Err(SizePart::Height),
    }
}

fn parse_bitmap_row(line: &[char], width: usize) -> (r: Result<usize, BdfError>)
    ensures
        r == spec_bitmap_row(line@, width),
{
    let limit: usize = (usize::BITS / 4) as usize;
    let bytes: usize = match byte_length(line, limit) {
        Some(bytes) => bytes,
        None => {
            return Err(BdfError::BitmapTooWide);
        },
    };
    let wide: usize = bytes * 4;
    if wide < width {
        return Err(BdfError::BitmapTooNarrow);
    }
    let value: usize = match parse_unsigned(line, 16, usize::MAX) {
        Some(value) => value,
        None => {
            return Err(BdfError::InvalidBitmap);
        },
    };
    let shift: usize = wide - width;
    if shift >= usize::BITS as usize {
        Ok(0)
    } else {
        Ok(value >> shift)
    }
}

fn parse_start_char(line: &[char]) -> (r: Result<usize, BdfError>)
    ensures
        r == spec_start_char(line@),
{
    let (keyword, code_point) = match split_at_char(line, ' ') {
        Some(parts) => parts,
        None => {
            return Err(BdfError::ExpectedStartChar);
        },
    };
    if !equals(keyword, "STARTCHAR") {
        return Err(BdfError::ExpectedStartChar);
    }
    let digits: &[char] = match after_prefix(code_point, "U+") {
        Some(digits) => digits,
        None => {
            return Err(BdfError::ExpectedCodePoint);
        },
    };
    match parse_unsigned(digits, 16, u32::MAX as usize) {
        Some(code) => Ok(code),
        None => Err(BdfError::InvalidCodePoint),
    }
}

/// Reads the lines before the characters, up to the line after `CHARS`, and
/// gives the size of the font.
fn parse_global(lines: &mut Lines) -> (r: Result<(usize, usize), BdfError>)
    requires
        1 <= old(lines).taken <= old(lines).all@.len(),
    ensures
        final(lines).all == old(lines).all,
        match r {
            Ok(size) => 1 <= final(lines).taken <= final(lines).all@.len() && spec_global(
                old(lines).lines(),
                old(lines).taken - 1,
                None,
                false,
            ) == spec_chars(old(lines).lines(), final(lines).taken - 1, size, Map::empty()),
            Err(e) => spec_global(old(lines).lines(), old(lines).taken - 1, None, false) == Err::<
                FontView,
                BdfError,
            >(e),
        },
{
    let ghost all = lines.lines();
    let ghost goal = spec_global(all, lines.taken - 1, None, false);
    let mut size: Option<(usize, usize)> = None;
    let mut in_properties: bool = false;
    loop
        invariant
            lines.all == old(lines).all,
            all == lines.lines(),
            all == old(lines).lines(),
            1 <= lines.taken <= lines.all@.len(),
            goal == spec_global(all, lines.taken - 1, size, in_properties),
            goal == spec_global(old(lines).lines(), old(lines).taken - 1, None, false),
        decreases lines.all@.len() - lines.taken,
    {
        let line = lines.line();
        if in_properties {
            in_properties = !starts_with(line, "ENDPROPERTIES");
        } else {
            let (keyword, values) = match split_at_char(line, ' ') {
                Some(parts) => parts,
                None => {
                    return Err(BdfError::ExpectedProperty);
                },
            };
            if equals(keyword, "CHARS") {
                let size: (usize, usize) = match size {
                    Some(size) => size,
                    None => {
                        return Err(BdfError::MissingFontBoundingBox);
                    },
                };
                if let Err(e) = lines.next() {
                    return Err(e);
                }
                return Ok(size);
            }
            if equals(keyword, "FONTBOUNDINGBOX") {
                match parse_size(values) {
                    Ok(given) => {
                        size = Some(given);
                    },
                    Err(part) => {
                        return Err(BdfError::InvalidFontBoundingBox { part });
                    },
                }
            } else {
                in_properties = equals(keyword, "STARTPROPERTIES");
            }
        }
        if let Err(e) = lines.next() {
            assert(spec_global(all, lines.taken as int, size, in_properties) == Err::<
                FontView,
                BdfError,
            >(BdfError::UnexpectedEof));
            return Err(e);
        }
    }
}

fn parse_char_properties(
    lines: &mut Lines,
    Ghost(size): Ghost<(usize, usize)>,
    Ghost(glyphs): Ghost<Map<usize, GlyphView>>,
    Ghost(code): Ghost<usize>,
) -> (r: Result<(usize, usize), BdfError>)
    requires
        1 <= old(lines).taken <= old(lines).all@.len(),
    ensures
        final(lines).all == old(lines).all,
        match r {
            Ok(bbx) => old(lines).taken <= final(lines).taken <= final(lines).all@.len()
                && spec_char_properties(
                old(lines).lines(),
                old(lines).taken - 1,
                size,
                glyphs,
                code,
                None,
            ) == spec_bitmap(
                old(lines).lines(),
                final(lines).taken - 1,
                size,
                glyphs,
                code,
                bbx.0,
                bbx.1,
                Seq::empty(),
            ),
            Err(e) => spec_char_properties(
                old(lines).lines(),
                old(lines).taken - 1,
                size,
                glyphs,
                code,
                None,
            ) == Err::<FontView, BdfError>(e),
        },
{
    let ghost all = lines.lines();
    let ghost goal = spec_char_properties(all, lines.taken - 1, size, glyphs, code, None);
    let mut bbx: Option<(usize, usize)> = None;
    loop
        invariant
            lines.all == old(lines).all,
            all == lines.lines(),
            all == old(lines).lines(),
            1 <= lines.taken <= lines.all@.len(),
            goal == spec_char_properties(all, lines.taken - 1, size, glyphs, code, bbx),
            goal == spec_char_properties(
                old(lines).lines(),
                old(lines).taken - 1,
                size,
                glyphs,
                code,
                None,
            ),
            lines.taken >= old(lines).taken,
        decreases lines.all@.len() - lines.taken,
    {
        let line = lines.line();
        if starts_with(line, "BITMAP") {
            let bbx: (usize, usize) = match bbx {
                Some(bbx) => bbx,
                None => {
                    return Err(BdfError::MissingBbx);
                },
            };
            if let Err(e) = lines.next() {
                assert(spec_bitmap(
                    all,
                    lines.taken as int,
                    size,
                    glyphs,
                    code,
                    bbx.0,
                    bbx.1,
                    Seq::empty(),
                ) == Err::<FontView, BdfError>(BdfError::UnexpectedEof));
                return Err(e);
            }
            return Ok(bbx);
        }
        let (keyword, values) = match split_at_char(line, ' ') {
            Some(parts) => parts,
            None => {
                return Err(BdfError::ExpectedProperty);
            },
        };
        if equals(keyword, "BBX") {
            match parse_size(values) {
                Ok(given) => {
                    bbx = Some(given);
                },
                Err(part) => {
                    return Err(BdfError::InvalidBbx { part });
                },
            }
        }
        if let Err(e) = lines.next() {
            assert(spec_char_properties(all, lines.taken as int, size, glyphs, code, bbx) == Err::<
                FontView,
                BdfError,
            >(BdfError::UnexpectedEof));
            return Err(e);
        }
    }
}

fn parse_bitmap(
    lines: &mut Lines,
    width: usize,
    height: usize,
    Ghost(size): Ghost<(usize, usize)>,
    Ghost(glyphs): Ghost<Map<usize, GlyphView>>,
    Ghost(code): Ghost<usize>,
) -> (r: Result<Vec<usize>, BdfError>)
    requires
        1 <= old(lines).taken <= old(lines).all@.len(),
    ensures
        final(lines).all == old(lines).all,
        match r {
            Ok(rows) => spec_bitmap(
                old(lines).lines(),
                old(lines).taken - 1,
                size,
                glyphs,
                code,
                width,
                height,
                Seq::empty(),
            ) == spec_chars(
                old(lines).lines(),
                final(lines).taken - 1,
                size,
                glyphs.insert(code, GlyphView { width, height, rows: rows@ }),
            ) && old(lines).taken <= final(lines).taken <= final(lines).all@.len(),
            Err(e) => spec_bitmap(
                old(lines).lines(),
                old(lines).taken - 1,
                size,
                glyphs,
                code,
                width,
                height,
                Seq::empty(),
            ) == Err::<FontView, BdfError>(e),
        },
{
    let ghost all = lines.lines();
    let ghost goal = spec_bitmap(
        all,
        lines.taken - 1,
        size,
        glyphs,
        code,
        width,
        height,
        Seq::empty(),
    );
    let mut rows: Vec<usize> = Vec::new();
    while rows.len() < height
        invariant
            lines.all == old(lines).all,
            all == lines.lines(),
            all == old(lines).lines(),
            1 <= lines.taken <= lines.all@.len(),
            goal == spec_bitmap(all, lines.taken - 1, size, glyphs, code, width, height, rows@),
            goal == spec_bitmap(
                old(lines).lines(),
                old(lines).taken - 1,
                size,
                glyphs,
                code,
                width,
                height,
                Seq::empty(),
            ),
            lines.taken >= old(lines).taken,
        decreases lines.all@.len() - lines.taken,
    {
        let line = lines.line();
        let row: usize = match parse_bitmap_row(line, width) {
            Ok(row) => row,
            Err(e) => {
                return Err(e);
            },
        };
        if let Err(e) = lines.next() {
            assert(spec_bitmap(
                all,
                lines.taken as int,
                size,
                glyphs,
                code,
                width,
                height,
                rows@.push(row),
            ) == Err::<FontView, BdfError>(BdfError::UnexpectedEof));
            return Err(e);
        }
        rows.push(row);
    }
    let line = lines.line();
    if !starts_with(line, "ENDCHAR") {
        return Err(BdfError::ExpectedEndChar);
    }
    let ghost after = glyphs.insert(code, GlyphView { width, height, rows: rows@ });
    if let Err(e) = lines.next() {
        assert(spec_chars(all, lines.taken as int, size, after) == Err::<FontView, BdfError>(
            BdfError::UnexpectedEof,
        ));
        return Err(e);
    }
    Ok(rows)
}

fn parse_chars(lines: &mut Lines, Ghost(size): Ghost<(usize, usize)>) -> (r: Result<
    HashMap<usize, Glyph>,
    BdfError,
>)
    requires
        1 <= old(lines).taken <= old(lines).all@.len(),
    ensures
        match r {
            Ok(glyphs) => spec_chars(
                old(lines).lines(),
                old(lines).taken - 1,
                size,
                Map::empty(),
            ) == Ok::<FontView, BdfError>(font_view(size, glyph_views(glyphs@))),
            Err(e) => spec_chars(old(lines).lines(), old(lines).taken - 1, size, Map::empty())
                == Err::<FontView, BdfError>(e),
        },
{
    let ghost all = lines.lines();
    let ghost goal = spec_chars(all, lines.taken - 1, size, Map::empty());
    let mut glyphs: HashMap<usize, Glyph> = HashMap::new();
    assert(glyph_views(glyphs@) =~= Map::empty());
    loop
        invariant
            lines.all == old(lines).all,
            all == lines.lines(),
            all == old(lines).lines(),
            1 <= lines.taken <= lines.all@.len(),
            goal == spec_chars(all, lines.taken - 1, size, glyph_views(glyphs@)),
            goal == spec_chars(old(lines).lines(), old(lines).taken - 1, size, Map::empty()),
        decreases lines.all@.len() - lines.taken,
    {
        let line = lines.line();
        if line.len() == 0 {
            if let Err(e) = lines.next() {
                assert(spec_chars(all, lines.taken as int, size, glyph_views(glyphs@)) == Err::<
                    FontView,
                    BdfError,
                >(BdfError::UnexpectedEof));
                return Err(e);
            }
            continue;
        }
        if equals(line, "ENDFONT") {
            return Ok(glyphs);
        }
        let code: usize = match parse_start_char(line) {
            Ok(code) => code,
            Err(e) => {
                return Err(e);
            },
        };
        let ghost before = glyph_views(glyphs@);
        if let Err(e) = lines.next() {
            assert(spec_char_properties(all, lines.taken as int, size, before, code, None) == Err::<
                FontView,
                BdfError,
            >(BdfError::UnexpectedEof));
            return Err(e);
        }
        let (width, height) = match parse_char_properties(
            lines,
            Ghost(size),
            Ghost(before),
            Ghost(code),
        ) {
            Ok(bbx) => bbx,
            Err(e) => {
                return Err(e);
            },
        };
        let rows: Vec<usize> = match parse_bitmap(
            lines,
            width,
            height,
            Ghost(size),
            Ghost(before),
            Ghost(code),
        ) {
            Ok(rows) => rows,
            Err(e) => {
                return Err(e);
            },
        };
        let glyph = Glyph { width, height, rows };
        glyphs.insert(code, glyph);
        assert(glyph_views(glyphs@) =~= before.insert(code, glyph@));
    }
}

impl Font {
    /// Reads a font.
    pub fn parse(text: &str) -> (r: Result<Font, BdfError>)
        ensures
            match r {
                Ok(font) => spec_parse(text@) == Ok::<FontView, BdfError>(font@) && font@.wf(),
                Err(e) => spec_parse(text@) == Err::<FontView, BdfError>(e),
            },
    {
        proof {
            lemma_parse_wf(text@);
        }
        let mut lines = Lines::new(text);
        if let Err(e) = lines.next() {
            return Err(e);
        }
        if !equals(lines.line(), "STARTFONT 2.1") {
            return Err(BdfError::ExpectedStartFont);
        }
        if let Err(e) = lines.next() {
            return Err(e);
        }
        let (width, height) = match parse_global(&mut lines) {
            Ok(size) => size,
            Err(e) => {
                return Err(e);
            },
        };
        let glyphs = match parse_chars(&mut lines, Ghost((width, height))) {
            Ok(glyphs) => glyphs,
            Err(e) => {
                return Err(e);
            },
        };
        let mut rows: Vec<usize> = Vec::new();
        while rows.len() < height
            invariant
                rows@ =~= Seq::new(rows@.len(), |i: int| 0usize),
                rows@.len() <= height,
            decreases height - rows@.len(),
        {
            rows.push(0);
        }
        let font = Font { width, height, glyphs, blank: Glyph { width, height, rows } };
        Ok(font)
    }
}

/// Reads a font from the text of a BDF file.
pub fn parse(lines: &str) -> (r: Result<Font, BdfError>)
    ensures
        match r {
            Ok(font) => spec_parse(lines@) == Ok::<FontView, BdfError>(font@) && font@.wf(),
            Err(e) => spec_parse(lines@) == Err::<FontView, BdfError>(e),
        },
{
    Font::parse(lines)
}

impl GlyphView {
    /// Whether the glyph has as many rows as it is high.
    pub open spec fn wf(self) -> bool {
        self.rows.len() == self.height
    }
}

impl FontView {
    /// Whether every glyph has as many rows as it is high, and the blank
    /// glyph is of the font's size.
    pub open spec fn wf(self) -> bool {
        &&& glyphs_wf(self.glyphs)
        &&& self.blank.wf()
        &&& self.blank.width == self.width
        &&& self.blank.height == self.height
    }
}

/// Whether every glyph of the map has as many rows as it is high.
pub open spec fn glyphs_wf(glyphs: Map<usize, GlyphView>) -> bool {
    forall|code: usize| glyphs.contains_key(code) ==> (#[trigger] glyphs[code]).wf()
}

proof fn lemma_bitmap_wf(
    all: Seq<Seq<char>>,
    i: int,
    size: (usize, usize),
    glyphs: Map<usize, GlyphView>,
    code: usize,
    width: usize,
    height: usize,
    rows: Seq<usize>,
)
    requires
        glyphs_wf(glyphs),
        rows.len() <= height,
    ensures
        spec_bitmap(all, i, size, glyphs, code, width, height, rows) matches Ok(font) ==> font.wf(),
    decreases all.len() - i, 0int,
{
    if 0 <= i < all.len() {
        if rows.len() >= height {
            if "ENDCHAR"@.is_prefix_of(all[i]) {
                lemma_chars_wf(
                    all,
                    i + 1,
                    size,
                    glyphs.insert(code, GlyphView { width, height, rows }),
                );
            }
        } else if let Ok(row) = spec_bitmap_row(all[i], width) {
            lemma_bitmap_wf(all, i + 1, size, glyphs, code, width, height, rows.push(row));
        }
    }
}

proof fn lemma_char_properties_wf(
    all: Seq<Seq<char>>,
    i: int,
    size: (usize, usize),
    glyphs: Map<usize, GlyphView>,
    code: usize,
    bbx: Option<(usize, usize)>,
)
    requires
        glyphs_wf(glyphs),
    ensures
        spec_char_properties(all, i, size, glyphs, code, bbx) matches Ok(font) ==> font.wf(),
    decreases all.len() - i, 0int,
{
    if 0 <= i < all.len() {
        if "BITMAP"@.is_prefix_of(all[i]) {
            if let Some((width, height)) = bbx {
                lemma_bitmap_wf(all, i + 1, size, glyphs, code, width, height, Seq::empty());
            }
        } else if let Some((keyword, values)) = split_char(all[i], ' ') {
            if keyword == "BBX"@ {
                if let Ok(given) = spec_size(values) {
                    lemma_char_properties_wf(all, i + 1, size, glyphs, code, Some(given));
                }
            } else {
                lemma_char_properties_wf(all, i + 1, size, glyphs, code, bbx);
            }
        }
    }
}

proof fn lemma_chars_wf(
    all: Seq<Seq<char>>,
    i: int,
    size: (usize, usize),
    glyphs: Map<usize, GlyphView>,
)
    requires
        glyphs_wf(glyphs),
    ensures
        spec_chars(all, i, size, glyphs) matches Ok(font) ==> font.wf(),
    decreases all.len() - i, 1int,
{
    if 0 <= i < all.len() {
        if all[i].len() == 0 {
            lemma_chars_wf(all, i + 1, size, glyphs);
        } else if all[i] != "ENDFONT"@ {
            if let Ok(code) = spec_start_char(all[i]) {
                lemma_char_properties_wf(all, i + 1, size, glyphs, code, None);
            }
        }
    }
}

proof fn lemma_global_wf(
    all: Seq<Seq<char>>,
    i: int,
    size: Option<(usize, usize)>,
    in_properties: bool,
)
    ensures
        spec_global(all, i, size, in_properties) matches Ok(font) ==> font.wf(),
    decreases all.len() - i,
{
    if 0 <= i < all.len() {
        if in_properties {
            lemma_global_wf(all, i + 1, size, !"ENDPROPERTIES"@.is_prefix_of(all[i]));
        } else if let Some((keyword, values)) = split_char(all[i], ' ') {
            if keyword == "CHARS"@ {
                if let Some(size) = size {
                    lemma_chars_wf(all, i + 1, size, Map::empty());
                }
            } else if keyword == "FONTBOUNDINGBOX"@ {
                if let Ok(given) = spec_size(values) {
                    lemma_global_wf(all, i + 1, Some(given), false);
                }
            } else {
                lemma_global_wf(all, i + 1, size, keyword == "STARTPROPERTIES"@);
            }
        }
    }
}

/// In every font that a text describes, each glyph has as many rows as it is
/// high, and the blank glyph is of the font's size.
pub proof fn lemma_parse_wf(text: Seq<char>)
    ensures
        spec_parse(text) matches Ok(font) ==> font.wf(),
{
    lemma_global_wf(split_lines(text), 1, None, false);
}

} // verus!
