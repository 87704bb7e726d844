//! A 5x8 bitmap font for the printable ASCII characters.
//!
//! Each character has eight rows, top to bottom; in each row byte, bits 7
//! down to 3 are the five columns, left to right.
use vstd::prelude::*;

verus! {

/// The first character the font covers (a space).
pub const FIRST_GLYPH: u32 = 0x20;

/// The last character the font covers (a tilde).
pub const LAST_GLYPH: u32 = 0x7E;

/// The rows of every glyph, eight per character from the space on.
pub open spec fn glyph_table() -> Seq<u8> {
    seq![
        0x00, 0x00, 0x00, 0x00, 0x00, 0x00, 0x00, 0x00,  // ' '
        0x20, 0x20, 0x20, 0x20, 0x20, 0x00, 0x20, 0x00,  // '!'
        0x50, 0x50, 0x00, 0x00, 0x00, 0x00, 0x00, 0x00,  // '"'
        0x50, 0xF8, 0x50, 0xF8, 0x50, 0x00, 0x00, 0x00,  // '#'
        0x20, 0x78, 0xA0, 0x70, 0x28, 0xF0, 0x20, 0x00,  // '$'
        0xC0, 0xC8, 0x10, 0x20, 0x44, 0x8C, 0x00, 0x00,  // '%'
        0x40, 0xA0, 0xA0, 0x40, 0xA8, 0x90, 0x68, 0x00,  // '&'
        0x20, 0x20, 0x40, 0x00, 0x00, 0x00, 0x00, 0x00,  // "'"
        0x10, 0x20, 0x40, 0x40, 0x40, 0x20, 0x10, 0x00,  // '('
        0x40, 0x20, 0x10, 0x10, 0x10, 0x20, 0x40, 0x00,  // ')'
        0x00, 0x88, 0x50, 0x20, 0x50, 0x88, 0x00, 0x00,  // '*'
        0x00, 0x20, 0x20, 0xF8, 0x20, 0x20, 0x00, 0x00,  // '+'
        0x00, 0x00, 0x00, 0x00, 0x00, 0x20, 0x20, 0x40,  // ','
        0x00, 0x00, 0x00, 0xF8, 0x00, 0x00, 0x00, 0x00,  // '-'
        0x00, 0x00, 0x00, 0x00, 0x00, 0x20, 0x00, 0x00,  // '.'
        0x08, 0x08, 0x10, 0x20, 0x40, 0x80, 0x80, 0x00,  // '/'
        0x70, 0x88, 0x98, 0xA8, 0xC8, 0x88, 0x70, 0x00,  // '0'
        0x20, 0x60, 0x20, 0x20, 0x20, 0x20, 0x70, 0x00,  // '1'
        0x70, 0x88, 0x08, 0x10, 0x20, 0x40, 0xF8, 0x00,  // '2'
        0x70, 0x88, 0x08, 0x30, 0x08, 0x88, 0x70, 0x00,  // '3'
        0x10, 0x30, 0x50, 0x90, 0xF8, 0x10, 0x10, 0x00,  // '4'
        0xF8, 0x80, 0xF0, 0x08, 0x08, 0x88, 0x70, 0x00,  // '5'
        0x30, 0x40, 0x80, 0xF0, 0x88, 0x88, 0x70, 0x00,  // '6'
        0xF8, 0x08, 0x10, 0x10, 0x20, 0x20, 0x20, 0x00,  // '7'
        0x70, 0x88, 0x88, 0x70, 0x88, 0x88, 0x70, 0x00,  // '8'
        0x70, 0x88, 0x88, 0x78, 0x08, 0x10, 0x60, 0x00,  // '9'
        0x00, 0x00, 0x20, 0x00, 0x00, 0x20, 0x00, 0x00,  // ':'
        0x00, 0x00, 0x20, 0x00, 0x00, 0x20, 0x20, 0x40,  // ';'
        0x10, 0x20, 0x40, 0x80, 0x40, 0x20, 0x10, 0x00,  // '<'
        0x00, 0x00, 0xF8, 0x00, 0xF8, 0x00, 0x00, 0x00,  // '='
        0x40, 0x20, 0x10, 0x08, 0x10, 0x20, 0x40, 0x00,  // '>'
        0x70, 0x88, 0x08, 0x10, 0x20, 0x00, 0x20, 0x00,  // '?'
        0x70, 0x88, 0x98, 0xA8, 0xA0, 0x80, 0x70, 0x00,  // '@'
        0x20, 0x50, 0x88, 0x88, 0xF8, 0x88, 0x88, 0x00,  // 'A'
        0xF0, 0x88, 0x88, 0xF0, 0x88, 0x88, 0xF0, 0x00,  // 'B'
        0x70, 0x88, 0x80, 0x80, 0x80, 0x88, 0x70, 0x00,  // 'C'
        0xF0, 0x88, 0x88, 0x88, 0x88, 0x88, 0xF0, 0x00,  // 'D'
        0xF8, 0x80, 0x80, 0xF0, 0x80, 0x80, 0xF8, 0x00,  // 'E'
        0xF8, 0x80, 0x80, 0xF0, 0x80, 0x80, 0x80, 0x00,  // 'F'
        0x70, 0x88, 0x80, 0x98, 0x88, 0x88, 0x70, 0x00,  // 'G'
        0x88, 0x88, 0x88, 0xF8, 0x88, 0x88, 0x88, 0x00,  // 'H'
        0x70, 0x20, 0x20, 0x20, 0x20, 0x20, 0x70, 0x00,  // 'I'
        0x38, 0x10, 0x10, 0x10, 0x10, 0x90, 0x60, 0x00,  // 'J'
        0x88, 0x90, 0xA0, 0xC0, 0xA0, 0x90, 0x88, 0x00,  // 'K'
        0x80, 0x80, 0x80, 0x80, 0x80, 0x80, 0xF8, 0x00,  // 'L'
        0x88, 0xD8, 0xA8, 0xA8, 0x88, 0x88, 0x88, 0x00,  // 'M'
        0x88, 0xC8, 0xA8, 0x98, 0x88, 0x88, 0x88, 0x00,  // 'N'
        0x70, 0x88, 0x88, 0x88, 0x88, 0x88, 0x70, 0x00,  // 'O'
        0xF0, 0x88, 0x88, 0xF0, 0x80, 0x80, 0x80, 0x00,  // 'P'
        0x70, 0x88, 0x88, 0x88, 0xA8, 0x90, 0x68, 0x00,  // 'Q'
        0xF0, 0x88, 0x88, 0xF0, 0xA0, 0x90, 0x88, 0x00,  // 'R'
        0x70, 0x88, 0x80, 0x70, 0x08, 0x88, 0x70, 0x00,  // 'S'
        0xF8, 0x20, 0x20, 0x20, 0x20, 0x20, 0x20, 0x00,  // 'T'
        0x88, 0x88, 0x88, 0x88, 0x88, 0x88, 0x70, 0x00,  // 'U'
        0x88, 0x88, 0x88, 0x88, 0x88, 0x50, 0x20, 0x00,  // 'V'
        0x88, 0x88, 0x88, 0xA8, 0xA8, 0xD8, 0x88, 0x00,  // 'W'
        0x88, 0x88, 0x50, 0x20, 0x50, 0x88, 0x88, 0x00,  // 'X'
        0x88, 0x88, 0x50, 0x20, 0x20, 0x20, 0x20, 0x00,  // 'Y'
        0xF8, 0x08, 0x10, 0x20, 0x40, 0x80, 0xF8, 0x00,  // 'Z'
        0x70, 0x40, 0x40, 0x40, 0x40, 0x40, 0x70, 0x00,  // '['
        0x80, 0x80, 0x40, 0x20, 0x10, 0x08, 0x08, 0x00,  // '\\'
        0x70, 0x10, 0x10, 0x10, 0x10, 0x10, 0x70, 0x00,  // ']'
        0x20, 0x50, 0x88, 0x00, 0x00, 0x00, 0x00, 0x00,  // '^'
        0x00, 0x00, 0x00, 0x00, 0x00, 0x00, 0xF8, 0x00,  // '_'
        0x80, 0x40, 0x00, 0x00, 0x00, 0x00, 0x00, 0x00,  // '`'
        0x00, 0x00, 0x70, 0x08, 0x78, 0x88, 0x78, 0x00,  // 'a'
        0x80, 0x80, 0xF0, 0x88, 0x88, 0x88, 0xF0, 0x00,  // 'b'
        0x00, 0x00, 0x70, 0x88, 0x80, 0x88, 0x70, 0x00,  // 'c'
        0x08, 0x08, 0x78, 0x88, 0x88, 0x88, 0x78, 0x00,  // 'd'
        0x00, 0x00, 0x70, 0x88, 0xF8, 0x80, 0x70, 0x00,  // 'e'
        0x10, 0x20, 0x70, 0x20, 0x20, 0x20, 0x20, 0x00,  // 'f'
        0x00, 0x00, 0x78, 0x88, 0x88, 0x78, 0x08, 0x70,  // 'g'
        0x80, 0x80, 0xF0, 0x88, 0x88, 0x88, 0x88, 0x00,  // 'h'
        0x20, 0x00, 0x60, 0x20, 0x20, 0x20, 0x70, 0x00,  // 'i'
        0x08, 0x00, 0x18, 0x08, 0x08, 0x08, 0x88, 0x70,  // 'j'
        0x80, 0x80, 0x88, 0x90, 0xE0, 0x90, 0x88, 0x00,  // 'k'
        0x60, 0x20, 0x20, 0x20, 0x20, 0x20, 0x70, 0x00,  // 'l'
        0x00, 0x00, 0xD0, 0xA8, 0xA8, 0xA8, 0x88, 0x00,  // 'm'
        0x00, 0x00, 0xF0, 0x88, 0x88, 0x88, 0x88, 0x00,  // 'n'
        0x00, 0x00, 0x70, 0x88, 0x88, 0x88, 0x70, 0x00,  // 'o'
        0x00, 0x00, 0xF0, 0x88, 0x88, 0xF0, 0x80, 0x80,  // 'p'
        0x00, 0x00, 0x78, 0x88, 0x88, 0x78, 0x08, 0x08,  // 'q'
        0x00, 0x00, 0xB0, 0xC8, 0x80, 0x80, 0x80, 0x00,  // 'r'
        0x00, 0x00, 0x70, 0x80, 0x70, 0x08, 0x70, 0x00,  // 's'
        0x20, 0x20, 0xF8, 0x20, 0x20, 0x28, 0x10, 0x00,  // 't'
        0x00, 0x00, 0x88, 0x88, 0x88, 0x88, 0x78, 0x00,  // 'u'
        0x00, 0x00, 0x88, 0x88, 0x88, 0x50, 0x20, 0x00,  // 'v'
        0x00, 0x00, 0x88, 0x88, 0xA8, 0xA8, 0x50, 0x00,  // 'w'
        0x00, 0x00, 0x88, 0x50, 0x20, 0x50, 0x88, 0x00,  // 'x'
        0x00, 0x00, 0x88, 0x88, 0x78, 0x08, 0x70, 0x00,  // 'y'
        0x00, 0x00, 0xF8, 0x10, 0x20, 0x40, 0xF8, 0x00,  // 'z'
        0x10, 0x20, 0x20, 0x40, 0x20, 0x20, 0x10, 0x00,  // '{'
        0x20, 0x20, 0x20, 0x20, 0x20, 0x20, 0x20, 0x00,  // '|'
        0x40, 0x20, 0x20, 0x10, 0x20, 0x20, 0x40, 0x00,  // '}'
        0x00, 0x00, 0x00, 0x68, 0x90, 0x00, 0x00, 0x00,  // '~'
    ]
}

/// Whether the font has a glyph for `c`.
pub open spec fn has_glyph(c: char) -> bool {
    FIRST_GLYPH <= (c as u32) <= LAST_GLYPH
}

/// The eight rows of the glyph for `c`.
pub open spec fn glyph_of(c: char) -> Seq<u8> {
    let off = ((c as u32) - FIRST_GLYPH) * 8;
    glyph_table().subrange(off, off + 8)
}

/// The table of all glyph rows.
fn glyph_bytes() -> (r: Vec<u8>)
    ensures
        r@ == glyph_table(),
{
    let r: Vec<u8> = vec![
        0x00, 0x00, 0x00, 0x00, 0x00, 0x00, 0x00, 0x00,  // ' '
        0x20, 0x20, 0x20, 0x20, 0x20, 0x00, 0x20, 0x00,  // '!'
        0x50, 0x50, 0x00, 0x00, 0x00, 0x00, 0x00, 0x00,  // '"'
        0x50, 0xF8, 0x50, 0xF8, 0x50, 0x00, 0x00, 0x00,  // '#'
        0x20, 0x78, 0xA0, 0x70, 0x28, 0xF0, 0x20, 0x00,  // '$'
        0xC0, 0xC8, 0x10, 0x20, 0x44, 0x8C, 0x00, 0x00,  // '%'
        0x40, 0xA0, 0xA0, 0x40, 0xA8, 0x90, 0x68, 0x00,  // '&'
        0x20, 0x20, 0x40, 0x00, 0x00, 0x00, 0x00, 0x00,  // "'"
        0x10, 0x20, 0x40, 0x40, 0x40, 0x20, 0x10, 0x00,  // '('
        0x40, 0x20, 0x10, 0x10, 0x10, 0x20, 0x40, 0x00,  // ')'
        0x00, 0x88, 0x50, 0x20, 0x50, 0x88, 0x00, 0x00,  // '*'
        0x00, 0x20, 0x20, 0xF8, 0x20, 0x20, 0x00, 0x00,  // '+'
        0x00, 0x00, 0x00, 0x00, 0x00, 0x20, 0x20, 0x40,  // ','
        0x00, 0x00, 0x00, 0xF8, 0x00, 0x00, 0x00, 0x00,  // '-'
        0x00, 0x00, 0x00, 0x00, 0x00, 0x20, 0x00, 0x00,  // '.'
        0x08, 0x08, 0x10, 0x20, 0x40, 0x80, 0x80, 0x00,  // '/'
        0x70, 0x88, 0x98, 0xA8, 0xC8, 0x88, 0x70, 0x00,  // '0'
        0x20, 0x60, 0x20, 0x20, 0x20, 0x20, 0x70, 0x00,  // '1'
        0x70, 0x88, 0x08, 0x10, 0x20, 0x40, 0xF8, 0x00,  // '2'
        0x70, 0x88, 0x08, 0x30, 0x08, 0x88, 0x70, 0x00,  // '3'
        0x10, 0x30, 0x50, 0x90, 0xF8, 0x10, 0x10, 0x00,  // '4'
        0xF8, 0x80, 0xF0, 0x08, 0x08, 0x88, 0x70, 0x00,  // '5'
        0x30, 0x40, 0x80, 0xF0, 0x88, 0x88, 0x70, 0x00,  // '6'
        0xF8, 0x08, 0x10, 0x10, 0x20, 0x20, 0x20, 0x00,  // '7'
        0x70, 0x88, 0x88, 0x70, 0x88, 0x88, 0x70, 0x00,  // '8'
        0x70, 0x88, 0x88, 0x78, 0x08, 0x10, 0x60, 0x00,  // '9'
        0x00, 0x00, 0x20, 0x00, 0x00, 0x20, 0x00, 0x00,  // ':'
        0x00, 0x00, 0x20, 0x00, 0x00, 0x20, 0x20, 0x40,  // ';'
        0x10, 0x20, 0x40, 0x80, 0x40, 0x20, 0x10, 0x00,  // '<'
        0x00, 0x00, 0xF8, 0x00, 0xF8, 0x00, 0x00, 0x00,  // '='
        0x40, 0x20, 0x10, 0x08, 0x10, 0x20, 0x40, 0x00,  // '>'
        0x70, 0x88, 0x08, 0x10, 0x20, 0x00, 0x20, 0x00,  // '?'
        0x70, 0x88, 0x98, 0xA8, 0xA0, 0x80, 0x70, 0x00,  // '@'
        0x20, 0x50, 0x88, 0x88, 0xF8, 0x88, 0x88, 0x00,  // 'A'
        0xF0, 0x88, 0x88, 0xF0, 0x88, 0x88, 0xF0, 0x00,  // 'B'
        0x70, 0x88, 0x80, 0x80, 0x80, 0x88, 0x70, 0x00,  // 'C'
        0xF0, 0x88, 0x88, 0x88, 0x88, 0x88, 0xF0, 0x00,  // 'D'
        0xF8, 0x80, 0x80, 0xF0, 0x80, 0x80, 0xF8, 0x00,  // 'E'
        0xF8, 0x80, 0x80, 0xF0, 0x80, 0x80, 0x80, 0x00,  // 'F'
        0x70, 0x88, 0x80, 0x98, 0x88, 0x88, 0x70, 0x00,  // 'G'
        0x88, 0x88, 0x88, 0xF8, 0x88, 0x88, 0x88, 0x00,  // 'H'
        0x70, 0x20, 0x20, 0x20, 0x20, 0x20, 0x70, 0x00,  // 'I'
        0x38, 0x10, 0x10, 0x10, 0x10, 0x90, 0x60, 0x00,  // 'J'
        0x88, 0x90, 0xA0, 0xC0, 0xA0, 0x90, 0x88, 0x00,  // 'K'
        0x80, 0x80, 0x80, 0x80, 0x80, 0x80, 0xF8, 0x00,  // 'L'
        0x88, 0xD8, 0xA8, 0xA8, 0x88, 0x88, 0x88, 0x00,  // 'M'
        0x88, 0xC8, 0xA8, 0x98, 0x88, 0x88, 0x88, 0x00,  // 'N'
        0x70, 0x88, 0x88, 0x88, 0x88, 0x88, 0x70, 0x00,  // 'O'
        0xF0, 0x88, 0x88, 0xF0, 0x80, 0x80, 0x80, 0x00,  // 'P'
        0x70, 0x88, 0x88, 0x88, 0xA8, 0x90, 0x68, 0x00,  // 'Q'
        0xF0, 0x88, 0x88, 0xF0, 0xA0, 0x90, 0x88, 0x00,  // 'R'
        0x70, 0x88, 0x80, 0x70, 0x08, 0x88, 0x70, 0x00,  // 'S'
        0xF8, 0x20, 0x20, 0x20, 0x20, 0x20, 0x20, 0x00,  // 'T'
        0x88, 0x88, 0x88, 0x88, 0x88, 0x88, 0x70, 0x00,  // 'U'
        0x88, 0x88, 0x88, 0x88, 0x88, 0x50, 0x20, 0x00,  // 'V'
        0x88, 0x88, 0x88, 0xA8, 0xA8, 0xD8, 0x88, 0x00,  // 'W'
        0x88, 0x88, 0x50, 0x20, 0x50, 0x88, 0x88, 0x00,  // 'X'
        0x88, 0x88, 0x50, 0x20, 0x20, 0x20, 0x20, 0x00,  // 'Y'
        0xF8, 0x08, 0x10, 0x20, 0x40, 0x80, 0xF8, 0x00,  // 'Z'
        0x70, 0x40, 0x40, 0x40, 0x40, 0x40, 0x70, 0x00,  // '['
        0x80, 0x80, 0x40, 0x20, 0x10, 0x08, 0x08, 0x00,  // '\\'
        0x70, 0x10, 0x10, 0x10, 0x10, 0x10, 0x70, 0x00,  // ']'
        0x20, 0x50, 0x88, 0x00, 0x00, 0x00, 0x00, 0x00,  // '^'
        0x00, 0x00, 0x00, 0x00, 0x00, 0x00, 0xF8, 0x00,  // '_'
        0x80, 0x40, 0x00, 0x00, 0x00, 0x00, 0x00, 0x00,  // '`'
        0x00, 0x00, 0x70, 0x08, 0x78, 0x88, 0x78, 0x00,  // 'a'
        0x80, 0x80, 0xF0, 0x88, 0x88, 0x88, 0xF0, 0x00,  // 'b'
        0x00, 0x00, 0x70, 0x88, 0x80, 0x88, 0x70, 0x00,  // 'c'
        0x08, 0x08, 0x78, 0x88, 0x88, 0x88, 0x78, 0x00,  // 'd'
        0x00, 0x00, 0x70, 0x88, 0xF8, 0x80, 0x70, 0x00,  // 'e'
        0x10, 0x20, 0x70, 0x20, 0x20, 0x20, 0x20, 0x00,  // 'f'
        0x00, 0x00, 0x78, 0x88, 0x88, 0x78, 0x08, 0x70,  // 'g'
        0x80, 0x80, 0xF0, 0x88, 0x88, 0x88, 0x88, 0x00,  // 'h'
        0x20, 0x00, 0x60, 0x20, 0x20, 0x20, 0x70, 0x00,  // 'i'
        0x08, 0x00, 0x18, 0x08, 0x08, 0x08, 0x88, 0x70,  // 'j'
        0x80, 0x80, 0x88, 0x90, 0xE0, 0x90, 0x88, 0x00,  // 'k'
        0x60, 0x20, 0x20, 0x20, 0x20, 0x20, 0x70, 0x00,  // 'l'
        0x00, 0x00, 0xD0, 0xA8, 0xA8, 0xA8, 0x88, 0x00,  // 'm'
        0x00, 0x00, 0xF0, 0x88, 0x88, 0x88, 0x88, 0x00,  // 'n'
        0x00, 0x00, 0x70, 0x88, 0x88, 0x88, 0x70, 0x00,  // 'o'
        0x00, 0x00, 0xF0, 0x88, 0x88, 0xF0, 0x80, 0x80,  // 'p'
        0x00, 0x00, 0x78, 0x88, 0x88, 0x78, 0x08, 0x08,  // 'q'
        0x00, 0x00, 0xB0, 0xC8, 0x80, 0x80, 0x80, 0x00,  // 'r'
        0x00, 0x00, 0x70, 0x80, 0x70, 0x08, 0x70, 0x00,  // 's'
        0x20, 0x20, 0xF8, 0x20, 0x20, 0x28, 0x10, 0x00,  // 't'
        0x00, 0x00, 0x88, 0x88, 0x88, 0x88, 0x78, 0x00,  // 'u'
        0x00, 0x00, 0x88, 0x88, 0x88, 0x50, 0x20, 0x00,  // 'v'
        0x00, 0x00, 0x88, 0x88, 0xA8, 0xA8, 0x50, 0x00,  // 'w'
        0x00, 0x00, 0x88, 0x50, 0x20, 0x50, 0x88, 0x00,  // 'x'
        0x00, 0x00, 0x88, 0x88, 0x78, 0x08, 0x70, 0x00,  // 'y'
        0x00, 0x00, 0xF8, 0x10, 0x20, 0x40, 0xF8, 0x00,  // 'z'
        0x10, 0x20, 0x20, 0x40, 0x20, 0x20, 0x10, 0x00,  // '{'
        0x20, 0x20, 0x20, 0x20, 0x20, 0x20, 0x20, 0x00,  // '|'
        0x40, 0x20, 0x20, 0x10, 0x20, 0x20, 0x40, 0x00,  // '}'
        0x00, 0x00, 0x00, 0x68, 0x90, 0x00, 0x00, 0x00,  // '~'
    ];
    assert(r@ =~= glyph_table());
    r
}

/// The eight rows of the glyph for a printable ASCII character; `None` for
/// any other character.
pub fn glyph_rows(ch: char) -> (r: Option<[u8; 8]>)
    ensures
        has_glyph(ch) ==> (r matches Some(rows) && rows@ == glyph_of(ch)),
        !has_glyph(ch) ==> r is None,
{
    let idx = ch as u32;
    if idx < FIRST_GLYPH || idx > LAST_GLYPH {
        return None;
    }
    let table = glyph_bytes();
    assert(table@.len() == 760);
    let off = ((idx - FIRST_GLYPH) * 8) as usize;
    let rows: [u8; 8] = [
        table[off],
        table[off + 1],
        table[off + 2],
        table[off + 3],
        table[off + 4],
        table[off + 5],
        table[off + 6],
        table[off + 7],
    ];
    assert(rows@ =~= glyph_of(ch));
    Some(rows)
}

} // verus!
