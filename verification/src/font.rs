//! The bitmap font: 5x7 glyphs for printable ASCII, each in a 6x8 cell, and the fitting of
//! text to a number of cells.

use vstd::prelude::*;
use crate::text::push_char;

verus! {

/// Glyph width in pixels.
pub const GLYPH_WIDTH: i32 = 5;
/// Glyph height in pixels.
pub const GLYPH_HEIGHT: i32 = 7;

/// The glyphs of the printable ASCII characters from `' '` to `'~'`: seven rows each, top
/// first, the five low bits of a row its pixels with the leftmost in bit 4.
pub const GLYPHS: [[u8; 7]; 95] = [
[0, 0, 0, 0, 0, 0, 0],
    [4, 4, 4, 4, 4, 0, 4],
    [10, 10, 10, 0, 0, 0, 0],
    [10, 10, 31, 10, 31, 10, 10],
    [4, 15, 20, 14, 5, 30, 4],
    [24, 25, 2, 4, 8, 19, 3],
    [12, 18, 20, 8, 21, 18, 13],
    [12, 4, 8, 0, 0, 0, 0],
    [2, 4, 8, 8, 8, 4, 2],
    [8, 4, 2, 2, 2, 4, 8],
    [0, 4, 21, 14, 21, 4, 0],
    [0, 4, 4, 31, 4, 4, 0],
    [0, 0, 0, 0, 12, 4, 8],
    [0, 0, 0, 31, 0, 0, 0],
    [0, 0, 0, 0, 0, 12, 12],
    [0, 1, 2, 4, 8, 16, 0],
    [14, 17, 19, 21, 25, 17, 14],
    [4, 12, 4, 4, 4, 4, 14],
    [14, 17, 1, 2, 4, 8, 31],
    [31, 2, 4, 2, 1, 17, 14],
    [2, 6, 10, 18, 31, 2, 2],
    [31, 16, 30, 1, 1, 17, 14],
    [6, 8, 16, 30, 17, 17, 14],
    [31, 1, 2, 4, 8, 8, 8],
    [14, 17, 17, 14, 17, 17, 14],
    [14, 17, 17, 15, 1, 2, 12],
    [0, 12, 12, 0, 12, 12, 0],
    [0, 12, 12, 0, 12, 4, 8],
    [2, 4, 8, 16, 8, 4, 2],
    [0, 0, 31, 0, 31, 0, 0],
    [8, 4, 2, 1, 2, 4, 8],
    [14, 17, 1, 2, 4, 0, 4],
    [14, 17, 1, 13, 21, 21, 14],
    [14, 17, 17, 17, 31, 17, 17],
    [30, 17, 17, 30, 17, 17, 30],
    [14, 17, 16, 16, 16, 17, 14],
    [28, 18, 17, 17, 17, 18, 28],
    [31, 16, 16, 30, 16, 16, 31],
    [31, 16, 16, 30, 16, 16, 16],
    [14, 17, 16, 23, 17, 17, 15],
    [17, 17, 17, 31, 17, 17, 17],
    [14, 4, 4, 4, 4, 4, 14],
    [7, 2, 2, 2, 2, 18, 12],
    [17, 18, 20, 24, 20, 18, 17],
    [16, 16, 16, 16, 16, 16, 31],
    [17, 27, 21, 21, 17, 17, 17],
    [17, 17, 25, 21, 19, 17, 17],
    [14, 17, 17, 17, 17, 17, 14],
    [30, 17, 17, 30, 16, 16, 16],
    [14, 17, 17, 17, 21, 18, 13],
    [30, 17, 17, 30, 20, 18, 17],
    [15, 16, 16, 14, 1, 1, 30],
    [31, 4, 4, 4, 4, 4, 4],
    [17, 17, 17, 17, 17, 17, 14],
    [17, 17, 17, 17, 17, 10, 4],
    [17, 17, 17, 21, 21, 21, 10],
    [17, 17, 10, 4, 10, 17, 17],
    [17, 17, 17, 10, 4, 4, 4],
    [31, 1, 2, 4, 8, 16, 31],
    [14, 8, 8, 8, 8, 8, 14],
    [0, 16, 8, 4, 2, 1, 0],
    [14, 2, 2, 2, 2, 2, 14],
    [4, 10, 17, 0, 0, 0, 0],
    [0, 0, 0, 0, 0, 0, 31],
    [8, 4, 2, 0, 0, 0, 0],
    [0, 0, 14, 1, 15, 17, 15],
    [16, 16, 22, 25, 17, 17, 30],
    [0, 0, 14, 16, 16, 17, 14],
    [1, 1, 13, 19, 17, 17, 15],
    [0, 0, 14, 17, 31, 16, 14],
    [6, 9, 8, 28, 8, 8, 8],
    [0, 15, 17, 17, 15, 1, 14],
    [16, 16, 22, 25, 17, 17, 17],
    [4, 0, 12, 4, 4, 4, 14],
    [2, 0, 6, 2, 2, 18, 12],
    [16, 16, 18, 20, 24, 20, 18],
    [12, 4, 4, 4, 4, 4, 14],
    [0, 0, 26, 21, 21, 17, 17],
    [0, 0, 22, 25, 17, 17, 17],
    [0, 0, 14, 17, 17, 17, 14],
    [0, 0, 30, 17, 30, 16, 16],
    [0, 0, 13, 19, 15, 1, 1],
    [0, 0, 22, 25, 16, 16, 16],
    [0, 0, 14, 16, 14, 1, 30],
    [8, 8, 28, 8, 8, 9, 6],
    [0, 0, 17, 17, 17, 19, 13],
    [0, 0, 17, 17, 17, 10, 4],
    [0, 0, 17, 17, 21, 21, 10],
    [0, 0, 17, 10, 4, 10, 17],
    [0, 0, 17, 17, 15, 1, 14],
    [0, 0, 31, 2, 4, 8, 31],
    [2, 4, 4, 8, 4, 4, 2],
    [4, 4, 4, 4, 4, 4, 4],
    [8, 4, 4, 2, 4, 4, 8],
    [0, 0, 8, 21, 2, 0, 0],
];

/// The glyph index of a character: its place from `' '` for printable ASCII, the place of
/// `'?'` for anything else.
pub open spec fn spec_glyph_index(c: char) -> int {
    if ' ' <= c && c <= '~' {
        c as int - 32
    } else {
        31
    }
}

/// The rows of a character's glyph.
pub open spec fn spec_glyph(c: char) -> [u8; 7] {
    GLYPHS[spec_glyph_index(c)]
}

/// Whether a glyph's rows ink the pixel at `(column, row)` of its 5x7 box.
pub open spec fn spec_ink(glyph: [u8; 7], column: int, row: int) -> bool {
    &&& 0 <= column < 5
    &&& 0 <= row < 7
    &&& (glyph[row] >> ((4 - column) as u8)) & 1u8 == 1u8
}

/// The glyph of a character: its own for printable ASCII, `?` for anything else.
pub fn glyph(c: char) -> (r: [u8; 7])
    ensures
        r == spec_glyph(c),
        ' ' <= c <= '~' ==> r == GLYPHS[c as int - 32],
        !(' ' <= c <= '~') ==> r == GLYPHS['?' as int - 32],
{
    if ' ' <= c && c <= '~' {
        GLYPHS[(c as u32 - 32) as usize]
    } else {
        GLYPHS[31]
    }
}

/// Whether a glyph inks the pixel at `(column, row)` of its 5x7 box.
pub fn ink(glyph: [u8; 7], column: i32, row: i32) -> (r: bool)
    ensures
        r == spec_ink(glyph, column as int, row as int),
{
    if column < 0 || column >= GLYPH_WIDTH || row < 0 || row >= GLYPH_HEIGHT {
        return false;
    }
    (glyph[row as usize] >> ((4 - column) as u8)) & 1u8 == 1u8
}

/// Text fitted to `cells`: its first `cells` characters.
pub open spec fn spec_fit(text: Seq<char>, cells: int) -> Seq<char> {
    if text.len() <= cells {
        text
    } else {
        text.take(cells)
    }
}

/// Text fitted to `cells`: cut after its first `cells` characters.
pub fn fit(text: &str, cells: usize) -> (r: String)
    ensures
        r@ == spec_fit(text@, cells as int),
{
    let n = text.unicode_len();
    let keep = if n <= cells {
        n
    } else {
        cells
    };
    let mut out = String::new();
    let mut i: usize = 0;
    while i < keep
        invariant
            i <= keep,
            keep <= n,
            n == text@.len(),
            out@ == text@.take(i as int),
        decreases keep - i,
    {
        push_char(&mut out, text.get_char(i));
        i = i + 1;
        assert(text@.take(i as int) =~= text@.take(i - 1).push(text@[i - 1]));
    }
    assert(text@.take(n as int) =~= text@);
    out
}

/// Fitted text is a prefix of the text, at most `cells` long.
pub proof fn lemma_fit_prefix(text: Seq<char>, cells: int)
    requires
        cells >= 0,
    ensures
        spec_fit(text, cells).len() <= cells,
        spec_fit(text, cells).len() <= text.len(),
        spec_fit(text, cells) == text.take(spec_fit(text, cells).len() as int),
{
    assert(text.take(text.len() as int) =~= text);
}

/// Every printable ASCII character is drawn with its own row of the font table, the one at
/// its code point's offset from the space; a digit `d` is the table's sixteenth row on. Any
/// other character is drawn as `?`.
pub proof fn lemma_each_character_its_own_glyph(c: char)
    ensures
        ' ' <= c <= '~' ==> spec_glyph(c) == GLYPHS[c as int - 32],
        '0' <= c <= '9' ==> spec_glyph(c) == GLYPHS[16 + (c as int - '0' as int)],
        !(' ' <= c <= '~') ==> spec_glyph(c) == spec_glyph('?') && spec_glyph('?') == GLYPHS[31],
{
}

} // verus!
