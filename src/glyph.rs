use vstd::prelude::*;

verus! {

/// Number of glyphs in the brightness table.
pub const GLYPH_COUNT: usize = 13;

/// The brightness table, from darkest (a space) to brightest (`@`).
pub open spec fn glyph_table() -> Seq<char> {
    seq![' ', '.', ',', '-', '~', ':', ';', '=', '!', '*', '#', '$', '@']
}

/// Position in the table of a brightness level: levels past the end of the
/// table are clamped to its last entry.
pub open spec fn glyph_index(level: nat) -> nat {
    if level < GLYPH_COUNT {
        level
    } else {
        (GLYPH_COUNT - 1) as nat
    }
}

/// The glyph drawn for a brightness level.
pub open spec fn glyph_of(level: nat) -> char {
    glyph_table()[glyph_index(level) as int]
}

/// Returns the glyph for a brightness level; out-of-range levels give the
/// brightest glyph.
pub fn glyph(level: usize) -> (r: char)
    ensures
        r == glyph_of(level as nat),
{
    match level {
        0 => ' ',
        1 => '.',
        2 => ',',
        3 => '-',
        4 => '~',
        5 => ':',
        6 => ';',
        7 => '=',
        8 => '!',
        9 => '*',
        10 => '#',
        11 => '$',
        _ => '@',
    }
}

/// The table has `GLYPH_COUNT` entries, starts with a space and ends with `@`;
/// level zero draws a space, and every level from the last index on draws `@`.
pub proof fn lemma_glyph_ends(level: nat)
    ensures
        glyph_table().len() == GLYPH_COUNT,
        glyph_of(0) == ' ',
        level >= GLYPH_COUNT - 1 ==> glyph_of(level) == '@',
{
}

/// A brighter level never draws a glyph earlier in the table than a dimmer one.
pub proof fn lemma_glyph_monotone(a: nat, b: nat)
    requires
        a <= b,
    ensures
        glyph_index(a) <= glyph_index(b),
        glyph_index(b) < glyph_table().len(),
{
}

} // verus!
