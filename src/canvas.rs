use vstd::prelude::*;
use crate::glyph::{glyph, glyph_of};

verus! {

/// Text of row `y` of the canvas: each cell's glyph drawn twice side by side,
/// since a character cell is about twice as tall as it is wide, then a
/// line break.
pub open spec fn canvas_row(levels: Seq<usize>, width: nat, y: nat) -> Seq<char> {
    Seq::new(2 * width, |k: int| glyph_of(levels[y * width + k / 2] as nat)).push('\n')
}

/// Text of rows 1 up to (not including) `rows`; row 0 is never drawn.
pub open spec fn canvas_text(levels: Seq<usize>, width: nat, rows: nat) -> Seq<char>
    decreases rows,
{
    if rows <= 1 {
        Seq::empty()
    } else {
        canvas_text(levels, width, (rows - 1) as nat) + canvas_row(
            levels,
            width,
            (rows - 1) as nat,
        )
    }
}

/// Lays out a row-major buffer of brightness levels as text.
pub fn compose_canvas(levels: &Vec<usize>, width: usize, height: usize) -> (r: Vec<char>)
    requires
        levels.len() == width * height,
    ensures
        r@ == canvas_text(levels@, width as nat, height as nat),
{
    let mut out: Vec<char> = Vec::new();
    let mut y: usize = 1;
    while y < height
        invariant
            levels.len() == width * height,
            1 <= y,
            y <= height || y == 1,
            out@ == canvas_text(levels@, width as nat, y as nat),
        decreases height - y,
    {
        let ghost before = out@;
        let ghost row = Seq::new(
            2 * width as nat,
            |k: int| glyph_of(levels@[y * width + k / 2] as nat),
        );
        let mut x: usize = 0;
        while x < width
            invariant
                levels.len() == width * height,
                1 <= y < height,
                x <= width,
                row == Seq::new(
                    2 * width as nat,
                    |k: int| glyph_of(levels@[y * width + k / 2] as nat),
                ),
                out@ == before + row.subrange(0, 2 * x),
            decreases width - x,
        {
            assert(y * width + x < width * height) by (nonlinear_arith)
                requires
                    x < width,
                    y < height,
            ;
            let g = glyph(levels[y * width + x]);
            out.push(g);
            out.push(g);
            assert(out@ =~= before + row.subrange(0, 2 * x + 2));
            x = x + 1;
        }
        out.push('\n');
        assert(out@ =~= canvas_text(levels@, width as nat, (y + 1) as nat));
        y = y + 1;
    }
    out
}

} // verus!
