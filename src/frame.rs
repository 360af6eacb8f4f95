use vstd::prelude::*;
use vstd::arithmetic::div_mod::lemma_fundamental_div_mod_converse;

verus! {

/// Width of the screen, in cells.
pub const SCREEN_WIDTH: usize = 75;

/// Height of the screen, in cells.
pub const SCREEN_HEIGHT: usize = 75;

/// Row-major position of the cell in column `x` and row `y`.
pub open spec fn cell_index(x: int, y: int, width: int) -> int {
    y * width + x
}

/// Whether a cell is traced: row 0 and column 0 are left blank.
pub open spec fn is_traced(x: int, y: int) -> bool {
    x >= 1 && y >= 1
}

/// What a frame holds in the cell at column `x`, row `y`: a value that `shade`
/// may return for that cell where the cell is traced, else `blank`.
pub open spec fn cell_holds<T, F: Fn(usize, usize) -> T>(
    shade: F,
    blank: T,
    x: usize,
    y: usize,
    value: T,
) -> bool {
    if is_traced(x as int, y as int) {
        call_ensures(shade, (x, y), value)
    } else {
        value == blank
    }
}

/// Fills a `width` by `height` buffer in row-major order: each traced cell
/// gets `shade(x, y)`, the cells of row 0 and column 0 get `blank`.
pub fn render_frame<T: Copy, F: Fn(usize, usize) -> T>(
    width: usize,
    height: usize,
    blank: T,
    shade: F,
) -> (r: Vec<T>)
    requires
        width * height <= usize::MAX,
        forall|x: usize, y: usize|
            1 <= x < width && 1 <= y < height ==> call_requires(shade, (x, y)),
    ensures
        r.len() == width * height,
        forall|x: usize, y: usize|
            x < width && y < height ==> #[trigger] cell_holds(
                shade,
                blank,
                x,
                y,
                r@[cell_index(x as int, y as int, width as int)],
            ),
{
    let total: usize = width * height;
    let mut r: Vec<T> = Vec::new();
    let mut k: usize = 0;
    while k < total
        invariant
            total == width * height,
            k <= total,
            r.len() == k,
            width > 0 || total == 0,
            forall|x: usize, y: usize|
                1 <= x < width && 1 <= y < height ==> call_requires(shade, (x, y)),
            forall|j: int|
                0 <= j < k ==> cell_holds(
                    shade,
                    blank,
                    (j % (width as int)) as usize,
                    (j / (width as int)) as usize,
                    #[trigger] r@[j],
                ),
        decreases total - k,
    {
        let x: usize = k % width;
        let y: usize = k / width;
        proof {
            assert(y < height) by (nonlinear_arith)
                requires
                    y == k / width,
                    k < width * height,
                    width > 0,
            ;
        }
        if x >= 1 && y >= 1 {
            let v = shade(x, y);
            r.push(v);
        } else {
            r.push(blank);
        }
        k = k + 1;
    }
    proof {
        assert forall|x: usize, y: usize| x < width && y < height implies #[trigger] cell_holds(
            shade,
            blank,
            x,
            y,
            r@[cell_index(x as int, y as int, width as int)],
        ) by {
            let j = cell_index(x as int, y as int, width as int);
            assert(0 <= j < total) by (nonlinear_arith)
                requires
                    j == y * width + x,
                    x < width,
                    y < height,
                    total == width * height,
            ;
            lemma_fundamental_div_mod_converse(j, width as int, y as int, x as int);
        }
    }
    r
}

} // verus!
