use vstd::prelude::*;
use vstd::arithmetic::div_mod::lemma_fundamental_div_mod_converse;
use crate::cell::{color_of, Cell};

verus! {

/// Width of the display, in pixels.
pub const WIDTH: usize = 800;

/// Height of the display, in pixels.
pub const HEIGHT: usize = 600;

/// Side of the square block of pixels that shows one cell.
pub const CELL_SIZE: usize = 10;

/// The value of pixel `i` of a row-major buffer `dw` pixels wide, after a
/// grid `g` of width `w` is painted on it in blocks of `cs × cs` pixels:
/// the colour of the cell whose block holds the pixel, or `prev`, the
/// pixel's earlier value, when no cell's block holds it.
pub open spec fn pixel_after(g: Seq<Seq<Cell>>, w: int, dw: int, cs: int, i: int, prev: u32) -> u32 {
    let y = i / dw;
    let x = i % dw;
    if cs > 0 && y / cs < g.len() && x / cs < w {
        color_of(g[y / cs][x / cs])
    } else {
        prev
    }
}

/// The whole buffer `buf` after `g` is painted on it.
pub open spec fn rendered(g: Seq<Seq<Cell>>, w: int, dw: int, cs: int, buf: Seq<u32>) -> Seq<u32> {
    Seq::new(buf.len(), |i: int| pixel_after(g, w, dw, cs, i, buf[i]))
}

/// Every pixel of the `cs × cs` block whose top-left corner is at
/// `(col × cs, row × cs)` and that lies inside a `dw × dh` buffer takes the
/// colour of the cell at `(row, col)`.
pub proof fn lemma_block_painted(
    g: Seq<Seq<Cell>>,
    w: int,
    dw: int,
    dh: int,
    cs: int,
    buf: Seq<u32>,
    row: int,
    col: int,
    dy: int,
    dx: int,
)
    requires
        buf.len() == dw * dh,
        0 <= row < g.len(),
        0 <= col < w,
        0 <= dy < cs,
        0 <= dx < cs,
        col * cs + dx < dw,
        row * cs + dy < dh,
    ensures
        0 <= (row * cs + dy) * dw + (col * cs + dx) < buf.len(),
        rendered(g, w, dw, cs, buf)[(row * cs + dy) * dw + (col * cs + dx)] == color_of(g[row][col]),
{
    let x = col * cs + dx;
    let y = row * cs + dy;
    assert(0 <= x && 0 <= y) by (nonlinear_arith)
        requires 0 <= row, 0 <= col, 0 <= dy, 0 <= dx, 0 < cs, x == col * cs + dx, y == row * cs + dy;
    let i = y * dw + x;
    assert(0 <= i < dw * dh) by (nonlinear_arith)
        requires 0 <= x < dw, 0 <= y < dh, i == y * dw + x;
    lemma_fundamental_div_mod_converse(i, dw, y, x);
    lemma_fundamental_div_mod_converse(y, cs, row, dy);
    lemma_fundamental_div_mod_converse(x, cs, col, dx);
}

} // verus!
