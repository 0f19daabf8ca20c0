use vstd::prelude::*;

verus! {

/// An axis-aligned rectangle in pixels: `(x0, y0)` is its top-left corner and
/// `(x1, y1)` its bottom-right one.
#[derive(Clone, Copy, Debug, PartialEq, Eq, Structural)]
pub struct CellRect {
    pub x0: u64,
    pub y0: u64,
    pub x1: u64,
    pub y1: u64,
}

/// The pixel extent of one cell when `window_px` pixels are shared among
/// `cells` cells.
pub fn cell_extent(window_px: u32, cells: u32) -> (px: u32)
    requires
        cells > 0,
    ensures
        px == window_px / cells,
{
    window_px / cells
}

proof fn lemma_scaled_fits(a: u32, b: u32, c: u32)
    ensures
        a * b + c <= u64::MAX,
{
    assert(a * b + c <= u64::MAX) by (nonlinear_arith)
        requires
            a <= 0xffff_ffffu64,
            b <= 0xffff_ffffu64,
            c <= 0xffff_ffffu64,
    ;
}

/// The rectangle drawn for cell `(row, col)`: cells are laid out on a grid of
/// `stride_w` by `stride_h` pixels, and each is drawn as a `size_w` by
/// `size_h` rectangle from its cell's top-left corner.
pub fn cell_rect(
    row: u32,
    col: u32,
    stride_w: u32,
    stride_h: u32,
    size_w: u32,
    size_h: u32,
) -> (rect: CellRect)
    ensures
        rect.x0 == col * stride_w,
        rect.y0 == row * stride_h,
        rect.x1 == rect.x0 + size_w,
        rect.y1 == rect.y0 + size_h,
{
    proof {
        lemma_scaled_fits(col, stride_w, size_w);
        lemma_scaled_fits(row, stride_h, size_h);
    }
    let x0 = col as u64 * stride_w as u64;
    let y0 = row as u64 * stride_h as u64;
    CellRect { x0, y0, x1: x0 + size_w as u64, y1: y0 + size_h as u64 }
}

} // verus!
