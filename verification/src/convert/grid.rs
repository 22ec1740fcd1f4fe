//! Row-major pixel grids: placing a scaled image on the mode's paper
//! (letterboxing) and reading one attribute cell's pixels. The pixels may
//! be of any type, so the floating-point stages around the library use
//! these for their addressing.
use vstd::prelude::*;

verus! {

/// What the paper holds at `(x, y)`: the scaled image's pixel inside the
/// `dw x dh` rectangle at `(ox, oy)`, the matte outside it.
pub open spec fn placed<T>(scaled: Seq<T>, dw: int, dh: int, ox: int, oy: int, matte: T, x: int, y: int) -> T {
    if oy <= y < oy + dh && ox <= x < ox + dw {
        scaled[(y - oy) * dw + (x - ox)]
    } else {
        matte
    }
}

proof fn lemma_row_index(y: int, x: int, w: int, h: int)
    requires
        0 <= y < h,
        0 <= x < w,
    ensures
        0 <= y * w + x < w * h,
        y * w + x < (y + 1) * w,
        y * w <= y * w + x,
{
    assert(0 <= y * w + x < w * h) by (nonlinear_arith)
        requires
            0 <= y < h,
            0 <= x < w,
    ;
    assert((y + 1) * w == y * w + w) by (nonlinear_arith);
}

/// Place a `dw x dh` image on a `pw x ph` paper at `(ox, oy)`, filling the
/// rest with the matte.
pub fn place_on_paper<T: Copy>(
    scaled: &[T],
    dw: usize,
    dh: usize,
    ox: usize,
    oy: usize,
    pw: usize,
    ph: usize,
    matte: T,
) -> (out: Vec<T>)
    requires
        scaled@.len() == dw * dh,
        ox + dw <= pw,
        oy + dh <= ph,
        pw * ph <= usize::MAX,
    ensures
        out@.len() == pw * ph,
        forall|x: int, y: int|
            0 <= x < pw && 0 <= y < ph ==> #[trigger] out@[y * pw + x] == placed(
                scaled@,
                dw as int,
                dh as int,
                ox as int,
                oy as int,
                matte,
                x,
                y,
            ),
{
    let mut out: Vec<T> = Vec::new();
    let n = scaled.len();
    let mut y: usize = 0;
    while y < ph
        invariant
            y <= ph,
            n == scaled@.len(),
            scaled@.len() == dw * dh,
            ox + dw <= pw,
            oy + dh <= ph,
            pw * ph <= usize::MAX,
            out@.len() == y * pw,
            forall|xx: int, yy: int|
                0 <= xx < pw && 0 <= yy < y ==> #[trigger] out@[yy * pw + xx] == placed(
                    scaled@,
                    dw as int,
                    dh as int,
                    ox as int,
                    oy as int,
                    matte,
                    xx,
                    yy,
                ),
        decreases ph - y,
    {
        let ghost row_start = out@.len();
        assert(row_start == y * pw);
        assert((y + 1) * pw <= pw * ph) by (nonlinear_arith)
            requires
                y < ph,
        ;
        let mut x: usize = 0;
        while x < pw
            invariant
                x <= pw,
                y < ph,
                n == scaled@.len(),
                scaled@.len() == dw * dh,
                ox + dw <= pw,
                oy + dh <= ph,
                pw * ph <= usize::MAX,
                (y + 1) * pw <= pw * ph,
                row_start == y * pw,
                out@.len() == row_start + x,
                forall|xx: int, yy: int|
                    0 <= xx < pw && 0 <= yy < y ==> #[trigger] out@[yy * pw + xx] == placed(
                        scaled@,
                        dw as int,
                        dh as int,
                        ox as int,
                        oy as int,
                        matte,
                        xx,
                        yy,
                    ),
                forall|xx: int|
                    0 <= xx < x ==> #[trigger] out@[row_start + xx] == placed(
                        scaled@,
                        dw as int,
                        dh as int,
                        ox as int,
                        oy as int,
                        matte,
                        xx,
                        y as int,
                    ),
            decreases pw - x,
        {
            let v = if oy <= y && y < oy + dh && ox <= x && x < ox + dw {
                proof {
                    lemma_row_index((y - oy) as int, (x - ox) as int, dw as int, dh as int);
                    assert((y - oy) * dw <= (y - oy) * dw + (x - ox));
                }
                scaled[(y - oy) * dw + (x - ox)]
            } else {
                matte
            };
            let ghost before = out@;
            out.push(v);
            proof {
                assert forall|xx: int, yy: int|
                    0 <= xx < pw && 0 <= yy < y implies #[trigger] out@[yy * pw + xx] == placed(
                        scaled@,
                        dw as int,
                        dh as int,
                        ox as int,
                        oy as int,
                        matte,
                        xx,
                        yy,
                    ) by {
                    lemma_row_index(yy, xx, pw as int, y as int);
                    assert(out@[yy * pw + xx] == before[yy * pw + xx]);
                }
            }
            x += 1;
        }
        proof {
            assert forall|xx: int, yy: int|
                0 <= xx < pw && 0 <= yy < y + 1 implies #[trigger] out@[yy * pw + xx] == placed(
                    scaled@,
                    dw as int,
                    dh as int,
                    ox as int,
                    oy as int,
                    matte,
                    xx,
                    yy,
                ) by {
                if yy == y {
                    assert(out@[row_start + xx] == placed(
                        scaled@,
                        dw as int,
                        dh as int,
                        ox as int,
                        oy as int,
                        matte,
                        xx,
                        y as int,
                    ));
                }
            }
            assert((y + 1) * pw == y * pw + pw) by (nonlinear_arith);
        }
        y += 1;
    }
    assert(ph * pw == pw * ph) by (nonlinear_arith);
    out
}

/// Copy cell `(cx, cy)` of a row-major `width`-wide grid, `cell_w x
/// cell_h` pixels, row by row.
pub fn cell_pixels<T: Copy>(
    pixels: &[T],
    width: usize,
    cell_w: usize,
    cell_h: usize,
    cx: usize,
    cy: usize,
) -> (out: Vec<T>)
    requires
        cell_w > 0,
        (cx + 1) * cell_w <= width,
        (cy + 1) * cell_h * width <= pixels@.len(),
    ensures
        out@.len() == cell_w * cell_h,
        forall|c: int, r: int|
            0 <= c < cell_w && 0 <= r < cell_h ==> #[trigger] out@[r * cell_w + c] == pixels@[(cy * cell_h + r)
                * width + cx * cell_w + c],
{
    let mut out: Vec<T> = Vec::new();
    let mut r: usize = 0;
    assert((cx + 1) * cell_w == cx * cell_w + cell_w) by (nonlinear_arith);
    assert((cy + 1) * cell_h == cy * cell_h + cell_h) by (nonlinear_arith);
    let n = pixels.len();
    assert(pixels@.len() <= usize::MAX);
    assert((cy + 1) * cell_h <= (cy + 1) * cell_h * width) by (nonlinear_arith)
        requires
            width >= 1,
    ;
    while r < cell_h
        invariant
            r <= cell_h,
            cell_w > 0,
            width >= 1,
            pixels@.len() <= usize::MAX,
            (cy + 1) * cell_h <= (cy + 1) * cell_h * width,
            (cx + 1) * cell_w <= width,
            (cx + 1) * cell_w == cx * cell_w + cell_w,
            (cy + 1) * cell_h == cy * cell_h + cell_h,
            (cy + 1) * cell_h * width <= pixels@.len(),
            out@.len() == r * cell_w,
            forall|c: int, rr: int|
                0 <= c < cell_w && 0 <= rr < r ==> #[trigger] out@[rr * cell_w + c] == pixels@[(cy * cell_h + rr)
                    * width + cx * cell_w + c],
        decreases cell_h - r,
    {
        let ghost row_start = out@.len();
        let row = cy * cell_h + r;
        assert(row < cy * cell_h + cell_h);
        assert((row + 1) * width <= (cy + 1) * cell_h * width) by (nonlinear_arith)
            requires
                row < cy * cell_h + cell_h,
                (cy + 1) * cell_h == cy * cell_h + cell_h,
        ;
        assert((row + 1) * width == row * width + width) by (nonlinear_arith);
        assert(cx * cell_w <= width);
        let base = row * width + cx * cell_w;
        let mut c: usize = 0;
        while c < cell_w
            invariant
                c <= cell_w,
                r < cell_h,
                row == cy * cell_h + r,
                base == row * width + cx * cell_w,
                cx * cell_w + cell_w <= width,
                pixels@.len() <= usize::MAX,
                (row + 1) * width <= pixels@.len(),
                (row + 1) * width == row * width + width,
                row_start == r * cell_w,
                out@.len() == row_start + c,
                forall|cc: int, rr: int|
                    0 <= cc < cell_w && 0 <= rr < r ==> #[trigger] out@[rr * cell_w + cc] == pixels@[(cy * cell_h
                        + rr) * width + cx * cell_w + cc],
                forall|cc: int| 0 <= cc < c ==> #[trigger] out@[row_start + cc] == pixels@[base + cc],
            decreases cell_w - c,
        {
            let ghost before = out@;
            out.push(pixels[base + c]);
            proof {
                assert forall|cc: int, rr: int|
                    0 <= cc < cell_w && 0 <= rr < r implies #[trigger] out@[rr * cell_w + cc] == pixels@[(cy
                        * cell_h + rr) * width + cx * cell_w + cc] by {
                    lemma_row_index(rr, cc, cell_w as int, r as int);
                    assert(out@[rr * cell_w + cc] == before[rr * cell_w + cc]);
                }
            }
            c += 1;
        }
        proof {
            assert forall|cc: int, rr: int|
                0 <= cc < cell_w && 0 <= rr < r + 1 implies #[trigger] out@[rr * cell_w + cc] == pixels@[(cy
                    * cell_h + rr) * width + cx * cell_w + cc] by {
                if rr == r {
                    assert(out@[row_start + cc] == pixels@[base + cc]);
                }
            }
            assert((r + 1) * cell_w == r * cell_w + cell_w) by (nonlinear_arith);
        }
        r += 1;
    }
    assert(cell_h * cell_w == cell_w * cell_h) by (nonlinear_arith);
    out
}

} // verus!
