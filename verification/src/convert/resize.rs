//! Where the image sits on the target mode's paper, and which source pixels
//! a box-filtered destination pixel averages, with their exact integer
//! weights. The averaging itself is floating point and is not part of this
//! library.
use vstd::prelude::*;

use crate::mediaspec::ScreenMode;

verus! {

/// Integer round-half-up division.
pub open spec fn round_div_spec(num: int, den: int) -> int {
    (2 * num + den) / (2 * den)
}

/// `v` clamped to `lo..=hi`.
pub open spec fn clamp(v: int, lo: int, hi: int) -> int {
    if v < lo {
        lo
    } else if v > hi {
        hi
    } else {
        v
    }
}

/// The rectangle `(dest_w, dest_h, off_x, off_y)`, in mode pixels, that a
/// `sw x sh` source fills on a `pw x ph` paper whose pixels have aspect
/// `par_h : par_v`: the source fills whichever display axis binds, the
/// other axis scales as `round(num/den)` clamped to `1..=paper`, and the
/// offsets centre it (the odd spare pixel goes right/bottom).
pub open spec fn fit_rect_spec(sw: int, sh: int, pw: int, ph: int, par_h: int, par_v: int) -> (
    int,
    int,
    int,
    int,
) {
    let disp_w = pw * par_h;
    let disp_h = ph * par_v;
    let (w, h) = if disp_w * sh <= disp_h * sw {
        (pw, clamp(round_div_spec(sh * disp_w, sw * par_v), 1, ph))
    } else {
        (clamp(round_div_spec(sw * disp_h, sh * par_h), 1, pw), ph)
    };
    (w, h, (pw - w) / 2, (ph - h) / 2)
}

/// Integer round-half-up division.
fn round_div(num: u64, den: u64) -> (q: u64)
    requires
        den > 0,
        2 * num + den <= u64::MAX,
        2 * den <= u64::MAX,
    ensures
        q == round_div_spec(num as int, den as int),
{
    (2 * num + den) / (2 * den)
}

/// The letterbox rectangle `(dest_w, dest_h, off_x, off_y)` in mode pixels
/// for a `src_w x src_h` source on `mode`'s paper.
pub fn fit_rect(src_w: u32, src_h: u32, mode: &ScreenMode) -> (r: (u32, u32, u32, u32))
    requires
        src_w > 0,
        src_h > 0,
        mode.paper_width > 0,
        mode.paper_height > 0,
        mode.pixel_aspect.horizontal > 0,
        mode.pixel_aspect.vertical > 0,
    ensures
        (r.0 as int, r.1 as int, r.2 as int, r.3 as int) == fit_rect_spec(
            src_w as int,
            src_h as int,
            mode.paper_width as int,
            mode.paper_height as int,
            mode.pixel_aspect.horizontal as int,
            mode.pixel_aspect.vertical as int,
        ),
{
    let pw = mode.paper_width as u64;
    let ph = mode.paper_height as u64;
    let par_h = mode.pixel_aspect.horizontal as u64;
    let par_v = mode.pixel_aspect.vertical as u64;
    let sw = src_w as u64;
    let sh = src_h as u64;
    assert(pw * par_h < 0x100_0000) by (nonlinear_arith)
        requires
            pw < 0x1_0000,
            par_h < 0x100,
    ;
    assert(ph * par_v < 0x100_0000) by (nonlinear_arith)
        requires
            ph < 0x1_0000,
            par_v < 0x100,
    ;
    let disp_w = pw * par_h;
    let disp_h = ph * par_v;
    assert(disp_w * sh < 0x100_0000 * 0x1_0000_0000) by (nonlinear_arith)
        requires
            disp_w < 0x100_0000,
            sh < 0x1_0000_0000,
    ;
    assert(disp_h * sw < 0x100_0000 * 0x1_0000_0000) by (nonlinear_arith)
        requires
            disp_h < 0x100_0000,
            sw < 0x1_0000_0000,
    ;
    let (dest_w, dest_h) = if disp_w * sh <= disp_h * sw {
        assert(sw * par_v > 0 && sw * par_v < 0x100 * 0x1_0000_0000) by (nonlinear_arith)
            requires
                sw > 0,
                sw < 0x1_0000_0000,
                par_v > 0,
                par_v < 0x100,
        ;
        let q = round_div(sh * disp_w, sw * par_v);
        let h = if q < 1 {
            1
        } else if q > ph {
            ph
        } else {
            q
        };
        (pw, h)
    } else {
        assert(sh * par_h > 0 && sh * par_h < 0x100 * 0x1_0000_0000) by (nonlinear_arith)
            requires
                sh > 0,
                sh < 0x1_0000_0000,
                par_h > 0,
                par_h < 0x100,
        ;
        let q = round_div(sw * disp_h, sh * par_h);
        let w = if q < 1 {
            1
        } else if q > pw {
            pw
        } else {
            q
        };
        (w, ph)
    };
    let ox = (pw - dest_w) / 2;
    let oy = (ph - dest_h) / 2;
    (dest_w as u32, dest_h as u32, ox as u32, oy as u32)
}

// --- box-filter taps -------------------------------------------------------------------

/// How much of source cell `[a, b)` lies inside the span `[lo, hi)`.
pub open spec fn overlap(lo: int, hi: int, a: int, b: int) -> int {
    (if hi < b { hi } else { b }) - (if lo > a { lo } else { a })
}

/// The first source pixel destination pixel `j` covers, when `src` source
/// pixels are resampled to `dst`: pixel `j` spans `[j*src, (j+1)*src)` in
/// units of `1/dst` source pixels.
pub open spec fn first_tap(j: int, src: int, dst: int) -> int {
    j * src / dst
}

/// The last source pixel destination pixel `j` covers.
pub open spec fn last_tap(j: int, src: int, dst: int) -> int {
    ((j + 1) * src - 1) / dst
}

/// The weight of source pixel `i` in destination pixel `j`: the overlap of
/// their spans, in units of `1/dst` source pixels.
pub open spec fn tap_weight(j: int, src: int, dst: int, i: int) -> int {
    overlap(j * src, (j + 1) * src, i * dst, (i + 1) * dst)
}

/// The sum of the weights of source pixels `first..first + m`.
pub open spec fn weight_sum(j: int, src: int, dst: int, m: nat) -> int
    decreases m,
{
    if m == 0 {
        0
    } else {
        weight_sum(j, src, dst, (m - 1) as nat) + tap_weight(j, src, dst, first_tap(j, src, dst) + m - 1)
    }
}

proof fn lemma_tap_bounds(j: int, src: int, dst: int)
    requires
        src >= 1,
        dst >= 1,
        0 <= j,
    ensures
        first_tap(j, src, dst) * dst <= j * src < (first_tap(j, src, dst) + 1) * dst,
        last_tap(j, src, dst) * dst <= (j + 1) * src - 1 < (last_tap(j, src, dst) + 1) * dst,
        0 <= first_tap(j, src, dst) <= last_tap(j, src, dst),
{
    let f = first_tap(j, src, dst);
    let l = last_tap(j, src, dst);
    let lo = j * src;
    let hi = (j + 1) * src;
    assert(lo >= 0) by (nonlinear_arith)
        requires
            lo == j * src,
            j >= 0,
            src >= 1,
    ;
    assert(hi == lo + src) by (nonlinear_arith)
        requires
            lo == j * src,
            hi == (j + 1) * src,
    ;
    vstd::arithmetic::div_mod::lemma_fundamental_div_mod(lo, dst);
    vstd::arithmetic::div_mod::lemma_fundamental_div_mod(hi - 1, dst);
    assert(f * dst <= lo < (f + 1) * dst) by (nonlinear_arith)
        requires
            lo == dst * (lo / dst) + lo % dst,
            0 <= lo % dst < dst,
            f == lo / dst,
    ;
    assert(l * dst <= hi - 1 < (l + 1) * dst) by (nonlinear_arith)
        requires
            hi - 1 == dst * ((hi - 1) / dst) + (hi - 1) % dst,
            0 <= (hi - 1) % dst < dst,
            l == (hi - 1) / dst,
    ;
    vstd::arithmetic::div_mod::lemma_div_is_ordered(lo, hi - 1, dst);
    vstd::arithmetic::div_mod::lemma_div_pos_is_pos(lo, dst);
}

/// The weights of the first `m` taps sum to how much of the span lies
/// below the end of tap `first + m - 1`.
proof fn lemma_weight_sum(j: int, src: int, dst: int, m: nat)
    requires
        src >= 1,
        dst >= 1,
        0 <= j,
        1 <= m <= last_tap(j, src, dst) - first_tap(j, src, dst) + 1,
    ensures
        weight_sum(j, src, dst, m) == overlap(
            j * src,
            (j + 1) * src,
            first_tap(j, src, dst) * dst,
            (first_tap(j, src, dst) + m) * dst,
        ),
    decreases m,
{
    lemma_tap_bounds(j, src, dst);
    let f = first_tap(j, src, dst);
    let i = f + m - 1;
    assert(i * dst == f * dst + (m - 1) * dst && (i + 1) * dst == f * dst + m * dst) by (nonlinear_arith)
        requires
            i == f + m - 1,
    ;
    if m > 1 {
        lemma_weight_sum(j, src, dst, (m - 1) as nat);
        let l = last_tap(j, src, dst);
        assert((f + 1) * dst <= i * dst && i * dst <= (l - 1) * dst + dst) by (nonlinear_arith)
            requires
                f + 1 <= i,
                i <= l,
                dst >= 1,
        ;
        assert((f + 1) * dst == f * dst + dst && (l - 1) * dst + dst == l * dst) by (nonlinear_arith);
    } else {
        assert(weight_sum(j, src, dst, 0) == 0);
    }
}

/// Box filtering keeps the area: the weights of the source pixels a
/// destination pixel covers are each positive and sum to the destination
/// pixel's span, `src` (in units of `1/dst` source pixels), so dividing
/// by their sum averages them.
pub proof fn lemma_box_weights_sum_to_the_span(j: int, src: int, dst: int)
    requires
        src >= 1,
        dst >= 1,
        0 <= j,
    ensures
        weight_sum(j, src, dst, (last_tap(j, src, dst) - first_tap(j, src, dst) + 1) as nat) == src,
        forall|i: int|
            first_tap(j, src, dst) <= i <= last_tap(j, src, dst) ==> #[trigger] tap_weight(j, src, dst, i) >= 1,
{
    lemma_tap_bounds(j, src, dst);
    let f = first_tap(j, src, dst);
    let l = last_tap(j, src, dst);
    let m = (l - f + 1) as nat;
    lemma_weight_sum(j, src, dst, m);
    assert((f + m) * dst == (l + 1) * dst);
    assert((j + 1) * src == j * src + src) by (nonlinear_arith);
    assert forall|i: int| f <= i <= l implies #[trigger] tap_weight(j, src, dst, i) >= 1 by {
        assert(f * dst <= i * dst && i * dst <= l * dst && (i + 1) * dst >= (f + 1) * dst) by (nonlinear_arith)
            requires
                f <= i <= l,
                dst >= 1,
        ;
        assert((i + 1) * dst == i * dst + dst) by (nonlinear_arith);
    }
}

/// The source pixels destination pixel `j` of `dst` averages when `src`
/// source pixels are box-resampled, with their integer weights (see
/// [`tap_weight`]), in source order.
pub fn box_taps(j: u32, src: u32, dst: u32) -> (r: Vec<(u32, u64)>)
    requires
        src >= 1,
        dst >= 1,
        j < dst,
    ensures
        r@.len() == last_tap(j as int, src as int, dst as int) - first_tap(j as int, src as int, dst as int) + 1,
        forall|k: int|
            0 <= k < r@.len() ==> #[trigger] r@[k].0 == first_tap(j as int, src as int, dst as int) + k
                && r@[k].1 == tap_weight(j as int, src as int, dst as int, first_tap(j as int, src as int, dst as int) + k),
{
    let ghost (ji, si, di) = (j as int, src as int, dst as int);
    proof {
        lemma_tap_bounds(ji, si, di);
        assert((ji + 1) * si <= di * si) by (nonlinear_arith)
            requires
                ji < di,
                si >= 1,
        ;
        assert(di * si <= 0xffff_ffff * 0xffff_ffff) by (nonlinear_arith)
            requires
                di <= 0xffff_ffff,
                si <= 0xffff_ffff,
                di >= 1,
                si >= 1,
        ;
        assert(last_tap(ji, si, di) < si) by (nonlinear_arith)
            requires
                last_tap(ji, si, di) * di <= (ji + 1) * si - 1,
                (ji + 1) * si <= di * si,
                di >= 1,
        ;
    }
    assert((j as int) * (src as int) <= 0xffff_ffff * 0xffff_ffff && (j as int + 1) * (src as int) <= 0xffff_ffff
        * 0xffff_ffff) by (nonlinear_arith)
        requires
            j < dst,
            dst <= 0xffff_ffff,
            src <= 0xffff_ffff,
    ;
    let lo: u64 = (j as u64) * (src as u64);
    let hi: u64 = (j as u64 + 1) * (src as u64);
    let d = dst as u64;
    let first = lo / d;
    let last = (hi - 1) / d;
    let mut r: Vec<(u32, u64)> = Vec::new();
    let mut i: u64 = first;
    while i <= last
        invariant
            lo == ji * si,
            hi == (ji + 1) * si,
            ji >= 0,
            si >= 1,
            d == di,
            di >= 1,
            first == first_tap(ji, si, di),
            last == last_tap(ji, si, di),
            last < si,
            si <= 0xffff_ffff,
            di <= 0xffff_ffff,
            first <= i <= last + 1,
            r@.len() == i - first,
            forall|k: int|
                0 <= k < r@.len() ==> #[trigger] r@[k].0 == first + k && r@[k].1 == tap_weight(ji, si, di, first + k),
        decreases last + 1 - i,
    {
        assert((i + 1) * di <= si * di && i * di <= (i + 1) * di) by (nonlinear_arith)
            requires
                i < si,
                di >= 1,
        ;
        assert(si * di <= 0xffff_ffff * 0xffff_ffff) by (nonlinear_arith)
            requires
                si <= 0xffff_ffff,
                di <= 0xffff_ffff,
                si >= 1,
                di >= 1,
        ;
        let a = i * d;
        let b = (i + 1) * d;
        let top = if hi < b {
            hi
        } else {
            b
        };
        let bottom = if lo > a {
            lo
        } else {
            a
        };
        proof {
            lemma_tap_bounds(ji, si, di);
            assert(first * di <= i * di && i * di <= last * di) by (nonlinear_arith)
                requires
                    first <= i <= last,
                    di >= 1,
            ;
            assert((i + 1) * di == i * di + di) by (nonlinear_arith);
            assert((first + 1) * di <= (i + 1) * di) by (nonlinear_arith)
                requires
                    first <= i,
                    di >= 1,
            ;
            assert(last * di <= hi - 1);
            assert(a <= last * di);
            assert(a < hi);
            assert(lo < (first + 1) * di);
            assert(lo < b);
            assert(a < b);
            assert(hi == lo + si) by (nonlinear_arith)
                requires
                    lo == ji * si,
                    hi == (ji + 1) * si,
            ;
        }
        r.push((i as u32, top - bottom));
        i += 1;
    }
    r
}

} // verus!
