//! From a conversion to the format codecs' inputs, and the codecs' encoders.
//!
//! Each bridge checks that the conversion targets its machine and mode,
//! then packs the indexed pixels of each cell into the format's bitmap
//! bytes (most significant bits leftmost) and its colour bytes. A pixel
//! outside its cell's colours is a pipeline bug, reported as
//! [`ConvertError::Internal`].
use vstd::prelude::*;

use crate::convert::constrain::{HiresChoice, MultiChoice, SpectrumChoice};
use crate::convert::pipeline::{CellChoice, Conversion};
use crate::convert::{ConvertError, ConvertErrorView};
use crate::mediaspec::Rgb;
use crate::text::{chars_of, has_prefix, push_str, starts_with, str_eq, string_of};

verus! {

/// A Spectrum screen as the SCR codec takes it: the bitmap in linear
/// row-major order (192 rows of 32 bytes) and the 768 attribute bytes.
#[derive(Debug, Clone, PartialEq, Eq)]
pub struct ScrScreen {
    pub bitmap: Vec<u8>,
    pub attributes: Vec<u8>,
}

/// A C64 hires image as the Art Studio codec takes it: 8000 bitmap bytes
/// (cell by cell, 8 rows each) and 1000 screen RAM bytes.
#[derive(Debug, Clone, PartialEq, Eq)]
pub struct ArtStudioImage {
    pub bitmap: Vec<u8>,
    pub screen_ram: Vec<u8>,
}

/// A C64 multicolour image as the Koala codec takes it.
#[derive(Debug, Clone, PartialEq, Eq)]
pub struct KoalaImage {
    pub bitmap: Vec<u8>,
    pub screen_ram: Vec<u8>,
    pub color_ram: Vec<u8>,
    pub background: u8,
}

/// An Amiga image as the ILBM codec takes it (chunky indexed pixels).
#[derive(Debug, Clone, PartialEq, Eq)]
pub struct IlbmImage {
    pub width: u16,
    pub height: u16,
    pub n_planes: u8,
    pub palette: Vec<[u8; 3]>,
    pub pixels: Vec<u8>,
    pub camg: u32,
    pub x_aspect: u8,
    pub y_aspect: u8,
}

/// The ILBM CAMG viewmode bit for hires.
pub const CAMG_HIRES: u32 = 0x8000;

/// Whether the conversion targets the given machine and mode.
pub open spec fn targets(c: Conversion, machine: Seq<char>, mode: Seq<char>) -> bool {
    c.machine_id@ == machine && c.mode_name@ == mode
}

/// The error a bridge gives for a conversion of another target.
pub open spec fn wrong_target(c: Conversion, bridge: Seq<char>, expected: Seq<char>) -> ConvertErrorView {
    ConvertErrorView::WrongTarget { bridge, expected, actual: c.machine_id@ + " "@ + c.mode_name@ }
}

/// The index of pixel `pos` of row `row` of cell `idx`, for cells `cw`
/// pixels wide laid out `cols` to a row.
pub open spec fn cell_pixel_index(c: Conversion, cols: int, cw: int, idx: int, row: int, pos: int) -> int {
    ((idx / cols) * 8 + row) * c.width + (idx % cols) * cw + pos
}

/// The first `n` pixels of a cell row as bits (1 for `fg`, 0 for `bg`,
/// `bg` winning when they are equal), most significant first; `None` when
/// a pixel is neither.
pub open spec fn pair_bits(c: Conversion, cols: int, idx: int, row: int, fg: u8, bg: u8, n: nat) -> Option<int>
    decreases n,
{
    if n == 0 {
        Some(0)
    } else {
        match pair_bits(c, cols, idx, row, fg, bg, (n - 1) as nat) {
            None => None,
            Some(acc) => {
                let px = c.pixels@[cell_pixel_index(c, cols, 8, idx, row, n - 1)];
                if px == bg {
                    Some(acc * 2)
                } else if px == fg {
                    Some(acc * 2 + 1)
                } else {
                    None
                }
            },
        }
    }
}

/// The first `n` pixels of a multicolour cell row as two-bit codes (the
/// index of the first of `[bg, c01, c10, c11]` the pixel equals), most
/// significant first; `None` when a pixel is none of them.
pub open spec fn quad_bits(c: Conversion, idx: int, row: int, colours: [u8; 4], n: nat) -> Option<int>
    decreases n,
{
    if n == 0 {
        Some(0)
    } else {
        match quad_bits(c, idx, row, colours, (n - 1) as nat) {
            None => None,
            Some(acc) => {
                let px = c.pixels@[cell_pixel_index(c, 40, 4, idx, row, n - 1)];
                if px == colours[0] {
                    Some(acc * 4)
                } else if px == colours[1] {
                    Some(acc * 4 + 1)
                } else if px == colours[2] {
                    Some(acc * 4 + 2)
                } else if px == colours[3] {
                    Some(acc * 4 + 3)
                } else {
                    None
                }
            },
        }
    }
}

/// The first error among the first `n` cells.
pub open spec fn first_cell_error(n: nat, err: spec_fn(int) -> Option<Seq<char>>) -> Option<Seq<char>>
    decreases n,
{
    if n == 0 {
        None
    } else {
        match first_cell_error((n - 1) as nat, err) {
            Some(e) => Some(e),
            None => err(n - 1),
        }
    }
}

proof fn lemma_first_cell_error_none(n: nat, err: spec_fn(int) -> Option<Seq<char>>)
    requires
        forall|j: int| 0 <= j < n ==> #[trigger] err(j) is None,
    ensures
        first_cell_error(n, err) is None,
    decreases n,
{
    if n > 0 {
        lemma_first_cell_error_none((n - 1) as nat, err);
    }
}

proof fn lemma_first_cell_error_at(n: nat, k: int, err: spec_fn(int) -> Option<Seq<char>>)
    requires
        0 <= k < n,
        forall|j: int| 0 <= j < k ==> #[trigger] err(j) is None,
        err(k) is Some,
    ensures
        first_cell_error(n, err) == err(k),
    decreases n,
{
    if n > k + 1 {
        lemma_first_cell_error_at((n - 1) as nat, k, err);
    } else {
        lemma_first_cell_error_none(k as nat, err);
    }
}

/// Every pixel index a cell bridge reads lies in the pixels: at most
/// `max_cells` cells, and each cell's last pixel is in range.
pub open spec fn cells_fit(c: Conversion, cols: int, cw: int, max_cells: int) -> bool {
    &&& c.cells@.len() <= max_cells
    &&& forall|idx: int|
        0 <= idx < c.cells@.len() ==> #[trigger] cell_pixel_index(c, cols, cw, idx, 7, cw - 1)
            < c.pixels@.len()
}

proof fn lemma_cell_index_bound(c: Conversion, cols: int, cw: int, idx: int, row: int, pos: int)
    requires
        cols > 0,
        cw > 0,
        0 <= idx,
        0 <= row < 8,
        0 <= pos < cw,
    ensures
        0 <= cell_pixel_index(c, cols, cw, idx, row, pos) <= cell_pixel_index(c, cols, cw, idx, 7, cw - 1),
        0 <= (idx / cols) * 8 + row,
        0 <= ((idx / cols) * 8 + row) * c.width,
        0 <= (idx % cols) * cw,
{
    let q = idx / cols;
    let r = idx % cols;
    assert(0 <= q && 0 <= r) by (nonlinear_arith)
        requires
            cols > 0,
            idx >= 0,
            q == idx / cols,
            r == idx % cols,
    ;
    assert((q * 8 + row) * c.width <= (q * 8 + 7) * c.width) by (nonlinear_arith)
        requires
            row <= 7,
            q >= 0,
            c.width >= 0,
    ;
    assert(0 <= (q * 8 + row) * c.width) by (nonlinear_arith)
        requires
            row >= 0,
            q >= 0,
            c.width >= 0,
    ;
    assert(0 <= r * cw) by (nonlinear_arith)
        requires
            r >= 0,
            cw >= 0,
    ;
}

/// The bits of one cell row (see [`pair_bits`]).
fn pair_row(c: &Conversion, cols: usize, idx: usize, row: usize, fg: u8, bg: u8) -> (r: Option<u8>)
    requires
        cols > 0,
        row < 8,
        idx < c.cells@.len(),
        c.cells@.len() <= 1000,
        cells_fit(*c, cols as int, 8, c.cells@.len() as int),
    ensures
        match pair_bits(*c, cols as int, idx as int, row as int, fg, bg, 8) {
            Some(v) => r == Some(v as u8) && 0 <= v < 256,
            None => r is None,
        },
{
    let width = c.width as usize;
    let n = c.pixels.len();
    let mut acc: u8 = 0;
    let mut bit: usize = 0;
    assert(cell_pixel_index(*c, cols as int, 8, idx as int, 7, 7) < c.pixels@.len());
    while bit < 8
        invariant
            n == c.pixels@.len(),
            idx < 1000,
            cols > 0,
            row < 8,
            bit <= 8,
            width == c.width,
            cell_pixel_index(*c, cols as int, 8, idx as int, 7, 7) < c.pixels@.len(),
            pair_bits(*c, cols as int, idx as int, row as int, fg, bg, bit as nat) == Some(acc as int),
            acc < pow2_8(bit as int),
        decreases 8 - bit,
    {
        proof {
            lemma_cell_index_bound(*c, cols as int, 8, idx as int, row as int, bit as int);
        }
        let q = idx / cols;
        let base_row = q * 8 + row;
        let a = base_row * width;
        let b = (idx % cols) * 8;
        let i = a + b + bit;
        let px = c.pixels[i];
        if px == bg {
            acc = acc * 2;
        } else if px == fg {
            acc = acc * 2 + 1;
        } else {
            proof {
                lemma_pair_bits_stop(*c, cols as int, idx as int, row as int, fg, bg, (bit + 1) as nat, 8);
            }
            return None;
        }
        bit += 1;
    }
    Some(acc)
}

/// `2^n` for the bit counts of a byte.
pub open spec fn pow2_8(n: int) -> int {
    if n <= 0 {
        1
    } else if n == 1 {
        2
    } else if n == 2 {
        4
    } else if n == 3 {
        8
    } else if n == 4 {
        16
    } else if n == 5 {
        32
    } else if n == 6 {
        64
    } else if n == 7 {
        128
    } else {
        256
    }
}

proof fn lemma_pair_bits_stop(c: Conversion, cols: int, idx: int, row: int, fg: u8, bg: u8, i: nat, n: nat)
    requires
        i <= n,
        pair_bits(c, cols, idx, row, fg, bg, i) is None,
    ensures
        pair_bits(c, cols, idx, row, fg, bg, n) is None,
    decreases n,
{
    if i < n {
        lemma_pair_bits_stop(c, cols, idx, row, fg, bg, i, (n - 1) as nat);
    }
}

/// The codes of one multicolour cell row (see [`quad_bits`]).
fn quad_row(c: &Conversion, idx: usize, row: usize, colours: [u8; 4]) -> (r: Option<u8>)
    requires
        row < 8,
        idx < c.cells@.len(),
        c.cells@.len() <= 1000,
        cells_fit(*c, 40, 4, c.cells@.len() as int),
    ensures
        match quad_bits(*c, idx as int, row as int, colours, 4) {
            Some(v) => r == Some(v as u8) && 0 <= v < 256,
            None => r is None,
        },
{
    let width = c.width as usize;
    let n = c.pixels.len();
    let mut acc: u8 = 0;
    let mut pos: usize = 0;
    assert(cell_pixel_index(*c, 40, 4, idx as int, 7, 3) < c.pixels@.len());
    while pos < 4
        invariant
            n == c.pixels@.len(),
            idx < 1000,
            row < 8,
            pos <= 4,
            width == c.width,
            cell_pixel_index(*c, 40, 4, idx as int, 7, 3) < c.pixels@.len(),
            quad_bits(*c, idx as int, row as int, colours, pos as nat) == Some(acc as int),
            acc < pow2_8(2 * pos as int),
        decreases 4 - pos,
    {
        proof {
            lemma_cell_index_bound(*c, 40, 4, idx as int, row as int, pos as int);
        }
        let q = idx / 40;
        let base_row = q * 8 + row;
        let a = base_row * width;
        let b = (idx % 40) * 4;
        let i = a + b + pos;
        let px = c.pixels[i];
        if px == colours[0] {
            acc = acc * 4;
        } else if px == colours[1] {
            acc = acc * 4 + 1;
        } else if px == colours[2] {
            acc = acc * 4 + 2;
        } else if px == colours[3] {
            acc = acc * 4 + 3;
        } else {
            proof {
                lemma_quad_bits_stop(*c, idx as int, row as int, colours, (pos + 1) as nat, 4);
            }
            return None;
        }
        pos += 1;
    }
    Some(acc)
}

proof fn lemma_quad_bits_stop(c: Conversion, idx: int, row: int, colours: [u8; 4], i: nat, n: nat)
    requires
        i <= n,
        quad_bits(c, idx, row, colours, i) is None,
    ensures
        quad_bits(c, idx, row, colours, n) is None,
    decreases n,
{
    if i < n {
        lemma_quad_bits_stop(c, idx, row, colours, i, (n - 1) as nat);
    }
}

// --- Spectrum SCR -------------------------------------------------------------------

pub open spec fn scr_cell_error(c: Conversion, idx: int) -> Option<Seq<char>> {
    match c.cells@[idx] {
        CellChoice::Spectrum(a) => if forall|row: int|
            0 <= row < 8 ==> #[trigger] pair_bits(c, 32, idx, row, a.ink, a.paper, 8) is Some {
            None
        } else {
            Some("pixel outside its Spectrum cell colours"@)
        },
        _ => Some("non-Spectrum cell choice in a Spectrum conversion"@),
    }
}

pub open spec fn scr_errors(c: Conversion) -> spec_fn(int) -> Option<Seq<char>> {
    |i: int| scr_cell_error(c, i)
}

/// An attribute byte `FBPPPIII` with FLASH off.
pub open spec fn scr_attr(a: SpectrumChoice) -> int {
    (if a.bright {
        64int
    } else {
        0int
    }) + (a.paper % 8) * 8 + a.ink % 8
}

pub open spec fn scr_row_byte(c: Conversion, idx: int, row: int) -> u8 {
    match c.cells@[idx] {
        CellChoice::Spectrum(a) => match pair_bits(c, 32, idx, row, a.ink, a.paper, 8) {
            Some(v) => v as u8,
            None => 0,
        },
        _ => 0,
    }
}

/// The linear bitmap: row `y`, byte column `cx` holds row `y % 8` of cell
/// `(y / 8) * 32 + cx`, or 0 past the last cell.
pub open spec fn scr_bitmap(c: Conversion) -> Seq<u8> {
    Seq::new(
        6144,
        |p: int|
            {
                let idx = (p / 32 / 8) * 32 + p % 32;
                if idx < c.cells@.len() {
                    scr_row_byte(c, idx, (p / 32) % 8)
                } else {
                    0u8
                }
            },
    )
}

/// One attribute per cell, then zeros.
pub open spec fn scr_attributes(c: Conversion) -> Seq<u8> {
    Seq::new(
        768,
        |i: int|
            if i < c.cells@.len() {
                match c.cells@[i] {
                    CellChoice::Spectrum(a) => scr_attr(a) as u8,
                    _ => 0u8,
                }
            } else {
                0u8
            },
    )
}

/// What the SCR bridge gives: the wrong-target error, the first cell's
/// error, or the screen.
pub open spec fn to_scr_spec(c: Conversion) -> Result<(Seq<u8>, Seq<u8>), ConvertErrorView> {
    if !targets(c, "sinclair-zx-spectrum"@, "standard"@) {
        Err(wrong_target(c, "to_scr"@, "sinclair-zx-spectrum"@))
    } else {
        match first_cell_error(c.cells@.len(), scr_errors(c)) {
            Some(m) => Err(ConvertErrorView::Internal { what: m }),
            None => Ok((scr_bitmap(c), scr_attributes(c))),
        }
    }
}

/// Each cell's SCR attribute byte is `FBPPPIII`: FLASH clear, BRIGHT as the
/// cell's bright flag, the cell's PAPER colour in bits 3-5 and its INK
/// colour in bits 0-2.
pub proof fn lemma_scr_attribute_encodes_the_cell(c: Conversion, i: int)
    requires
        to_scr_spec(c) is Ok,
        0 <= i < c.cells@.len(),
        i < 768,
        c.cells@[i] is Spectrum,
    ensures
        ({
            let a = to_scr_spec(c)->Ok_0.1[i];
            let ch = c.cells@[i]->Spectrum_0;
            &&& a < 128
            &&& (a / 64) % 2 == (if ch.bright {
                1int
            } else {
                0int
            })
            &&& (a / 8) % 8 == ch.paper % 8
            &&& a % 8 == ch.ink % 8
        }),
{
    let ch = c.cells@[i]->Spectrum_0;
    let v = scr_attr(ch);
    let b: int = if ch.bright {
        1
    } else {
        0
    };
    assert(v == 64 * b + (ch.paper % 8) * 8 + ch.ink % 8);
    assert(0 <= v < 128);
    assert(to_scr_spec(c)->Ok_0.1[i] == v as u8);
    assert((64 * b + (ch.paper % 8) * 8 + ch.ink % 8) / 64 == b) by (nonlinear_arith)
        requires
            0 <= b <= 1,
            0 <= ch.paper % 8 < 8,
            0 <= ch.ink % 8 < 8,
    ;
    assert((64 * b + (ch.paper % 8) * 8 + ch.ink % 8) / 8 == 8 * b + ch.paper % 8) by (nonlinear_arith)
        requires
            0 <= b <= 1,
            0 <= ch.paper % 8 < 8,
            0 <= ch.ink % 8 < 8,
    ;
    assert((8 * b + ch.paper % 8) % 8 == ch.paper % 8) by (nonlinear_arith)
        requires
            0 <= b <= 1,
            0 <= ch.paper % 8 < 8,
    ;
    assert((64 * b + (ch.paper % 8) * 8 + ch.ink % 8) % 8 == ch.ink % 8) by (nonlinear_arith)
        requires
            0 <= b <= 1,
            0 <= ch.paper % 8 < 8,
            0 <= ch.ink % 8 < 8,
    ;
}

/// `2^k`, the weight of the bit `k` places from the right.
pub open spec fn bit_weight(k: nat) -> int
    decreases k,
{
    if k == 0 {
        1
    } else {
        2 * bit_weight((k - 1) as nat)
    }
}

proof fn lemma_first_cell_error_clear(n: nat, err: spec_fn(int) -> Option<Seq<char>>, k: int)
    requires
        first_cell_error(n, err) is None,
        0 <= k < n,
    ensures
        err(k) is None,
    decreases n,
{
    if k < n - 1 {
        lemma_first_cell_error_clear((n - 1) as nat, err, k);
    }
}

/// The bit `k` places from the right of `v`.
pub open spec fn bit_at(v: int, k: nat) -> int {
    (v / bit_weight(k)) % 2
}

/// Pixel `p` of a cell row, as a bit: 0 for the background, 1 otherwise.
pub open spec fn row_pixel(c: Conversion, cols: int, idx: int, row: int, p: int) -> u8 {
    c.pixels@[cell_pixel_index(c, cols, 8, idx, row, p)]
}

/// Reading a cell row's bits: pixel `p` of the first `n` is the bit
/// `n - 1 - p` places from the right, 0 for the background and 1 for the
/// foreground, and every pixel is one of the two.
proof fn lemma_pair_bits_digits(c: Conversion, cols: int, idx: int, row: int, fg: u8, bg: u8, n: nat)
    requires
        pair_bits(c, cols, idx, row, fg, bg, n) is Some,
    ensures
        0 <= pair_bits(c, cols, idx, row, fg, bg, n)->0 < bit_weight(n),
        forall|p: int|
            0 <= p < n ==> (#[trigger] row_pixel(c, cols, idx, row, p) == fg || row_pixel(c, cols, idx, row, p) == bg)
                && bit_at(pair_bits(c, cols, idx, row, fg, bg, n)->0, (n - 1 - p) as nat) == (if row_pixel(
                c,
                cols,
                idx,
                row,
                p,
            ) == bg {
                0int
            } else {
                1int
            }),
    decreases n,
{
    if n > 0 {
        lemma_pair_bits_digits(c, cols, idx, row, fg, bg, (n - 1) as nat);
        let w = pair_bits(c, cols, idx, row, fg, bg, (n - 1) as nat)->0;
        let v = pair_bits(c, cols, idx, row, fg, bg, n)->0;
        let b = v - 2 * w;
        assert(0 <= b <= 1);
        assert(v / 2 == w);
        assert forall|p: int| 0 <= p < n implies (#[trigger] row_pixel(c, cols, idx, row, p) == fg || row_pixel(
            c,
            cols,
            idx,
            row,
            p,
        ) == bg) && bit_at(v, (n - 1 - p) as nat) == (if row_pixel(c, cols, idx, row, p) == bg {
            0int
        } else {
            1int
        }) by {
            if p < n - 1 {
                let m = (n - 1) as nat;
                let k = (n - 1 - p) as nat;
                let wk = bit_weight((m - 1 - p) as nat);
                assert((k - 1) as nat == (m - 1 - p) as nat);
                assert(bit_weight(k) == 2 * wk);
                lemma_bit_weight_pos((m - 1 - p) as nat);
                vstd::arithmetic::div_mod::lemma_div_denominator(v, 2, wk);
                assert(v / bit_weight(k) == w / wk);
                assert(bit_at(w, (m - 1 - p) as nat) == (w / wk) % 2);
            } else {
                assert(bit_weight(0) == 1);
                assert(v % 2 == b);
            }
        }
    }
}

proof fn lemma_bit_weight_pos(k: nat)
    ensures
        bit_weight(k) >= 1,
    decreases k,
{
    if k > 0 {
        lemma_bit_weight_pos((k - 1) as nat);
    }
}

/// The SCR bitmap shows each Spectrum cell's pixels: row `row` of cell
/// `idx` is the byte at screen row `(idx / 32) * 8 + row`, byte column
/// `idx % 32`, and in it pixel `pos` (left to right) is the bit `7 - pos`
/// places from the right, set for INK and clear for PAPER; every pixel of
/// a converted cell is its INK or its PAPER.
pub proof fn lemma_scr_bitmap_shows_ink_and_paper(c: Conversion, idx: int, row: int, pos: int)
    requires
        to_scr_spec(c) is Ok,
        0 <= idx < c.cells@.len(),
        idx < 768,
        c.cells@[idx] is Spectrum,
        0 <= row < 8,
        0 <= pos < 8,
    ensures
        ({
            let b = to_scr_spec(c)->Ok_0.0[((idx / 32) * 8 + row) * 32 + idx % 32];
            let ch = c.cells@[idx]->Spectrum_0;
            let px = c.pixels@[cell_pixel_index(c, 32, 8, idx, row, pos)];
            &&& px == ch.ink || px == ch.paper
            &&& (b as int / bit_weight((7 - pos) as nat)) % 2 == (if px == ch.paper {
                0int
            } else {
                1int
            })
        }),
{
    let ch = c.cells@[idx]->Spectrum_0;
    lemma_first_cell_error_clear(c.cells@.len(), scr_errors(c), idx);
    assert(scr_cell_error(c, idx) is None);
    assert(pair_bits(c, 32, idx, row, ch.ink, ch.paper, 8) is Some);
    lemma_pair_bits_digits(c, 32, idx, row, ch.ink, ch.paper, 8);
    assert(bit_weight(8) == 256) by {
        reveal_with_fuel(bit_weight, 9);
    }
    let v = pair_bits(c, 32, idx, row, ch.ink, ch.paper, 8)->0;
    let q = idx / 32;
    let r = idx % 32;
    let p = (q * 8 + row) * 32 + r;
    assert(0 <= q < 24 && 0 <= r < 32);
    assert(p / 32 == q * 8 + row && p % 32 == r) by (nonlinear_arith)
        requires
            p == (q * 8 + row) * 32 + r,
            0 <= r < 32,
            0 <= row < 8,
            0 <= q,
    ;
    assert((q * 8 + row) / 8 == q && (q * 8 + row) % 8 == row) by (nonlinear_arith)
        requires
            0 <= row < 8,
            0 <= q,
    ;
    assert(0 <= p < 6144) by (nonlinear_arith)
        requires
            p == (q * 8 + row) * 32 + r,
            0 <= r < 32,
            0 <= row < 8,
            0 <= q < 24,
    ;
    assert(q * 32 + r == idx);
    assert(scr_bitmap(c)[p] == scr_row_byte(c, idx, row));
    assert(scr_row_byte(c, idx, row) == v as u8);
    assert((7 - pos) as nat == (8 - 1 - pos) as nat);
    assert(row_pixel(c, 32, idx, row, pos) == ch.ink || row_pixel(c, 32, idx, row, pos) == ch.paper);
    assert(0 <= v < 256);
    assert((v as u8) as int == v);
}

// --- C64 Art Studio -----------------------------------------------------------------

pub open spec fn hires_cell_error(c: Conversion, idx: int) -> Option<Seq<char>> {
    match c.cells@[idx] {
        CellChoice::Hires(h) => if forall|row: int|
            0 <= row < 8 ==> #[trigger] pair_bits(c, 40, idx, row, h.fg, h.bg, 8) is Some {
            None
        } else {
            Some("pixel outside its hires cell colours"@)
        },
        _ => Some("non-hires cell choice in a hires conversion"@),
    }
}

pub open spec fn hires_errors(c: Conversion) -> spec_fn(int) -> Option<Seq<char>> {
    |i: int| hires_cell_error(c, i)
}

/// Cell by cell, 8 bytes each (one per row); zeros past the last cell.
pub open spec fn hires_bitmap(c: Conversion) -> Seq<u8> {
    Seq::new(
        8000,
        |p: int|
            if p / 8 < c.cells@.len() {
                match c.cells@[p / 8] {
                    CellChoice::Hires(h) => match pair_bits(c, 40, p / 8, p % 8, h.fg, h.bg, 8) {
                        Some(v) => v as u8,
                        None => 0u8,
                    },
                    _ => 0u8,
                }
            } else {
                0u8
            },
    )
}

/// Screen RAM: the set-bit colour in the high nybble, the clear-bit colour
/// in the low one (`fg << 4 | bg` on bytes).
pub open spec fn hires_screen(c: Conversion) -> Seq<u8> {
    Seq::new(
        1000,
        |i: int|
            if i < c.cells@.len() {
                match c.cells@[i] {
                    CellChoice::Hires(h) => (h.fg << 4u8) | h.bg,
                    _ => 0u8,
                }
            } else {
                0u8
            },
    )
}

pub open spec fn to_art_studio_spec(c: Conversion) -> Result<(Seq<u8>, Seq<u8>), ConvertErrorView> {
    if !targets(c, "commodore-c64"@, "hires-bitmap"@) {
        Err(wrong_target(c, "to_art_studio"@, "commodore-c64"@))
    } else {
        match first_cell_error(c.cells@.len(), hires_errors(c)) {
            Some(m) => Err(ConvertErrorView::Internal { what: m }),
            None => Ok((hires_bitmap(c), hires_screen(c))),
        }
    }
}

// --- C64 Koala ------------------------------------------------------------------------

pub open spec fn multi_cell_error(c: Conversion, idx: int) -> Option<Seq<char>> {
    match c.cells@[idx] {
        CellChoice::Multi(m) => if forall|row: int|
            0 <= row < 8 ==> #[trigger] quad_bits(c, idx, row, m.colours, 4) is Some {
            None
        } else {
            Some("pixel outside its multicolour cell colours"@)
        },
        _ => Some("non-multicolour cell choice in a multicolour conversion"@),
    }
}

pub open spec fn multi_errors(c: Conversion) -> spec_fn(int) -> Option<Seq<char>> {
    |i: int| multi_cell_error(c, i)
}

pub open spec fn multi_bitmap(c: Conversion) -> Seq<u8> {
    Seq::new(
        8000,
        |p: int|
            if p / 8 < c.cells@.len() {
                match c.cells@[p / 8] {
                    CellChoice::Multi(m) => match quad_bits(c, p / 8, p % 8, m.colours, 4) {
                        Some(v) => v as u8,
                        None => 0u8,
                    },
                    _ => 0u8,
                }
            } else {
                0u8
            },
    )
}

/// Screen RAM: `%01` colour high, `%10` colour low.
pub open spec fn multi_screen(c: Conversion) -> Seq<u8> {
    Seq::new(
        1000,
        |i: int|
            if i < c.cells@.len() {
                match c.cells@[i] {
                    CellChoice::Multi(m) => (m.colours[1] << 4u8) | m.colours[2],
                    _ => 0u8,
                }
            } else {
                0u8
            },
    )
}

/// Colour RAM: the `%11` colour.
pub open spec fn multi_colour_ram(c: Conversion) -> Seq<u8> {
    Seq::new(
        1000,
        |i: int|
            if i < c.cells@.len() {
                match c.cells@[i] {
                    CellChoice::Multi(m) => m.colours[3],
                    _ => 0u8,
                }
            } else {
                0u8
            },
    )
}

pub open spec fn to_koala_spec(c: Conversion) -> Result<(Seq<u8>, Seq<u8>, Seq<u8>, u8), ConvertErrorView> {
    if !targets(c, "commodore-c64"@, "multicolour-bitmap"@) {
        Err(wrong_target(c, "to_koala"@, "commodore-c64"@))
    } else {
        match c.background {
            None => Err(ConvertErrorView::Internal { what: "multicolour conversion without a background"@ }),
            Some(bg) => match first_cell_error(c.cells@.len(), multi_errors(c)) {
                Some(m) => Err(ConvertErrorView::Internal { what: m }),
                None => Ok((multi_bitmap(c), multi_screen(c), multi_colour_ram(c), bg)),
            },
        }
    }
}

/// Whether every bridge's reads of the conversion's pixels and cells stay
/// in range for the conversion's own target.
pub open spec fn bridge_ready(c: Conversion) -> bool {
    &&& targets(c, "sinclair-zx-spectrum"@, "standard"@) ==> cells_fit(c, 32, 8, 768)
    &&& targets(c, "commodore-c64"@, "hires-bitmap"@) ==> cells_fit(c, 40, 8, 1000)
    &&& targets(c, "commodore-c64"@, "multicolour-bitmap"@) ==> cells_fit(c, 40, 4, 1000)
}

// --- Amiga ILBM ----------------------------------------------------------------------

/// A dimension as a 16-bit field, saturating at `u16::MAX`.
pub open spec fn saturate_u16(v: u32) -> u16 {
    if v <= 0xffff {
        v as u16
    } else {
        0xffffu16
    }
}

/// Whether a mode is one of the hires modes (its name starts with `hires`).
pub open spec fn is_hires_mode(c: Conversion) -> bool {
    starts_with(c.mode_name@, "hires"@)
}

/// The palette as RGB triples.
pub open spec fn ilbm_palette(c: Conversion) -> Seq<[u8; 3]> {
    c.palette@.map_values(|p: Rgb| [p.r, p.g, p.b])
}

/// What the ILBM bridge gives: the wrong-target error when the machine is
/// not the Amiga, an internal error without a plane count, else the image
/// header `(width, height, planes, camg, x_aspect, y_aspect)`: the HIRES
/// viewmode bit and the 5:11 aspect for hires modes, 0 and 10:11 for lores.
pub open spec fn to_ilbm_spec(c: Conversion) -> Result<(u16, u16, u8, u32, u8, u8), ConvertErrorView> {
    if c.machine_id@ != "commodore-amiga-ocs"@ {
        Err(wrong_target(c, "to_ilbm"@, "commodore-amiga-ocs planar"@))
    } else {
        match c.n_planes {
            None => Err(ConvertErrorView::Internal { what: "planar conversion without a plane count"@ }),
            Some(planes) => Ok(
                (
                    saturate_u16(c.width),
                    saturate_u16(c.height),
                    planes,
                    if is_hires_mode(c) {
                        CAMG_HIRES
                    } else {
                        0
                    },
                    if is_hires_mode(c) {
                        5u8
                    } else {
                        10u8
                    },
                    11u8,
                ),
            ),
        }
    }
}

impl Conversion {
    fn expect_target(&self, bridge: &'static str, machine: &'static str, mode: &'static str) -> (r: Result<(), ConvertError>)
        ensures
            match r {
                Ok(()) => targets(*self, machine@, mode@),
                Err(e) => !targets(*self, machine@, mode@) && e@ == wrong_target(*self, bridge@, machine@),
            },
    {
        if str_eq(self.machine_id.as_str(), machine) && str_eq(self.mode_name.as_str(), mode) {
            Ok(())
        } else {
            let mut actual: Vec<char> = Vec::new();
            push_str(&mut actual, self.machine_id.as_str());
            push_str(&mut actual, " ");
            push_str(&mut actual, self.mode_name.as_str());
            Err(ConvertError::WrongTarget { bridge, expected: machine, actual: string_of(actual.as_slice()) })
        }
    }

    /// Bridge to the Spectrum SCR codec input.
    pub fn to_scr(&self) -> (r: Result<ScrScreen, ConvertError>)
        requires
            targets(*self, "sinclair-zx-spectrum"@, "standard"@) ==> cells_fit(*self, 32, 8, 768),
        ensures
            match to_scr_spec(*self) {
                Ok((b, a)) => match r {
                    Ok(s) => s.bitmap@ == b && s.attributes@ == a,
                    Err(_) => false,
                },
                Err(e) => match r {
                    Err(x) => x@ == e,
                    Ok(_) => false,
                },
            },
    {
        match self.expect_target("to_scr", "sinclair-zx-spectrum", "standard") {
            Err(e) => return Err(e),
            Ok(()) => {},
        }
        let n = self.cells.len();
        let mut idx: usize = 0;
        while idx < n
            invariant
                n == self.cells@.len(),
                n <= 768,
                cells_fit(*self, 32, 8, 768),
                targets(*self, "sinclair-zx-spectrum"@, "standard"@),
                idx <= n,
                forall|j: int| 0 <= j < idx ==> #[trigger] scr_cell_error(*self, j) is None,
            decreases n - idx,
        {
            match self.cells[idx] {
                CellChoice::Spectrum(a) => {
                    let mut row: usize = 0;
                    while row < 8
                        invariant
                            n == self.cells@.len(),
                            n <= 768,
                            cells_fit(*self, 32, 8, 768),
                            targets(*self, "sinclair-zx-spectrum"@, "standard"@),
                            idx < n,
                            self.cells@[idx as int] == CellChoice::Spectrum(a),
                            forall|j: int| 0 <= j < idx ==> #[trigger] scr_cell_error(*self, j) is None,
                            row <= 8,
                            forall|rr: int| 0 <= rr < row ==> #[trigger] pair_bits(*self, 32, idx as int, rr, a.ink, a.paper, 8) is Some,
                        decreases 8 - row,
                    {
                        if pair_row(self, 32, idx, row, a.ink, a.paper).is_none() {
                            proof {
                                assert(scr_errors(*self)(idx as int) == Some("pixel outside its Spectrum cell colours"@));
                                assert forall|j: int| 0 <= j < idx implies #[trigger] scr_errors(*self)(j) is None by {
                                    assert(scr_cell_error(*self, j) is None);
                                }
                                lemma_first_cell_error_at(n as nat, idx as int, scr_errors(*self));
                            }
                            return Err(ConvertError::Internal { what: "pixel outside its Spectrum cell colours" });
                        }
                        row += 1;
                    }
                },
                _ => {
                    proof {
                        assert(scr_errors(*self)(idx as int) == Some("non-Spectrum cell choice in a Spectrum conversion"@));
                        assert forall|j: int| 0 <= j < idx implies #[trigger] scr_errors(*self)(j) is None by {
                            assert(scr_cell_error(*self, j) is None);
                        }
                        lemma_first_cell_error_at(n as nat, idx as int, scr_errors(*self));
                    }
                    return Err(ConvertError::Internal { what: "non-Spectrum cell choice in a Spectrum conversion" });
                },
            }
            idx += 1;
        }
        proof {
            assert forall|j: int| 0 <= j < n implies #[trigger] scr_errors(*self)(j) is None by {
                assert(scr_cell_error(*self, j) is None);
            }
            lemma_first_cell_error_none(n as nat, scr_errors(*self));
        }
        let mut attributes: Vec<u8> = Vec::new();
        let mut i: usize = 0;
        while i < 768
            invariant
                n == self.cells@.len(),
                targets(*self, "sinclair-zx-spectrum"@, "standard"@),
                forall|j: int| 0 <= j < n ==> #[trigger] scr_cell_error(*self, j) is None,
                first_cell_error(n as nat, scr_errors(*self)) is None,
                i <= 768,
                attributes@ =~= scr_attributes(*self).take(i as int),
            decreases 768 - i,
        {
            let v: u8 = if i < n {
                match self.cells[i] {
                    CellChoice::Spectrum(a) => {
                        let bright: u8 = if a.bright {
                            64
                        } else {
                            0
                        };
                        bright + a.paper_value() * 8 + a.ink_value()
                    },
                    _ => 0,
                }
            } else {
                0
            };
            attributes.push(v);
            i += 1;
        }
        let width = self.width as usize;
        let mut bitmap: Vec<u8> = Vec::new();
        let mut p: usize = 0;
        while p < 6144
            invariant
                n == self.cells@.len(),
                n <= 768,
                cells_fit(*self, 32, 8, 768),
                forall|j: int| 0 <= j < n ==> #[trigger] scr_cell_error(*self, j) is None,
                targets(*self, "sinclair-zx-spectrum"@, "standard"@),
                first_cell_error(n as nat, scr_errors(*self)) is None,
                attributes@ =~= scr_attributes(*self),
                p <= 6144,
                bitmap@ =~= scr_bitmap(*self).take(p as int),
            decreases 6144 - p,
        {
            let y = p / 32;
            let idx = (y / 8) * 32 + p % 32;
            let v: u8 = if idx < n {
                match self.cells[idx] {
                    CellChoice::Spectrum(a) => {
                        assert(scr_cell_error(*self, idx as int) is None);
                        match pair_row(self, 32, idx, y % 8, a.ink, a.paper) {
                            Some(b) => b,
                            None => 0,
                        }
                    },
                    _ => 0,
                }
            } else {
                0
            };
            bitmap.push(v);
            p += 1;
        }
        Ok(ScrScreen { bitmap, attributes })
    }

    /// Bridge to the C64 Art Studio (hires) codec input.
    pub fn to_art_studio(&self) -> (r: Result<ArtStudioImage, ConvertError>)
        requires
            targets(*self, "commodore-c64"@, "hires-bitmap"@) ==> cells_fit(*self, 40, 8, 1000),
        ensures
            match to_art_studio_spec(*self) {
                Ok((b, s)) => match r {
                    Ok(img) => img.bitmap@ == b && img.screen_ram@ == s,
                    Err(_) => false,
                },
                Err(e) => match r {
                    Err(x) => x@ == e,
                    Ok(_) => false,
                },
            },
    {
        match self.expect_target("to_art_studio", "commodore-c64", "hires-bitmap") {
            Err(e) => return Err(e),
            Ok(()) => {},
        }
        let n = self.cells.len();
        let mut idx: usize = 0;
        while idx < n
            invariant
                n == self.cells@.len(),
                n <= 1000,
                cells_fit(*self, 40, 8, 1000),
                targets(*self, "commodore-c64"@, "hires-bitmap"@),
                idx <= n,
                forall|j: int| 0 <= j < idx ==> #[trigger] hires_cell_error(*self, j) is None,
            decreases n - idx,
        {
            match self.cells[idx] {
                CellChoice::Hires(h) => {
                    let mut row: usize = 0;
                    while row < 8
                        invariant
                            n == self.cells@.len(),
                            n <= 1000,
                            cells_fit(*self, 40, 8, 1000),
                            targets(*self, "commodore-c64"@, "hires-bitmap"@),
                            idx < n,
                            self.cells@[idx as int] == CellChoice::Hires(h),
                            forall|j: int| 0 <= j < idx ==> #[trigger] hires_cell_error(*self, j) is None,
                            row <= 8,
                            forall|rr: int| 0 <= rr < row ==> #[trigger] pair_bits(*self, 40, idx as int, rr, h.fg, h.bg, 8) is Some,
                        decreases 8 - row,
                    {
                        if pair_row(self, 40, idx, row, h.fg, h.bg).is_none() {
                            proof {
                                assert(hires_errors(*self)(idx as int) == Some("pixel outside its hires cell colours"@));
                                assert forall|j: int| 0 <= j < idx implies #[trigger] hires_errors(*self)(j) is None by {
                                    assert(hires_cell_error(*self, j) is None);
                                }
                                lemma_first_cell_error_at(n as nat, idx as int, hires_errors(*self));
                            }
                            return Err(ConvertError::Internal { what: "pixel outside its hires cell colours" });
                        }
                        row += 1;
                    }
                },
                _ => {
                    proof {
                        assert(hires_errors(*self)(idx as int) == Some("non-hires cell choice in a hires conversion"@));
                        assert forall|j: int| 0 <= j < idx implies #[trigger] hires_errors(*self)(j) is None by {
                            assert(hires_cell_error(*self, j) is None);
                        }
                        lemma_first_cell_error_at(n as nat, idx as int, hires_errors(*self));
                    }
                    return Err(ConvertError::Internal { what: "non-hires cell choice in a hires conversion" });
                },
            }
            idx += 1;
        }
        proof {
            assert forall|j: int| 0 <= j < n implies #[trigger] hires_errors(*self)(j) is None by {
                assert(hires_cell_error(*self, j) is None);
            }
            lemma_first_cell_error_none(n as nat, hires_errors(*self));
        }
        let mut screen_ram: Vec<u8> = Vec::new();
        let mut i: usize = 0;
        while i < 1000
            invariant
                n == self.cells@.len(),
                targets(*self, "commodore-c64"@, "hires-bitmap"@),
                first_cell_error(n as nat, hires_errors(*self)) is None,
                i <= 1000,
                screen_ram@ =~= hires_screen(*self).take(i as int),
            decreases 1000 - i,
        {
            let v: u8 = if i < n {
                match self.cells[i] {
                    CellChoice::Hires(h) => (h.fg << 4u8) | h.bg,
                    _ => 0,
                }
            } else {
                0
            };
            screen_ram.push(v);
            i += 1;
        }
        let mut bitmap: Vec<u8> = Vec::new();
        let mut p: usize = 0;
        while p < 8000
            invariant
                n == self.cells@.len(),
                n <= 1000,
                cells_fit(*self, 40, 8, 1000),
                forall|j: int| 0 <= j < n ==> #[trigger] hires_cell_error(*self, j) is None,
                targets(*self, "commodore-c64"@, "hires-bitmap"@),
                first_cell_error(n as nat, hires_errors(*self)) is None,
                screen_ram@ =~= hires_screen(*self),
                p <= 8000,
                bitmap@ =~= hires_bitmap(*self).take(p as int),
            decreases 8000 - p,
        {
            let idx = p / 8;
            let v: u8 = if idx < n {
                match self.cells[idx] {
                    CellChoice::Hires(h) => {
                        assert(hires_cell_error(*self, idx as int) is None);
                        match pair_row(self, 40, idx, p % 8, h.fg, h.bg) {
                            Some(b) => b,
                            None => 0,
                        }
                    },
                    _ => 0,
                }
            } else {
                0
            };
            bitmap.push(v);
            p += 1;
        }
        Ok(ArtStudioImage { bitmap, screen_ram })
    }

    /// Bridge to the C64 Koala (multicolour) codec input.
    pub fn to_koala(&self) -> (r: Result<KoalaImage, ConvertError>)
        requires
            targets(*self, "commodore-c64"@, "multicolour-bitmap"@) ==> cells_fit(*self, 40, 4, 1000),
        ensures
            match to_koala_spec(*self) {
                Ok((b, s, c, bg)) => match r {
                    Ok(img) => img.bitmap@ == b && img.screen_ram@ == s && img.color_ram@ == c
                        && img.background == bg,
                    Err(_) => false,
                },
                Err(e) => match r {
                    Err(x) => x@ == e,
                    Ok(_) => false,
                },
            },
    {
        match self.expect_target("to_koala", "commodore-c64", "multicolour-bitmap") {
            Err(e) => return Err(e),
            Ok(()) => {},
        }
        let background = match self.background {
            Some(b) => b,
            None => {
                return Err(ConvertError::Internal { what: "multicolour conversion without a background" });
            },
        };
        let n = self.cells.len();
        let mut idx: usize = 0;
        while idx < n
            invariant
                n == self.cells@.len(),
                n <= 1000,
                cells_fit(*self, 40, 4, 1000),
                targets(*self, "commodore-c64"@, "multicolour-bitmap"@),
                self.background == Some(background),
                idx <= n,
                forall|j: int| 0 <= j < idx ==> #[trigger] multi_cell_error(*self, j) is None,
            decreases n - idx,
        {
            match self.cells[idx] {
                CellChoice::Multi(m) => {
                    let mut row: usize = 0;
                    while row < 8
                        invariant
                            n == self.cells@.len(),
                            n <= 1000,
                            cells_fit(*self, 40, 4, 1000),
                            targets(*self, "commodore-c64"@, "multicolour-bitmap"@),
                            self.background == Some(background),
                            idx < n,
                            self.cells@[idx as int] == CellChoice::Multi(m),
                            forall|j: int| 0 <= j < idx ==> #[trigger] multi_cell_error(*self, j) is None,
                            row <= 8,
                            forall|rr: int| 0 <= rr < row ==> #[trigger] quad_bits(*self, idx as int, rr, m.colours, 4) is Some,
                        decreases 8 - row,
                    {
                        if quad_row(self, idx, row, m.colours).is_none() {
                            proof {
                                assert(multi_errors(*self)(idx as int) == Some("pixel outside its multicolour cell colours"@));
                                assert forall|j: int| 0 <= j < idx implies #[trigger] multi_errors(*self)(j) is None by {
                                    assert(multi_cell_error(*self, j) is None);
                                }
                                lemma_first_cell_error_at(n as nat, idx as int, multi_errors(*self));
                            }
                            return Err(ConvertError::Internal { what: "pixel outside its multicolour cell colours" });
                        }
                        row += 1;
                    }
                },
                _ => {
                    proof {
                        assert(multi_errors(*self)(idx as int) == Some("non-multicolour cell choice in a multicolour conversion"@));
                        assert forall|j: int| 0 <= j < idx implies #[trigger] multi_errors(*self)(j) is None by {
                            assert(multi_cell_error(*self, j) is None);
                        }
                        lemma_first_cell_error_at(n as nat, idx as int, multi_errors(*self));
                    }
                    return Err(ConvertError::Internal { what: "non-multicolour cell choice in a multicolour conversion" });
                },
            }
            idx += 1;
        }
        proof {
            assert forall|j: int| 0 <= j < n implies #[trigger] multi_errors(*self)(j) is None by {
                assert(multi_cell_error(*self, j) is None);
            }
            lemma_first_cell_error_none(n as nat, multi_errors(*self));
        }
        let mut screen_ram: Vec<u8> = Vec::new();
        let mut color_ram: Vec<u8> = Vec::new();
        let mut i: usize = 0;
        while i < 1000
            invariant
                n == self.cells@.len(),
                targets(*self, "commodore-c64"@, "multicolour-bitmap"@),
                self.background == Some(background),
                first_cell_error(n as nat, multi_errors(*self)) is None,
                i <= 1000,
                screen_ram@ =~= multi_screen(*self).take(i as int),
                color_ram@ =~= multi_colour_ram(*self).take(i as int),
            decreases 1000 - i,
        {
            let (sv, cv): (u8, u8) = if i < n {
                match self.cells[i] {
                    CellChoice::Multi(m) => ((m.colours[1] << 4u8) | m.colours[2], m.colours[3]),
                    _ => (0, 0),
                }
            } else {
                (0, 0)
            };
            screen_ram.push(sv);
            color_ram.push(cv);
            i += 1;
        }
        let mut bitmap: Vec<u8> = Vec::new();
        let mut p: usize = 0;
        while p < 8000
            invariant
                n == self.cells@.len(),
                n <= 1000,
                cells_fit(*self, 40, 4, 1000),
                forall|j: int| 0 <= j < n ==> #[trigger] multi_cell_error(*self, j) is None,
                targets(*self, "commodore-c64"@, "multicolour-bitmap"@),
                self.background == Some(background),
                first_cell_error(n as nat, multi_errors(*self)) is None,
                screen_ram@ =~= multi_screen(*self),
                color_ram@ =~= multi_colour_ram(*self),
                p <= 8000,
                bitmap@ =~= multi_bitmap(*self).take(p as int),
            decreases 8000 - p,
        {
            let idx = p / 8;
            let v: u8 = if idx < n {
                match self.cells[idx] {
                    CellChoice::Multi(m) => {
                        assert(multi_cell_error(*self, idx as int) is None);
                        match quad_row(self, idx, p % 8, m.colours) {
                            Some(b) => b,
                            None => 0,
                        }
                    },
                    _ => 0,
                }
            } else {
                0
            };
            bitmap.push(v);
            p += 1;
        }
        Ok(KoalaImage { bitmap, screen_ram, color_ram, background })
    }

    /// Bridge to the Amiga ILBM codec input: the palette as 8-bit RGB
    /// triples and the pixels as they are.
    pub fn to_ilbm(&self) -> (r: Result<IlbmImage, ConvertError>)
        ensures
            match to_ilbm_spec(*self) {
                Ok((w, h, planes, camg, xa, ya)) => match r {
                    Ok(img) => img.width == w && img.height == h && img.n_planes == planes && img.camg == camg
                        && img.x_aspect == xa && img.y_aspect == ya && img.palette@ == ilbm_palette(*self)
                        && img.pixels@ == self.pixels@,
                    Err(_) => false,
                },
                Err(e) => match r {
                    Err(x) => x@ == e,
                    Ok(_) => false,
                },
            },
    {
        if !str_eq(self.machine_id.as_str(), "commodore-amiga-ocs") {
            let mut actual: Vec<char> = Vec::new();
            push_str(&mut actual, self.machine_id.as_str());
            push_str(&mut actual, " ");
            push_str(&mut actual, self.mode_name.as_str());
            return Err(
                ConvertError::WrongTarget {
                    bridge: "to_ilbm",
                    expected: "commodore-amiga-ocs planar",
                    actual: string_of(actual.as_slice()),
                },
            );
        }
        let n_planes = match self.n_planes {
            Some(p) => p,
            None => {
                return Err(ConvertError::Internal { what: "planar conversion without a plane count" });
            },
        };
        let mode = chars_of(self.mode_name.as_str());
        let hires = has_prefix(mode.as_slice(), "hires");
        let camg: u32 = if hires {
            CAMG_HIRES
        } else {
            0
        };
        let x_aspect: u8 = if hires {
            5
        } else {
            10
        };
        let width: u16 = if self.width <= 0xffff {
            self.width as u16
        } else {
            0xffff
        };
        let height: u16 = if self.height <= 0xffff {
            self.height as u16
        } else {
            0xffff
        };
        let mut palette: Vec<[u8; 3]> = Vec::new();
        let mut i: usize = 0;
        while i < self.palette.len()
            invariant
                i <= self.palette@.len(),
                palette@ =~= ilbm_palette(*self).take(i as int),
            decreases self.palette@.len() - i,
        {
            let c = self.palette[i];
            palette.push([c.r, c.g, c.b]);
            i += 1;
        }
        assert(palette@ =~= ilbm_palette(*self));
        Ok(
            IlbmImage {
                width,
                height,
                n_planes,
                palette,
                pixels: self.pixels.clone(),
                camg,
                x_aspect,
                y_aspect: 11,
            },
        )
    }

    /// Whether the pixels cover every cell the conversion lists: at most
    /// `max_cells` cells, each cell's last pixel in range (see
    /// [`cells_fit`]).
    pub fn cells_fit_check(&self, cols: u32, cw: u32, max_cells: usize) -> (r: bool)
        requires
            0 < cols <= 40,
            0 < cw <= 8,
            max_cells <= 1000,
        ensures
            r == cells_fit(*self, cols as int, cw as int, max_cells as int),
    {
        let n = self.cells.len();
        if n > max_cells {
            return false;
        }
        let len = self.pixels.len() as u64;
        let mut idx: usize = 0;
        while idx < n
            invariant
                n == self.cells@.len(),
                n <= 1000,
                0 < cols <= 40,
                0 < cw <= 8,
                len == self.pixels@.len(),
                idx <= n,
                forall|j: int| 0 <= j < idx ==> #[trigger] cell_pixel_index(*self, cols as int, cw as int, j, 7, cw - 1)
                    < self.pixels@.len(),
            decreases n - idx,
        {
            let i = idx as u64;
            let q = i / (cols as u64);
            let rem = i % (cols as u64);
            assert(q <= 1000) by (nonlinear_arith)
                requires
                    q == i / (cols as u64),
                    i < 1000,
                    cols > 0,
            ;
            assert((q * 8 + 7) * (self.width as u64) <= 8007 * 0xffff_ffff) by (nonlinear_arith)
                requires
                    q <= 1000,
                    self.width <= 0xffff_ffff,
            ;
            assert(rem < cols) by (nonlinear_arith)
                requires
                    rem == i % (cols as u64),
                    cols > 0,
            ;
            let base: u64 = q * 8 + 7;
            let a: u64 = base * (self.width as u64);
            assert(rem * (cw as u64) <= 320) by (nonlinear_arith)
                requires
                    rem < 40,
                    cw <= 8,
            ;
            let b: u64 = rem * (cw as u64);
            let last: u64 = a + b + (cw as u64 - 1);
            assert(last == cell_pixel_index(*self, cols as int, cw as int, idx as int, 7, cw - 1));
            if last >= len {
                return false;
            }
            idx += 1;
        }
        true
    }

    /// Whether the conversion's own bridge may run on it (see
    /// [`bridge_ready`]).
    pub fn bridge_ready_check(&self) -> (r: bool)
        ensures
            r == bridge_ready(*self),
    {
        proof {
            reveal_strlit("sinclair-zx-spectrum");
            reveal_strlit("commodore-c64");
            reveal_strlit("hires-bitmap");
            reveal_strlit("multicolour-bitmap");
            assert("sinclair-zx-spectrum"@.len() != "commodore-c64"@.len());
            assert("hires-bitmap"@.len() != "multicolour-bitmap"@.len());
        }
        if str_eq(self.machine_id.as_str(), "sinclair-zx-spectrum") && str_eq(self.mode_name.as_str(), "standard") {
            return self.cells_fit_check(32, 8, 768);
        }
        if str_eq(self.machine_id.as_str(), "commodore-c64") && str_eq(self.mode_name.as_str(), "hires-bitmap") {
            return self.cells_fit_check(40, 8, 1000);
        }
        if str_eq(self.machine_id.as_str(), "commodore-c64") && str_eq(self.mode_name.as_str(), "multicolour-bitmap") {
            return self.cells_fit_check(40, 4, 1000);
        }
        true
    }
}

} // verus!
