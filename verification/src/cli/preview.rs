//! The PNG preview of a conversion: each mode pixel drawn in its palette
//! colour and duplicated by the mode's pixel aspect, so the picture shows
//! at display proportions.
use vstd::prelude::*;

use crate::convert::pipeline::Conversion;
use crate::mediaspec::consistency::lemma_pixel_aspects_at_most_two;
use crate::mediaspec::{first_mode, machines_view, spec_machine, Rgb};
use crate::text::{push_str, string_of};

verus! {

/// The colour a palette index shows: its palette entry, or black when the
/// index is past the palette.
pub open spec fn colour_at(palette: Seq<Rgb>, idx: u8) -> Rgb {
    if idx < palette.len() {
        palette[idx as int]
    } else {
        Rgb { r: 0, g: 0, b: 0 }
    }
}

/// `s` written `k` times.
pub open spec fn repeated(s: Seq<u8>, k: nat) -> Seq<u8>
    decreases k,
{
    if k == 0 {
        Seq::empty()
    } else {
        repeated(s, (k - 1) as nat) + s
    }
}

/// The RGB bytes of a colour.
pub open spec fn rgb_bytes(c: Rgb) -> Seq<u8> {
    seq![c.r, c.g, c.b]
}

/// One preview line: each pixel of the row in its colour, `sx` times.
pub open spec fn preview_line(row: Seq<u8>, palette: Seq<Rgb>, sx: nat) -> Seq<u8>
    decreases row.len(),
{
    if row.len() == 0 {
        Seq::empty()
    } else {
        preview_line(row.drop_last(), palette, sx) + repeated(rgb_bytes(colour_at(palette, row.last())), sx)
    }
}

/// The first `n` rows of the preview: each row of `width` pixels as a line,
/// `sy` times.
pub open spec fn preview_rows(pixels: Seq<u8>, width: nat, palette: Seq<Rgb>, sx: nat, sy: nat, n: nat) -> Seq<u8>
    decreases n,
{
    if n == 0 {
        Seq::empty()
    } else {
        preview_rows(pixels, width, palette, sx, sy, (n - 1) as nat) + repeated(
            preview_line(pixels.subrange((n - 1) * width, (n * width) as int), palette, sx),
            sy,
        )
    }
}

proof fn lemma_repeated_len(s: Seq<u8>, k: nat)
    ensures
        repeated(s, k).len() == s.len() * k,
    decreases k,
{
    let a = s.len() as int;
    let b = k as int;
    if k > 0 {
        lemma_repeated_len(s, (k - 1) as nat);
        assert(a * (b - 1) + a == a * b) by (nonlinear_arith);
        assert(repeated(s, (k - 1) as nat).len() == a * (b - 1));
        assert(repeated(s, k) == repeated(s, (k - 1) as nat) + s);
    } else {
        assert(a * b == 0) by (nonlinear_arith)
            requires
                b == 0,
        ;
    }
}

proof fn lemma_line_len(row: Seq<u8>, palette: Seq<Rgb>, sx: nat)
    ensures
        preview_line(row, palette, sx).len() == row.len() * sx * 3,
    decreases row.len(),
{
    if row.len() > 0 {
        lemma_line_len(row.drop_last(), palette, sx);
        lemma_repeated_len(rgb_bytes(colour_at(palette, row.last())), sx);
        let l = row.len() as int;
        let x = sx as int;
        assert((l - 1) * x * 3 + 3 * x == l * x * 3) by (nonlinear_arith);
    }
}

proof fn lemma_rows_len(pixels: Seq<u8>, width: nat, palette: Seq<Rgb>, sx: nat, sy: nat, n: nat)
    requires
        n * width <= pixels.len(),
    ensures
        preview_rows(pixels, width, palette, sx, sy, n).len() == n * sy * width * sx * 3,
    decreases n,
{
    if n > 0 {
        let ni = n as int;
        let w = width as int;
        let x = sx as int;
        let y = sy as int;
        assert(0 <= (ni - 1) * w <= ni * w) by (nonlinear_arith)
            requires
                ni > 0,
                w >= 0,
        ;
        assert(ni * w - (ni - 1) * w == w) by (nonlinear_arith);
        lemma_rows_len(pixels, width, palette, sx, sy, (n - 1) as nat);
        let row = pixels.subrange((n - 1) * width, (n * width) as int);
        assert(row.len() == w);
        let line = preview_line(row, palette, sx);
        lemma_line_len(row, palette, sx);
        lemma_repeated_len(line, sy);
        assert((ni - 1) * y * w * x * 3 + (w * x * 3) * y == ni * y * w * x * 3) by (nonlinear_arith);
        assert(preview_rows(pixels, width, palette, sx, sy, (n - 1) as nat).len() == (ni - 1) * y * w * x * 3);
        assert(line.len() == w * x * 3);
        assert(repeated(line, sy).len() == (w * x * 3) * y);
    } else {
        assert(n * sy * width * sx * 3 == 0) by (nonlinear_arith)
            requires
                n == 0,
        ;
    }
}

/// The pixel aspect of a conversion's mode, when the specification has
/// its machine and mode.
pub open spec fn preview_aspect(c: Conversion) -> Option<(u8, u8)> {
    match spec_machine(c.machine_id@) {
        Some(m) => match first_mode(m.modes, c.mode_name@) {
            Some(i) => Some((m.modes[i].pixel_aspect.horizontal, m.modes[i].pixel_aspect.vertical)),
            None => None,
        },
        None => None,
    }
}

/// What the PNG encoder of the `image` crate gives for 8-bit RGB pixels of
/// the given dimensions: the PNG it writes, or the text of its error.
pub uninterp spec fn spec_png_rgb8(rgb: Seq<u8>, width: u32, height: u32) -> Result<Seq<u8>, Seq<char>>;

/// `image::ImageEncoder::write_image` on a fresh `image::codecs::png::PngEncoder`
/// with `ExtendedColorType::Rgb8`: it needs exactly three bytes per pixel
/// (it panics otherwise); its outcome is [`spec_png_rgb8`] of the pixels
/// and dimensions, an error coming back as its text.
#[verifier::external_body]
fn png_encode_rgb8(rgb: &[u8], width: u32, height: u32) -> (r: Result<Vec<u8>, String>)
    requires
        rgb@.len() == width * height * 3,
    ensures
        match spec_png_rgb8(rgb@, width, height) {
            Ok(png) => r matches Ok(bytes) && bytes@ == png,
            Err(m) => r matches Err(e) && e@ == m,
        },
{
    let mut out: Vec<u8> = Vec::new();
    let encoder = image::codecs::png::PngEncoder::new(&mut out);
    match image::ImageEncoder::write_image(encoder, rgb, width, height, image::ExtendedColorType::Rgb8) {
        Ok(()) => Ok(out),
        Err(e) => Err(e.to_string()),
    }
}

fn push_repeated_colour(line: &mut Vec<u8>, c: Rgb, sx: u32)
    ensures
        final(line)@ == old(line)@ + repeated(rgb_bytes(c), sx as nat),
{
    let ghost start = line@;
    let mut k: u32 = 0;
    while k < sx
        invariant
            k <= sx,
            line@ == start + repeated(rgb_bytes(c), k as nat),
        decreases sx - k,
    {
        line.push(c.r);
        line.push(c.g);
        line.push(c.b);
        proof {
            assert(line@ =~= start + repeated(rgb_bytes(c), (k + 1) as nat));
        }
        k += 1;
    }
}

/// The preview's RGB bytes: the conversion's rows, each pixel duplicated
/// `sx` times across and each line `sy` times down.
pub fn preview_pixels(conv: &Conversion, sx: u32, sy: u32) -> (rgb: Vec<u8>)
    requires
        1 <= sx <= 2,
        1 <= sy <= 2,
        conv.pixels@.len() == conv.width * conv.height,
        conv.width * conv.height * 12 <= usize::MAX,
    ensures
        rgb@ == preview_rows(conv.pixels@, conv.width as nat, conv.palette@, sx as nat, sy as nat, conv.height as nat),
        rgb@.len() == conv.height * sy * conv.width * sx * 3,
{
    let width = conv.width as usize;
    let height = conv.height as usize;
    let ghost px = conv.pixels@;
    let ghost pal = conv.palette@;
    let mut rgb: Vec<u8> = Vec::new();
    let mut r: usize = 0;
    while r < height
        invariant
            r <= height,
            width == conv.width,
            height == conv.height,
            px == conv.pixels@,
            pal == conv.palette@,
            px.len() == width * height,
            width * height * 12 <= usize::MAX,
            1 <= sx <= 2,
            1 <= sy <= 2,
            rgb@ == preview_rows(px, width as nat, pal, sx as nat, sy as nat, r as nat),
        decreases height - r,
    {
        proof {
            assert((r + 1) * width <= height * width) by (nonlinear_arith)
                requires
                    r < height,
            ;
            assert(r * width + width == (r + 1) * width) by (nonlinear_arith);
            lemma_rows_len(px, width as nat, pal, sx as nat, sy as nat, r as nat);
            assert(r * width <= height * width) by (nonlinear_arith)
                requires
                    r < height,
            ;
            assert(r * sy * width * sx * 3 <= width * height * 12) by (nonlinear_arith)
                requires
                    r < height,
                    sx <= 2,
                    sy <= 2,
            ;
        }
        let ghost row = px.subrange(r * width, (r + 1) * width);
        let start = r * width;
        let mut line: Vec<u8> = Vec::new();
        let mut x: usize = 0;
        while x < width
            invariant
                x <= width,
                start == r * width,
                r < height,
                px == conv.pixels@,
                pal == conv.palette@,
                px.len() == width * height,
                (r + 1) * width <= height * width,
                r * width + width == (r + 1) * width,
                row == px.subrange(r * width, (r + 1) * width),
                1 <= sx <= 2,
                width * height * 12 <= usize::MAX,
                line@ == preview_line(row.take(x as int), pal, sx as nat),
                line@.len() == x * sx * 3,
            decreases width - x,
        {
            let idx = conv.pixels[start + x];
            let c: Rgb = if (idx as usize) < conv.palette.len() {
                conv.palette[idx as usize]
            } else {
                Rgb { r: 0, g: 0, b: 0 }
            };
            proof {
                assert(row[x as int] == px[start + x]);
                assert(row.take(x + 1).drop_last() =~= row.take(x as int));
                assert(row.take(x + 1).last() == idx);
                assert(c == colour_at(pal, idx));
                lemma_repeated_len(rgb_bytes(c), sx as nat);
                assert(3 * sx == sx * 3);
                assert((x + 1) * sx * 3 <= width * 6) by (nonlinear_arith)
                    requires
                        x < width,
                        sx <= 2,
                ;
                assert(x * sx * 3 + sx * 3 == (x + 1) * sx * 3) by (nonlinear_arith);
                assert(width <= width * height || height == 0) by (nonlinear_arith);
            }
            push_repeated_colour(&mut line, c, sx);
            x += 1;
        }
        assert(row.take(width as int) =~= row);
        let ghost before = rgb@;
        let mut k: u32 = 0;
        while k < sy
            invariant
                k <= sy,
                1 <= sy <= 2,
                rgb@ == before + repeated(line@, k as nat),
                before.len() == r * sy * width * sx * 3,
                line@.len() == width * sx * 3,
                r < height,
                width * height * 12 <= usize::MAX,
                r * sy * width * sx * 3 <= width * height * 12,
                1 <= sx <= 2,
            decreases sy - k,
        {
            proof {
                lemma_repeated_len(line@, k as nat);
                let ri = r as int;
                let ki = k as int;
                let w = width as int;
                let h = height as int;
                let x = sx as int;
                let y = sy as int;
                assert(ri * y * w * x * 3 + (w * x * 3) * ki + w * x * 3 <= w * h * 12) by (nonlinear_arith)
                    requires
                        0 <= ri < h,
                        0 <= ki < y,
                        1 <= y <= 2,
                        1 <= x <= 2,
                        w >= 0,
                ;
                assert(rgb@.len() == before.len() + line@.len() * k);
            }
            let ghost prev = rgb@;
            let mut j: usize = 0;
            while j < line.len()
                invariant
                    j <= line@.len(),
                    rgb@ == prev + line@.take(j as int),
                    prev.len() + line@.len() <= usize::MAX,
                decreases line@.len() - j,
            {
                rgb.push(line[j]);
                proof {
                    assert(rgb@ =~= prev + line@.take(j + 1));
                }
                j += 1;
            }
            proof {
                assert(line@.take(line@.len() as int) =~= line@);
                assert(rgb@ =~= before + repeated(line@, (k + 1) as nat));
            }
            k += 1;
        }
        proof {
            assert(preview_rows(px, width as nat, pal, sx as nat, sy as nat, (r + 1) as nat) =~= before + repeated(
                preview_line(row, pal, sx as nat),
                sy as nat,
            ));
        }
        r += 1;
    }
    proof {
        assert(height * width == width * height) by (nonlinear_arith);
        lemma_rows_len(px, width as nat, pal, sx as nat, sy as nat, height as nat);
        assert(height * sy * width * sx * 3 == conv.height * sy * conv.width * sx * 3);
    }
    rgb
}

/// Render the converted result through its palette to PNG bytes, at
/// display proportions: each mode pixel duplicated by the mode's pixel
/// aspect. An unknown machine or mode, and an encoder failure, are errors.
pub fn render_preview_png(conv: &Conversion) -> (r: Result<Vec<u8>, String>)
    requires
        conv.pixels@.len() == conv.width * conv.height,
        conv.width * conv.height * 12 <= usize::MAX,
        conv.width * 2 <= u32::MAX,
        conv.height * 2 <= u32::MAX,
    ensures
        match preview_aspect(*conv) {
            None => r matches Err(m) && m@ == "cannot render preview: unknown machine/mode `"@ + conv.machine_id@
                + "`/`"@ + conv.mode_name@ + "`"@,
            Some((sx, sy)) => match spec_png_rgb8(
                preview_rows(conv.pixels@, conv.width as nat, conv.palette@, sx as nat, sy as nat, conv.height as nat),
                (conv.width * sx) as u32,
                (conv.height * sy) as u32,
            ) {
                Ok(png) => r matches Ok(bytes) && bytes@ == png,
                Err(e) => r matches Err(m) && m@ == "cannot encode preview PNG: "@ + e,
            },
        },
{
    let aspect: Option<(u8, u8)> = match crate::mediaspec::machine(conv.machine_id.as_str()) {
        Some(m) => match m.mode(conv.mode_name.as_str()) {
            Some(md) => Some((md.pixel_aspect.horizontal, md.pixel_aspect.vertical)),
            None => None,
        },
        None => None,
    };
    proof {
        crate::mediaspec::lemma_first_mode_bounds(
            spec_machine(conv.machine_id@).unwrap_or(machines_view()[0]).modes,
            conv.mode_name@,
        );
    }
    assert(aspect == preview_aspect(*conv));
    let (ax, ay) = match aspect {
        Some(a) => a,
        None => {
            let mut m: Vec<char> = Vec::new();
            push_str(&mut m, "cannot render preview: unknown machine/mode `");
            push_str(&mut m, conv.machine_id.as_str());
            push_str(&mut m, "`/`");
            push_str(&mut m, conv.mode_name.as_str());
            push_str(&mut m, "`");
            return Err(string_of(m.as_slice()));
        },
    };
    proof {
        lemma_pixel_aspects_at_most_two();
        crate::mediaspec::consistency::lemma_machine_ids_unique_and_resolvable();
        let m = spec_machine(conv.machine_id@).unwrap();
        let i = first_mode(m.modes, conv.mode_name@).unwrap();
        assert(exists|k: int| 0 <= k < machines_view().len() && machines_view()[k] == m);
        let k = choose|k: int| 0 <= k < machines_view().len() && machines_view()[k] == m;
        crate::mediaspec::lemma_first_mode_bounds(m.modes, conv.mode_name@);
        assert(machines_view()[k].modes[i] == m.modes[i]);
        let a = machines_view()[k].modes[i].pixel_aspect;
        assert(1 <= a.horizontal <= 2 && 1 <= a.vertical <= 2);
        assert(ax == a.horizontal && ay == a.vertical);
    }
    let sx = ax as u32;
    let sy = ay as u32;
    assert(conv.width * sx <= conv.width * 2 && conv.height * sy <= conv.height * 2) by (nonlinear_arith)
        requires
            sx <= 2,
            sy <= 2,
    ;
    let out_w = conv.width * sx;
    let out_h = conv.height * sy;
    let rgb = preview_pixels(conv, sx, sy);
    proof {
        assert(conv.height * sy * conv.width * sx * 3 == out_w * out_h * 3) by (nonlinear_arith)
            requires
                out_w == conv.width * sx,
                out_h == conv.height * sy,
        ;
    }
    match png_encode_rgb8(rgb.as_slice(), out_w, out_h) {
        Ok(png) => Ok(png),
        Err(e) => {
            let mut m: Vec<char> = Vec::new();
            push_str(&mut m, "cannot encode preview PNG: ");
            push_str(&mut m, e.as_str());
            Err(string_of(m.as_slice()))
        },
    }
}

} // verus!
