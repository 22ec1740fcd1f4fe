//! Input normalisation: a decoded image to an 8-bit sRGB [`Rgb8Image`]
//! with alpha composited over a matte.
//!
//! - **Colour management:** the source is assumed to be sRGB; embedded ICC
//!   profiles are ignored.
//! - **Bit depth:** 16-bit channels narrow and grey/indexed inputs expand
//!   through the decoder's RGBA8 conversion.
//! - **Alpha compositing** happens in sRGB space with round-half-up integer
//!   arithmetic (`(c*a + m*(255-a) + 127) / 255`).
use vstd::prelude::*;

use crate::convert::{ConvertError, ConvertErrorView, Rgb8Image};

verus! {

/// Sanity cap on input width and height, in pixels.
pub const MAX_DIMENSION: u32 = 16384;

/// Sanity cap on the total pixel count (`width * height`).
pub const MAX_PIXELS: u64 = 64_000_000;

#[verifier::external_type_specification]
#[verifier::external_body]
pub struct ExDynamicImage(image::DynamicImage);

/// A decoded image's `(width, height)`.
pub uninterp spec fn spec_image_size(img: image::DynamicImage) -> (u32, u32);

/// A decoded image's pixels as 8-bit `(r, g, b, a)`, row-major.
pub uninterp spec fn spec_image_rgba(img: image::DynamicImage) -> Seq<(u8, u8, u8, u8)>;

/// `image::DynamicImage::width`. The contract names it.
#[verifier::external_body]
fn image_width(img: &image::DynamicImage) -> (w: u32)
    ensures
        w == spec_image_size(*img).0,
{
    img.width()
}

/// `image::DynamicImage::height`. The contract names it.
#[verifier::external_body]
fn image_height(img: &image::DynamicImage) -> (h: u32)
    ensures
        h == spec_image_size(*img).1,
{
    img.height()
}

/// `image::DynamicImage::to_rgba8`, its pixels read out in row-major
/// order. The contract names them and states that there is one per pixel
/// of the image (the buffer has the image's dimensions).
#[verifier::external_body]
fn image_rgba(img: &image::DynamicImage) -> (px: Vec<(u8, u8, u8, u8)>)
    ensures
        px@ == spec_image_rgba(*img),
        px@.len() == spec_image_size(*img).0 as int * spec_image_size(*img).1 as int,
{
    img.to_rgba8().pixels().map(|p| (p.0[0], p.0[1], p.0[2], p.0[3])).collect()
}

/// `src` over `matte` at coverage `alpha`, round-half-up.
pub open spec fn composite_spec(src: u8, matte: u8, alpha: u8) -> int {
    (src * alpha + matte * (255 - alpha) + 127) / 255
}

/// `src` over `matte` at coverage `alpha`, sRGB-space integer
/// round-half-up. `alpha = 255` gives `src` exactly; `alpha = 0` gives
/// `matte` exactly.
pub fn composite(src: u8, matte: u8, alpha: u8) -> (r: u8)
    ensures
        r == composite_spec(src, matte, alpha),
        alpha == 255 ==> r == src,
        alpha == 0 ==> r == matte,
{
    let a = alpha as u32;
    assert((src as u32) * a + (matte as u32) * (255 - a) <= 255 * 255) by (nonlinear_arith)
        requires
            src <= 255,
            matte <= 255,
            a <= 255,
    ;
    let blended = (src as u32) * a + (matte as u32) * (255 - a);
    let r = (blended + 127) / 255;
    assert(alpha == 255 ==> r == src) by (nonlinear_arith)
        requires
            blended == src * a + matte * (255 - a),
            r == (blended + 127) / 255,
            a == alpha,
            src <= 255,
    ;
    assert(alpha == 0 ==> r == matte) by (nonlinear_arith)
        requires
            blended == src * a + matte * (255 - a),
            r == (blended + 127) / 255,
            a == alpha,
            matte <= 255,
    ;
    r as u8
}

/// The composited image of `(r, g, b, a)` pixels over a matte.
pub open spec fn composited(px: Seq<(u8, u8, u8, u8)>, matte: [u8; 3]) -> Seq<[u8; 3]> {
    Seq::new(
        px.len(),
        |i: int|
            [
                composite_spec(px[i].0, matte[0], px[i].3) as u8,
                composite_spec(px[i].1, matte[1], px[i].3) as u8,
                composite_spec(px[i].2, matte[2], px[i].3) as u8,
            ],
    )
}

/// What normalising an image of the given size and pixels gives: the
/// first failing check, or the composited image.
pub open spec fn normalise_spec(
    width: u32,
    height: u32,
    px: Seq<(u8, u8, u8, u8)>,
    matte: [u8; 3],
) -> Result<(u32, u32, Seq<[u8; 3]>), ConvertErrorView> {
    if width == 0 || height == 0 {
        Err(ConvertErrorView::EmptyImage)
    } else if width > MAX_DIMENSION || height > MAX_DIMENSION {
        Err(ConvertErrorView::DimensionsTooLarge { width, height, max: MAX_DIMENSION })
    } else if width * height > MAX_PIXELS {
        Err(ConvertErrorView::TooManyPixels { width, height, max_pixels: MAX_PIXELS })
    } else {
        Ok((width, height, composited(px, matte)))
    }
}

/// Normalise decoded pixels: dimension sanity checks, then composite alpha
/// over `matte`.
pub fn normalise_pixels(width: u32, height: u32, px: &Vec<(u8, u8, u8, u8)>, matte: [u8; 3]) -> (r: Result<Rgb8Image, ConvertError>)
    ensures
        match normalise_spec(width, height, px@, matte) {
            Ok((w, h, p)) => match r {
                Ok(img) => img.width == w && img.height == h && img.pixels@ == p,
                Err(_) => false,
            },
            Err(e) => match r {
                Err(x) => x@ == e,
                Ok(_) => false,
            },
        },
{
    if width == 0 || height == 0 {
        return Err(ConvertError::EmptyImage);
    }
    if width > MAX_DIMENSION || height > MAX_DIMENSION {
        return Err(ConvertError::DimensionsTooLarge { width, height, max: MAX_DIMENSION });
    }
    assert((width as u64) * (height as u64) <= 16384 * 16384) by (nonlinear_arith)
        requires
            width <= 16384,
            height <= 16384,
    ;
    if (width as u64) * (height as u64) > MAX_PIXELS {
        return Err(ConvertError::TooManyPixels { width, height, max_pixels: MAX_PIXELS });
    }
    let mut pixels: Vec<[u8; 3]> = Vec::new();
    let mut i: usize = 0;
    while i < px.len()
        invariant
            i <= px@.len(),
            pixels@ =~= composited(px@, matte).take(i as int),
        decreases px@.len() - i,
    {
        let (r, g, b, a) = px[i];
        pixels.push([composite(r, matte[0], a), composite(g, matte[1], a), composite(b, matte[2], a)]);
        i += 1;
    }
    Ok(Rgb8Image { width, height, pixels })
}

/// Normalise a decoded image: dimension sanity checks (before any
/// allocation here), expand or narrow to 8-bit RGBA, composite alpha over
/// `matte`. The result holds one pixel per pixel of the image.
pub fn normalise(img: &image::DynamicImage, matte: [u8; 3]) -> (r: Result<Rgb8Image, ConvertError>)
    ensures
        match normalise_spec(
            spec_image_size(*img).0,
            spec_image_size(*img).1,
            spec_image_rgba(*img),
            matte,
        ) {
            Ok((w, h, p)) => match r {
                Ok(out) => out.width == w && out.height == h && out.pixels@ == p
                    && out.pixels@.len() == w * h,
                Err(_) => false,
            },
            Err(e) => match r {
                Err(x) => x@ == e,
                Ok(_) => false,
            },
        },
{
    let width = image_width(img);
    let height = image_height(img);
    if width == 0 || height == 0 {
        return Err(ConvertError::EmptyImage);
    }
    if width > MAX_DIMENSION || height > MAX_DIMENSION {
        return Err(ConvertError::DimensionsTooLarge { width, height, max: MAX_DIMENSION });
    }
    assert((width as u64) * (height as u64) <= 16384 * 16384) by (nonlinear_arith)
        requires
            width <= 16384,
            height <= 16384,
    ;
    if (width as u64) * (height as u64) > MAX_PIXELS {
        return Err(ConvertError::TooManyPixels { width, height, max_pixels: MAX_PIXELS });
    }
    let px = image_rgba(img);
    normalise_pixels(width, height, &px, matte)
}

} // verus!
