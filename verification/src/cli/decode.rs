//! Reading an input image for the `image` command: the pixel-count cap,
//! read from the container header before the full decode, the decode
//! itself, and the warnings the report carries about the input.
use vstd::prelude::*;

use crate::convert::normalise::{spec_image_rgba, spec_image_size, MAX_PIXELS};
use crate::text::{decimal, push_decimal, push_str, string_of};

verus! {

/// The `(width, height)` the `image` crate reads from a container's header
/// after guessing its format from its leading bytes, when it can.
pub uninterp spec fn spec_probe_dimensions(bytes: Seq<u8>) -> Option<(u32, u32)>;

/// `image::ImageReader::new` over the bytes, `with_guessed_format`, then
/// `into_dimensions`: the header's dimensions without decoding the pixels,
/// `None` when the format is not recognised or the header unreadable. What
/// it gives is named by [`spec_probe_dimensions`], not stated.
#[verifier::external_body]
fn probe_dimensions(bytes: &[u8]) -> (r: Option<(u32, u32)>)
    ensures
        r == spec_probe_dimensions(bytes@),
{
    match image::ImageReader::new(std::io::Cursor::new(bytes)).with_guessed_format() {
        Ok(reader) => match reader.into_dimensions() {
            Ok(d) => Some(d),
            Err(_) => None,
        },
        Err(_) => None,
    }
}

/// What `image::load_from_memory` gives for the bytes: the decoded image's
/// `(width, height)` and its pixels as 8-bit RGBA in row-major order, or the
/// text of the decoder's error.
pub uninterp spec fn spec_decode(bytes: Seq<u8>) -> Result<((u32, u32), Seq<(u8, u8, u8, u8)>), Seq<char>>;

/// `image::load_from_memory`: its outcome is [`spec_decode`] of the bytes.
/// A decoded image has that size and those pixels, as the normalisation
/// stage reads them; an error comes back as its text.
#[verifier::external_body]
pub(crate) fn load_image(bytes: &[u8]) -> (r: Result<image::DynamicImage, String>)
    ensures
        match spec_decode(bytes@) {
            Ok((size, px)) => r matches Ok(img) && spec_image_size(img) == size && spec_image_rgba(img) == px,
            Err(m) => r matches Err(e) && e@ == m,
        },
{
    match image::load_from_memory(bytes) {
        Ok(img) => Ok(img),
        Err(e) => Err(e.to_string()),
    }
}

/// Whether the bytes start with the PNG signature.
pub open spec fn png_signature(bytes: Seq<u8>) -> bool {
    bytes.len() >= 8 && bytes.take(8) == seq![0x89u8, 0x50u8, 0x4eu8, 0x47u8, 0x0du8, 0x0au8, 0x1au8, 0x0au8]
}

/// `image::guess_format` recognises PNG: its signature table tries the PNG
/// signature first, so the guess is PNG exactly when the bytes start with
/// it.
#[verifier::external_body]
fn guessed_png(bytes: &[u8]) -> (r: bool)
    ensures
        r == png_signature(bytes@),
{
    match image::guess_format(bytes) {
        Ok(image::ImageFormat::Png) => true,
        _ => false,
    }
}

/// What the `image` crate's GIF decoder yields for the bytes, frame by
/// frame up to `limit` frames: whether each decoded; `None` when the
/// decoder does not open them.
pub uninterp spec fn spec_gif_frames(bytes: Seq<u8>, limit: usize) -> Option<Seq<bool>>;

/// `image::codecs::gif::GifDecoder::new` over the bytes, then its frames
/// (`AnimationDecoder::into_frames`), at most `limit` of them, each read
/// out as whether it decoded. What it gives is named by
/// [`spec_gif_frames`]; there are never more than `limit`.
#[verifier::external_body]
fn gif_frames(bytes: &[u8], limit: usize) -> (r: Option<Vec<bool>>)
    ensures
        match spec_gif_frames(bytes@, limit) {
            Some(fs) => r matches Some(v) && v@ == fs && fs.len() <= limit,
            None => r is None,
        },
{
    match image::codecs::gif::GifDecoder::new(std::io::Cursor::new(bytes)) {
        Ok(decoder) => Some(image::AnimationDecoder::into_frames(decoder).take(limit).map(|f| f.is_ok()).collect()),
        Err(_) => None,
    }
}

/// How many of the frames decoded.
pub open spec fn decoded_count(frames: Seq<bool>) -> nat
    decreases frames.len(),
{
    if frames.len() == 0 {
        0
    } else {
        decoded_count(frames.drop_last()) + if frames.last() {
            1nat
        } else {
            0nat
        }
    }
}

/// Whether frames read from a GIF show an animation: more than one of them
/// decoded.
pub fn frames_show_animation(frames: &[bool]) -> (r: bool)
    ensures
        r == (decoded_count(frames@) > 1),
{
    let mut n: usize = 0;
    let mut i: usize = 0;
    while i < frames.len()
        invariant
            i <= frames@.len(),
            n == decoded_count(frames@.take(i as int)),
            n <= i,
        decreases frames@.len() - i,
    {
        assert(frames@.take(i + 1).drop_last() =~= frames@.take(i as int));
        if frames[i] {
            n += 1;
        }
        i += 1;
    }
    assert(frames@.take(frames@.len() as int) =~= frames@);
    n > 1
}

/// Whether the bytes hold an animated (multi-frame) GIF: a `GIF8`
/// signature, and more than one of the decoder's first two frames decodes.
pub open spec fn gif_animated(bytes: Seq<u8>) -> bool {
    &&& bytes.len() >= 4 && bytes.take(4) == seq![0x47u8, 0x49u8, 0x46u8, 0x38u8]
    &&& match spec_gif_frames(bytes, 2) {
        Some(fs) => decoded_count(fs) > 1,
        None => false,
    }
}

/// Does this byte stream hold an animated (multi-frame) GIF?
pub fn gif_is_animated(bytes: &[u8]) -> (r: bool)
    ensures
        r == gif_animated(bytes@),
{
    if bytes.len() < 4 || bytes[0] != 0x47 || bytes[1] != 0x49 || bytes[2] != 0x46 || bytes[3] != 0x38 {
        proof {
            if bytes@.len() >= 4 && bytes@.take(4) == seq![0x47u8, 0x49u8, 0x46u8, 0x38u8] {
                assert(bytes@.take(4)[0] == bytes@[0]);
                assert(bytes@.take(4)[1] == bytes@[1]);
                assert(bytes@.take(4)[2] == bytes@[2]);
                assert(bytes@.take(4)[3] == bytes@[3]);
            }
        }
        return false;
    }
    assert(bytes@.take(4) =~= seq![0x47u8, 0x49u8, 0x46u8, 0x38u8]);
    match gif_frames(bytes, 2) {
        Some(frames) => frames_show_animation(frames.as_slice()),
        None => false,
    }
}

/// The error for an input whose header declares more than the pixel cap.
pub open spec fn pixel_cap_message(input: Seq<char>, w: u32, h: u32) -> Seq<char> {
    "cannot decode "@ + input + ": "@ + decimal(w as nat) + "x"@ + decimal(h as nat) + " is "@ + decimal(
        (w * h) as nat,
    ) + " pixels, above the "@ + decimal(MAX_PIXELS as nat) + " pixel cap"@
}

/// The warnings the report carries about an input: not a PNG (outside the
/// byte-identical guarantee), then an animated GIF.
pub open spec fn input_warnings(bytes: Seq<u8>) -> Seq<Seq<char>> {
    (if png_signature(bytes) {
        Seq::empty()
    } else {
        seq!["non-PNG input: byte-identical output is not guaranteed (determinism contract covers PNG)"@]
    }) + (if gif_animated(bytes) {
        seq!["animated input: first frame used"@]
    } else {
        Seq::empty()
    })
}

/// Decode an input's bytes: refused from the header when its dimensions
/// exceed the pixel cap (a header the probe cannot read falls through to
/// the decoder), else decoded, with the input's warnings. A decoder
/// failure is `cannot decode <input>: ` and the decoder's message.
/// The image handed back is the one the bytes decode to.
pub fn decode_input(input: &str, bytes: &[u8]) -> (r: Result<(image::DynamicImage, Vec<String>), String>)
    ensures
        match spec_probe_dimensions(bytes@) {
            Some((w, h)) if w * h > MAX_PIXELS => r matches Err(m) && m@ == pixel_cap_message(input@, w, h),
            _ => match spec_decode(bytes@) {
                Ok((size, px)) => r matches Ok((img, warnings)) && spec_image_size(img) == size && spec_image_rgba(img)
                    == px && warnings@.map_values(|s: String| s@) == input_warnings(bytes@),
                Err(msg) => r matches Err(m) && m@ == "cannot decode "@ + input@ + ": "@ + msg,
            },
        },
{
    match probe_dimensions(bytes) {
        Some((w, h)) => {
            assert((w as u64) * (h as u64) <= u64::MAX) by (nonlinear_arith)
                requires
                    w <= u32::MAX,
                    h <= u32::MAX,
            ;
            if (w as u64) * (h as u64) > MAX_PIXELS {
                let mut m: Vec<char> = Vec::new();
                push_str(&mut m, "cannot decode ");
                push_str(&mut m, input);
                push_str(&mut m, ": ");
                push_decimal(&mut m, w as u64);
                push_str(&mut m, "x");
                push_decimal(&mut m, h as u64);
                push_str(&mut m, " is ");
                push_decimal(&mut m, (w as u64) * (h as u64));
                push_str(&mut m, " pixels, above the ");
                push_decimal(&mut m, MAX_PIXELS);
                push_str(&mut m, " pixel cap");
                assert(m@ =~= pixel_cap_message(input@, w, h));
                return Err(string_of(m.as_slice()));
            }
        },
        None => {},
    }
    let img = match load_image(bytes) {
        Ok(i) => i,
        Err(e) => {
            let mut m: Vec<char> = Vec::new();
            push_str(&mut m, "cannot decode ");
            push_str(&mut m, input);
            push_str(&mut m, ": ");
            push_str(&mut m, e.as_str());
            return Err(string_of(m.as_slice()));
        },
    };
    let mut warnings: Vec<String> = Vec::new();
    if !guessed_png(bytes) {
        warnings.push(
            "non-PNG input: byte-identical output is not guaranteed (determinism contract covers PNG)".to_owned(),
        );
    }
    if gif_is_animated(bytes) {
        warnings.push("animated input: first frame used".to_owned());
    }
    assert(warnings@.map_values(|s: String| s@) =~= input_warnings(bytes@));
    Ok((img, warnings))
}

} // verus!
