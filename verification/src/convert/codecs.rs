//! The format codecs' encoders, as the library calls them: each takes a
//! bridge's output and gives the file's bytes.
use vstd::prelude::*;

use crate::cli::image_command::Format;
use crate::convert::bridges::{
    bridge_ready, ilbm_palette, to_art_studio_spec, to_ilbm_spec, to_koala_spec, to_scr_spec, ArtStudioImage,
    IlbmImage, KoalaImage, ScrScreen,
};
use crate::convert::pipeline::Conversion;
use crate::convert::{convert_error_text, ConvertErrorView};

verus! {

/// The SCR file offset of bitmap row `y`, byte column `column`: the
/// display-file interleave of three 64-row bands, eight character rows of
/// 32 bytes each, and pixel rows of a cell 256 bytes apart.
pub open spec fn scr_file_offset(y: int, column: int) -> int {
    (y / 64) * 2048 + (y % 8) * 256 + ((y / 8) % 8) * 32 + column
}

/// `format198x_sinclair_zx_spectrum_scr::encode`: on a 6,144-byte bitmap
/// and 768 attributes it gives the 6,912-byte file with each linear bitmap
/// byte at its interleaved offset, then the attributes. The lengths are
/// required, so its length error never comes.
#[verifier::external_body]
pub(crate) fn scr_encode(screen: &ScrScreen) -> (file: Vec<u8>)
    requires
        screen.bitmap@.len() == 6144,
        screen.attributes@.len() == 768,
    ensures
        file@.len() == 6912,
        forall|y: int, column: int|
            0 <= y < 192 && 0 <= column < 32 ==> file@[#[trigger] scr_file_offset(y, column)]
                == screen.bitmap@[y * 32 + column],
        file@.skip(6144) == screen.attributes@,
{
    let s = format198x_sinclair_zx_spectrum_scr::Screen {
        bitmap: screen.bitmap.clone(),
        attributes: screen.attributes.clone(),
    };
    match format198x_sinclair_zx_spectrum_scr::encode(&s) {
        Ok(bytes) => bytes,
        Err(_) => Vec::new(),
    }
}

/// The Art Studio file: the $2000 load address (little-endian), the
/// bitmap, the screen RAM and seven zero bytes.
pub open spec fn art_studio_file(bitmap: Seq<u8>, screen_ram: Seq<u8>) -> Seq<u8> {
    seq![0x00u8, 0x20u8] + bitmap + screen_ram + Seq::new(7, |i: int| 0u8)
}

/// `format198x_commodore_c64_art_studio::encode`: on an 8,000-byte bitmap
/// and 1,000 bytes of screen RAM it gives [`art_studio_file`]. The lengths
/// are required, so its length error never comes.
#[verifier::external_body]
pub(crate) fn art_studio_encode(image: &ArtStudioImage) -> (file: Vec<u8>)
    requires
        image.bitmap@.len() == 8000,
        image.screen_ram@.len() == 1000,
    ensures
        file@ == art_studio_file(image.bitmap@, image.screen_ram@),
{
    let a = format198x_commodore_c64_art_studio::ArtStudio {
        bitmap: image.bitmap.clone(),
        screen_ram: image.screen_ram.clone(),
    };
    match format198x_commodore_c64_art_studio::encode(&a) {
        Ok(bytes) => bytes,
        Err(_) => Vec::new(),
    }
}

/// The Koala file: the $6000 load address (little-endian), the bitmap, the
/// screen RAM, the colour RAM and the background byte.
pub open spec fn koala_file(bitmap: Seq<u8>, screen_ram: Seq<u8>, color_ram: Seq<u8>, background: u8) -> Seq<u8> {
    seq![0x00u8, 0x60u8] + bitmap + screen_ram + color_ram + seq![background]
}

/// `format198x_commodore_c64_koala::encode`: on an 8,000-byte bitmap and
/// 1,000 bytes each of screen and colour RAM it gives [`koala_file`]. The
/// lengths are required, so its length error never comes.
#[verifier::external_body]
pub(crate) fn koala_encode(image: &KoalaImage) -> (file: Vec<u8>)
    requires
        image.bitmap@.len() == 8000,
        image.screen_ram@.len() == 1000,
        image.color_ram@.len() == 1000,
    ensures
        file@ == koala_file(image.bitmap@, image.screen_ram@, image.color_ram@, image.background),
{
    let k = format198x_commodore_c64_koala::Koala {
        bitmap: image.bitmap.clone(),
        screen_ram: image.screen_ram.clone(),
        color_ram: image.color_ram.clone(),
        background: image.background,
    };
    match format198x_commodore_c64_koala::encode(&k) {
        Ok(bytes) => bytes,
        Err(_) => Vec::new(),
    }
}

/// The FORM ILBM stream that `format198x_commodore_amiga_ilbm::encode`
/// writes with ByteRun1 compression for an image of these fields.
pub uninterp spec fn spec_ilbm_bytes(
    width: u16,
    height: u16,
    n_planes: u8,
    palette: Seq<[u8; 3]>,
    pixels: Seq<u8>,
    camg: u32,
    x_aspect: u8,
    y_aspect: u8,
) -> Seq<u8>;

/// The largest pixel index `n_planes` bitplanes hold.
pub open spec fn ilbm_max_index(n_planes: u8) -> int {
    if n_planes == 8 {
        255
    } else {
        vstd::arithmetic::power2::pow2(n_planes as nat) - 1
    }
}

/// What the ILBM encoder accepts: both dimensions in 1..=4096, 1..=8
/// planes, at most 256 palette entries, `width * height` pixels, each
/// within the planes.
pub open spec fn ilbm_fields_encodable(width: u16, height: u16, n_planes: u8, palette_len: nat, pixels: Seq<u8>) -> bool {
    &&& 1 <= width <= 4096
    &&& 1 <= height <= 4096
    &&& 1 <= n_planes <= 8
    &&& palette_len <= 256
    &&& pixels.len() == width * height
    &&& forall|i: int| 0 <= i < pixels.len() ==> #[trigger] pixels[i] <= ilbm_max_index(n_planes)
}

/// [`ilbm_fields_encodable`] of an image.
pub open spec fn ilbm_encodable(image: IlbmImage) -> bool {
    ilbm_fields_encodable(image.width, image.height, image.n_planes, image.palette@.len(), image.pixels@)
}

/// `format198x_commodore_amiga_ilbm::encode` with ByteRun1 compression: it
/// refuses exactly the images outside [`ilbm_encodable`], with the text of
/// its error, and otherwise gives [`spec_ilbm_bytes`] of the image's fields.
/// The wording of the error is not stated.
#[verifier::external_body]
pub(crate) fn ilbm_encode(image: &IlbmImage) -> (r: Result<Vec<u8>, String>)
    ensures
        r is Ok <==> ilbm_encodable(*image),
        r matches Ok(bytes) ==> bytes@ == spec_ilbm_bytes(
            image.width,
            image.height,
            image.n_planes,
            image.palette@,
            image.pixels@,
            image.camg,
            image.x_aspect,
            image.y_aspect,
        ),
{
    let i = format198x_commodore_amiga_ilbm::Ilbm {
        width: image.width,
        height: image.height,
        n_planes: image.n_planes,
        palette: image.palette.clone(),
        pixels: image.pixels.clone(),
        camg: image.camg,
        x_aspect: image.x_aspect,
        y_aspect: image.y_aspect,
    };
    match format198x_commodore_amiga_ilbm::encode(&i, format198x_commodore_amiga_ilbm::Compression::ByteRun1) {
        Ok(bytes) => Ok(bytes),
        Err(e) => Err(e.to_string()),
    }
}

/// Whether `file` is the SCR file of a linear bitmap and attributes.
pub open spec fn is_scr_file(file: Seq<u8>, bitmap: Seq<u8>, attributes: Seq<u8>) -> bool {
    &&& file.len() == 6912
    &&& forall|y: int, column: int|
        0 <= y < 192 && 0 <= column < 32 ==> file[#[trigger] scr_file_offset(y, column)] == bitmap[y * 32
            + column]
    &&& file.skip(6144) == attributes
}

/// What encoding a conversion in a format gives: the bridge's error, or
/// the codec's file of the bridge's output.
pub open spec fn encode_native_ok(c: Conversion, format: Format, bytes: Seq<u8>) -> bool {
    match format {
        Format::Scr => match to_scr_spec(c) {
            Ok((b, a)) => is_scr_file(bytes, b, a),
            Err(_) => false,
        },
        Format::ArtStudio => match to_art_studio_spec(c) {
            Ok((b, s)) => bytes == art_studio_file(b, s),
            Err(_) => false,
        },
        Format::Koala => match to_koala_spec(c) {
            Ok((b, s, cr, bg)) => bytes == koala_file(b, s, cr, bg),
            Err(_) => false,
        },
        Format::Ilbm => match to_ilbm_spec(c) {
            Ok((w, h, planes, camg, xa, ya)) => ilbm_fields_encodable(w, h, planes, c.palette@.len(), c.pixels@)
                && bytes == spec_ilbm_bytes(w, h, planes, ilbm_palette(c), c.pixels@, camg, xa, ya),
            Err(_) => false,
        },
    }
}

/// The bridge's error for a format, if it refuses the conversion.
pub open spec fn bridge_error(c: Conversion, format: Format) -> Option<ConvertErrorView> {
    match format {
        Format::Scr => match to_scr_spec(c) {
            Err(e) => Some(e),
            Ok(_) => None,
        },
        Format::ArtStudio => match to_art_studio_spec(c) {
            Err(e) => Some(e),
            Ok(_) => None,
        },
        Format::Koala => match to_koala_spec(c) {
            Err(e) => Some(e),
            Ok(_) => None,
        },
        Format::Ilbm => match to_ilbm_spec(c) {
            Err(e) => Some(e),
            Ok(_) => None,
        },
    }
}

/// Encode a conversion into its native on-disk format: the format's bridge
/// and then its codec. A bridge error comes back as its message, as does
/// the ILBM encoder's refusal (its wording is the codec's).
pub fn encode_native(conv: &Conversion, format: Format) -> (r: Result<Vec<u8>, String>)
    requires
        bridge_ready(*conv),
    ensures
        match bridge_error(*conv, format) {
            Some(e) => r matches Err(m) && m@ == convert_error_text(e),
            None => match r {
                Ok(bytes) => encode_native_ok(*conv, format, bytes@),
                Err(_) => format == Format::Ilbm && match to_ilbm_spec(*conv) {
                    Ok((w, h, planes, _, _, _)) => !ilbm_fields_encodable(
                        w,
                        h,
                        planes,
                        conv.palette@.len(),
                        conv.pixels@,
                    ),
                    Err(_) => false,
                },
            },
        },
{
    match format {
        Format::Scr => match conv.to_scr() {
            Err(e) => Err(e.describe()),
            Ok(screen) => Ok(scr_encode(&screen)),
        },
        Format::ArtStudio => match conv.to_art_studio() {
            Err(e) => Err(e.describe()),
            Ok(image) => Ok(art_studio_encode(&image)),
        },
        Format::Koala => match conv.to_koala() {
            Err(e) => Err(e.describe()),
            Ok(image) => Ok(koala_encode(&image)),
        },
        Format::Ilbm => match conv.to_ilbm() {
            Err(e) => Err(e.describe()),
            Ok(image) => {
                assert(image.palette@.len() == conv.palette@.len());
                ilbm_encode(&image)
            },
        },
    }
}

} // verus!
