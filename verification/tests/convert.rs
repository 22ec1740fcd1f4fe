//! The integer stages of the conversion pipeline, the bridges from a
//! conversion to the format codecs' inputs, and the native encoders.

use build198x::cli::image_command::Format;
use build198x::convert::codecs::encode_native;
use build198x::convert::constrain::{HiresChoice, MultiChoice, SpectrumChoice};
use build198x::convert::dither::DitherMode;
use build198x::convert::normalise::composite;
use build198x::convert::pipeline::{default_dither, CellChoice, Conversion, Options};
use build198x::convert::quantise::round_channel_to_gamut;
use build198x::convert::resize::{box_taps, fit_rect};
use build198x::convert::ConvertError;
use build198x::convert::constrain::most_frequent;
use build198x::convert::dither::bayer_level;
use build198x::convert::grid::cell_pixels;
use build198x::convert::grid::place_on_paper;
use build198x::convert::quantise::sorted_distinct_colours;
use build198x::mediaspec::{machine, rgb, ConstraintRule};

#[test]
fn composite_endpoints_are_exact() {
    for v in [0u8, 1, 127, 128, 254, 255] {
        assert_eq!(composite(v, 99, 255), v);
        assert_eq!(composite(v, 99, 0), 99);
    }
}

#[test]
fn composite_half_alpha_rounds_half_up() {
    assert_eq!(composite(255, 0, 128), 128);
}

#[test]
fn gamut_round_is_idempotent_on_grid_values() {
    for level in 0..16u8 {
        let v = level * 17;
        assert_eq!(round_channel_to_gamut(v, 4), v);
    }
}

#[test]
fn gamut_rounded_channels_satisfy_the_nibble_identity() {
    for v in 0..=255u8 {
        let rounded = round_channel_to_gamut(v, 4);
        assert_eq!(rounded, (rounded & 0x0F) * 17, "{v} rounded to {rounded}, off the 4-bit grid");
    }
}

#[test]
fn gamut_round_picks_the_nearest_level() {
    assert_eq!(round_channel_to_gamut(8, 4), 0);
    assert_eq!(round_channel_to_gamut(9, 4), 17);
    assert_eq!(round_channel_to_gamut(250, 4), 255);
    assert_eq!(round_channel_to_gamut(100, 8), 100);
}

#[test]
fn dither_default_resolves_per_target() {
    assert_eq!(default_dither(ConstraintRule::Planar { max_planes: 5 }), DitherMode::FloydSteinberg);
    for rule in [ConstraintRule::SpectrumAttr, ConstraintRule::C64Hires, ConstraintRule::C64Multicolour] {
        assert_eq!(default_dither(rule), DitherMode::Bayer8, "{rule:?}");
    }
    assert_eq!(Options::new("commodore-amiga-ocs", "lores-pal").dither, DitherMode::FloydSteinberg);
    assert_eq!(Options::new("commodore-amiga-ocs", "hires-ntsc").dither, DitherMode::FloydSteinberg);
    for (machine, mode) in [
        ("sinclair-zx-spectrum", "standard"),
        ("commodore-c64", "hires-bitmap"),
        ("commodore-c64", "multicolour-bitmap"),
    ] {
        assert_eq!(Options::new(machine, mode).dither, DitherMode::Bayer8, "{machine} {mode}");
    }
    assert_eq!(Options::new("acorn-electron", "standard").dither, DitherMode::Bayer8);
}

#[test]
fn fit_rect_honours_c64_multicolour_pixel_aspect() {
    let m = machine("commodore-c64").expect("machine");
    let mode = m.mode("multicolour-bitmap").expect("mode");
    let (w, h, ox, oy) = fit_rect(100, 100, mode);
    assert_eq!((w, h, ox, oy), (100, 200, 30, 0));
}

#[test]
fn fit_rect_letterboxes_a_wide_source() {
    let m = machine("sinclair-zx-spectrum").expect("machine");
    let mode = m.mode("standard").expect("mode");
    let (w, h, ox, oy) = fit_rect(512, 100, mode);
    assert_eq!((w, h, ox, oy), (256, 50, 0, 71));
}

#[test]
fn fit_rect_at_paper_size_is_the_whole_paper() {
    let m = machine("sinclair-zx-spectrum").expect("machine");
    let mode = m.mode("standard").expect("mode");
    assert_eq!(fit_rect(256, 192, mode), (256, 192, 0, 0));
}

fn spectrum_conversion() -> Conversion {
    // Cell 0: bright red ink on black paper in a checkerboard; the rest black.
    let mut pixels = vec![0u8; 256 * 192];
    for y in 0..8usize {
        for x in 0..8usize {
            pixels[y * 256 + x] = if (x + y) % 2 == 0 { 10 } else { 8 };
        }
    }
    let mut cells = vec![CellChoice::Spectrum(SpectrumChoice { ink: 0, paper: 0, bright: false }); 768];
    cells[0] = CellChoice::Spectrum(SpectrumChoice { ink: 10, paper: 8, bright: true });
    Conversion {
        machine_id: "sinclair-zx-spectrum".to_owned(),
        mode_name: "standard".to_owned(),
        width: 256,
        height: 192,
        pixels,
        palette: vec![rgb(0, 0, 0); 16],
        cells,
        background: None,
        n_planes: None,
    }
}

#[test]
fn scr_bridge_packs_attributes_and_round_trips() {
    let conv = spectrum_conversion();
    assert!(conv.bridge_ready_check());
    let screen = conv.to_scr().expect("bridge succeeds");
    let attr = screen.attributes[0];
    assert_eq!(attr & 0x80, 0, "FLASH must be 0");
    assert_eq!(attr & 0x40, 0x40, "BRIGHT must be set");
    assert_eq!(attr & 7, 2, "ink red");
    assert_eq!((attr >> 3) & 7, 0, "paper black");
    assert_eq!(screen.bitmap[0], 0b1010_1010);
    assert_eq!(screen.bitmap[32], 0b0101_0101);
    assert_eq!(screen.bitmap[1], 0);

    let bytes = encode_native(&conv, Format::Scr).expect("encodes");
    assert_eq!(bytes.len(), 6912);
    let decoded = format198x_sinclair_zx_spectrum_scr::decode(&bytes).expect("decodes");
    assert_eq!(decoded.bitmap, screen.bitmap);
    assert_eq!(decoded.attributes, screen.attributes);
    // The second pixel row of the screen sits 256 bytes on in the file.
    assert_eq!(bytes[256], 0b0101_0101);

    match conv.to_koala() {
        Err(ConvertError::WrongTarget { bridge, expected, actual }) => {
            assert_eq!(bridge, "to_koala");
            assert_eq!(expected, "commodore-c64");
            assert_eq!(actual, "sinclair-zx-spectrum standard");
        }
        _ => panic!("wrong-target guard"),
    }
}

#[test]
fn scr_bridge_refuses_a_pixel_outside_its_cell() {
    let mut conv = spectrum_conversion();
    conv.pixels[256 * 8 + 3] = 5;
    match conv.to_scr() {
        Err(ConvertError::Internal { what }) => assert_eq!(what, "pixel outside its Spectrum cell colours"),
        _ => panic!("internal error expected"),
    }
    let mut conv = spectrum_conversion();
    conv.cells[2] = CellChoice::Hires(HiresChoice { fg: 1, bg: 0 });
    match conv.to_scr() {
        Err(ConvertError::Internal { what }) => {
            assert_eq!(what, "non-Spectrum cell choice in a Spectrum conversion")
        }
        _ => panic!("internal error expected"),
    }
    assert!(encode_native(&conv, Format::Scr).is_err());
}

fn hires_conversion() -> Conversion {
    let mut pixels = vec![0u8; 320 * 200];
    let mut cells = Vec::new();
    for cell in 0..1000usize {
        let a = (cell % 15) as u8 + 1;
        cells.push(CellChoice::Hires(HiresChoice { fg: a, bg: 0 }));
    }
    for y in 0..200usize {
        for x in 0..320usize {
            let cell = (y / 8) * 40 + x / 8;
            if (x / 2 + y / 2) % 2 == 0 {
                pixels[y * 320 + x] = (cell % 15) as u8 + 1;
            }
        }
    }
    Conversion {
        machine_id: "commodore-c64".to_owned(),
        mode_name: "hires-bitmap".to_owned(),
        width: 320,
        height: 200,
        pixels,
        palette: vec![rgb(0, 0, 0); 16],
        cells,
        background: None,
        n_planes: None,
    }
}

#[test]
fn art_studio_bridge_agrees_with_indexed_pixels() {
    let conv = hires_conversion();
    let art = conv.to_art_studio().expect("bridge succeeds");
    let codec = format198x_commodore_c64_art_studio::ArtStudio { bitmap: art.bitmap.clone(), screen_ram: art.screen_ram.clone() };
    for y in 0..200usize {
        for x in 0..320usize {
            assert_eq!(codec.color_index(x, y), Some(conv.pixels[y * 320 + x]), "({x}, {y})");
        }
    }
    let bytes = encode_native(&conv, Format::ArtStudio).expect("encodes");
    assert_eq!(bytes.len(), 9009);
    assert_eq!(&bytes[..2], &[0x00, 0x20]);
    assert_eq!(&bytes[2..8002], art.bitmap.as_slice());
    assert_eq!(&bytes[8002..9002], art.screen_ram.as_slice());
    assert!(bytes[9002..].iter().all(|&b| b == 0));
}

fn multi_conversion() -> Conversion {
    let mut pixels = vec![6u8; 160 * 200];
    let mut cells = Vec::new();
    for cell in 0..1000usize {
        let a = (cell % 15) as u8 + 1;
        let b = ((cell + 7) % 15) as u8 + 1;
        cells.push(CellChoice::Multi(MultiChoice { colours: [6, a, b, 0] }));
    }
    for y in 0..200usize {
        for x in 0..160usize {
            let cell = (y / 8) * 40 + x / 4;
            pixels[y * 160 + x] = match (x + y) % 4 {
                0 => (cell % 15) as u8 + 1,
                1 => ((cell + 7) % 15) as u8 + 1,
                _ => 6,
            };
        }
    }
    Conversion {
        machine_id: "commodore-c64".to_owned(),
        mode_name: "multicolour-bitmap".to_owned(),
        width: 160,
        height: 200,
        pixels,
        palette: vec![rgb(0, 0, 0); 16],
        cells,
        background: Some(6),
        n_planes: None,
    }
}

#[test]
fn koala_bridge_agrees_with_indexed_pixels_and_background() {
    let conv = multi_conversion();
    let k = conv.to_koala().expect("bridge succeeds");
    assert_eq!(k.background, 6);
    let codec = format198x_commodore_c64_koala::Koala {
        bitmap: k.bitmap.clone(),
        screen_ram: k.screen_ram.clone(),
        color_ram: k.color_ram.clone(),
        background: k.background,
    };
    for y in 0..200usize {
        for x in 0..160usize {
            assert_eq!(codec.color_index(x, y), Some(conv.pixels[y * 160 + x]), "({x}, {y})");
        }
    }
    let bytes = encode_native(&conv, Format::Koala).expect("encodes");
    assert_eq!(bytes.len(), 10003);
    assert_eq!(&bytes[..2], &[0x00, 0x60]);
    assert_eq!(bytes[10002], 6);
}

#[test]
fn koala_bridge_needs_a_background() {
    let mut conv = multi_conversion();
    conv.background = None;
    match conv.to_koala() {
        Err(ConvertError::Internal { what }) => assert_eq!(what, "multicolour conversion without a background"),
        _ => panic!("internal error expected"),
    }
}

fn amiga_conversion(mode: &str, width: u32, height: u32) -> Conversion {
    let pixels: Vec<u8> = (0..width * height).map(|i| (i % 4) as u8).collect();
    Conversion {
        machine_id: "commodore-amiga-ocs".to_owned(),
        mode_name: mode.to_owned(),
        width,
        height,
        pixels,
        palette: vec![rgb(0, 0, 0), rgb(255, 255, 255), rgb(136, 17, 34), rgb(17, 34, 51)],
        cells: Vec::new(),
        background: None,
        n_planes: Some(2),
    }
}

#[test]
fn hires_mode_sets_the_camg_hires_bit() {
    let conv = amiga_conversion("hires-ntsc", 64, 64);
    let ilbm = conv.to_ilbm().expect("bridge succeeds");
    assert_eq!(ilbm.camg & 0x8000, 0x8000);
    assert_eq!((ilbm.x_aspect, ilbm.y_aspect), (5, 11));
    let lores = amiga_conversion("lores-pal", 64, 64).to_ilbm().expect("bridge succeeds");
    assert_eq!(lores.camg, 0, "lores carries no HIRES bit");
    assert_eq!((lores.x_aspect, lores.y_aspect), (10, 11));
}

#[test]
fn planar_bridge_round_trips_through_ilbm() {
    let conv = amiga_conversion("lores-pal", 320, 200);
    let ilbm = conv.to_ilbm().expect("bridge succeeds");
    assert_eq!((ilbm.width, ilbm.height, ilbm.n_planes), (320, 200, 2));
    assert_eq!(ilbm.palette[2], [136, 17, 34]);
    let bytes = encode_native(&conv, Format::Ilbm).expect("encodes");
    let decoded = format198x_commodore_amiga_ilbm::decode(&bytes).expect("decodes");
    assert_eq!(decoded.pixels, conv.pixels);
    assert_eq!(decoded.palette, ilbm.palette);
}

#[test]
fn ilbm_refuses_pixels_beyond_the_planes() {
    let mut conv = amiga_conversion("lores-pal", 16, 16);
    conv.pixels[5] = 9;
    assert!(encode_native(&conv, Format::Ilbm).is_err());
    conv.n_planes = None;
    match conv.to_ilbm() {
        Err(ConvertError::Internal { what }) => assert_eq!(what, "planar conversion without a plane count"),
        _ => panic!("internal error expected"),
    }
    let spectrum = spectrum_conversion();
    match spectrum.to_ilbm() {
        Err(e) => assert_eq!(
            e.describe(),
            "to_ilbm requires a commodore-amiga-ocs planar conversion, got sinclair-zx-spectrum standard"
        ),
        Ok(_) => panic!("wrong-target guard"),
    }
}

fn decode_png(bytes: &[u8]) -> image::RgbImage {
    image::load_from_memory_with_format(bytes, image::ImageFormat::Png).expect("a PNG").to_rgb8()
}

#[test]
fn koala_preview_carries_exact_palette_srgb_duplicated_2x_horizontally() {
    let mut conv = multi_conversion();
    conv.palette = (0..16u8).map(|i| rgb(i * 16, 255 - i * 16, i)).collect();
    let png = build198x::cli::preview::render_preview_png(&conv).expect("renders");
    let img = decode_png(&png);
    assert_eq!((img.width(), img.height()), (320, 200));
    for (x, y) in [(0u32, 0u32), (1, 0), (5, 3), (159, 199)] {
        let c = conv.palette[usize::from(conv.pixels[(y * 160 + x) as usize])];
        for dx in 0..2 {
            assert_eq!(img.get_pixel(2 * x + dx, y).0, [c.r, c.g, c.b]);
        }
    }
}

#[test]
fn ilbm_hires_preview_carries_exact_srgb_duplicated_2x_vertically() {
    let conv = amiga_conversion("hires-pal", 640, 256);
    let png = build198x::cli::preview::render_preview_png(&conv).expect("renders");
    let img = decode_png(&png);
    assert_eq!((img.width(), img.height()), (640, 512));
    for (x, y) in [(0u32, 0u32), (1, 0), (2, 7), (639, 255)] {
        let c = conv.palette[usize::from(conv.pixels[(y * 640 + x) as usize])];
        for dy in 0..2 {
            assert_eq!(img.get_pixel(x, 2 * y + dy).0, [c.r, c.g, c.b]);
        }
    }
}

#[test]
fn preview_of_an_unknown_mode_is_an_error() {
    let mut conv = amiga_conversion("lores-pal", 4, 4);
    conv.mode_name = "superhires".to_owned();
    assert_eq!(
        build198x::cli::preview::render_preview_png(&conv).unwrap_err(),
        "cannot render preview: unknown machine/mode `commodore-amiga-ocs`/`superhires`"
    );
}

#[test]
fn background_histogram_picks_most_frequent_colour_lowest_on_ties() {
    assert_eq!(most_frequent(&[3, 1, 3, 2, 3, 1], 16), 3);
    assert_eq!(most_frequent(&[5, 2, 5, 2], 16), 2);
    assert_eq!(most_frequent(&[], 16), 0);
    assert_eq!(most_frequent(&[15], 16), 15);
}

#[test]
fn generated_palettes_are_sorted_and_distinct() {
    let v = [rgb(17, 0, 0), rgb(0, 34, 0), rgb(17, 0, 0), rgb(0, 0, 255), rgb(0, 34, 0)];
    assert_eq!(sorted_distinct_colours(&v), vec![rgb(0, 0, 255), rgb(0, 34, 0), rgb(17, 0, 0)]);
    assert!(sorted_distinct_colours(&[]).is_empty());
}

#[test]
fn letterbox_places_the_image_centred_on_the_matte() {
    let scaled = [1u8, 2, 3, 4, 5, 6];
    let out = place_on_paper(&scaled, 3, 2, 1, 1, 5, 4, 0u8);
    assert_eq!(
        out,
        vec![
            0, 0, 0, 0, 0, //
            0, 1, 2, 3, 0, //
            0, 4, 5, 6, 0, //
            0, 0, 0, 0, 0,
        ]
    );
    assert_eq!(place_on_paper(&scaled, 3, 2, 0, 0, 3, 2, 9u8), scaled.to_vec());
}

#[test]
fn a_cell_is_read_row_by_row() {
    let grid: Vec<u32> = (0..24).collect(); // 6 wide, 4 high
    assert_eq!(cell_pixels(&grid, 6, 2, 2, 1, 1), vec![14, 15, 20, 21]);
    assert_eq!(cell_pixels(&grid, 6, 3, 4, 0, 0), vec![0, 1, 2, 6, 7, 8, 12, 13, 14, 18, 19, 20]);
}

const BAYER4: [[u8; 4]; 4] = [[0, 8, 2, 10], [12, 4, 14, 6], [3, 11, 1, 9], [15, 7, 13, 5]];
const BAYER8: [[u8; 8]; 8] = [
    [0, 32, 8, 40, 2, 34, 10, 42],
    [48, 16, 56, 24, 50, 18, 58, 26],
    [12, 44, 4, 36, 14, 46, 6, 38],
    [60, 28, 52, 20, 62, 30, 54, 22],
    [3, 35, 11, 43, 1, 33, 9, 41],
    [51, 19, 59, 27, 49, 17, 57, 25],
    [15, 47, 7, 39, 13, 45, 5, 37],
    [63, 31, 55, 23, 61, 29, 53, 21],
];

#[test]
fn bayer_levels_are_the_classic_matrices_tiled() {
    for y in 0..16usize {
        for x in 0..16usize {
            assert_eq!(bayer_level(DitherMode::Bayer4, x, y), BAYER4[y % 4][x % 4]);
            assert_eq!(bayer_level(DitherMode::Bayer8, x, y), BAYER8[y % 8][x % 8]);
            assert_eq!(bayer_level(DitherMode::FloydSteinberg, x, y), BAYER8[y % 8][x % 8]);
        }
    }
}

#[test]
fn bayer_matrices_are_permutations() {
    let mut four: Vec<u8> = (0..16).map(|i| bayer_level(DitherMode::Bayer4, i % 4, i / 4)).collect();
    four.sort_unstable();
    assert_eq!(four, (0..16).collect::<Vec<u8>>());
    let mut eight: Vec<u8> = (0..64).map(|i| bayer_level(DitherMode::Bayer8, i % 8, i / 8)).collect();
    eight.sort_unstable();
    assert_eq!(eight, (0..64).collect::<Vec<u8>>());
}

#[test]
fn box_taps_cover_each_span_with_integer_weights() {
    // 3 source pixels to 2: each destination pixel spans 3 units of 1/2.
    assert_eq!(box_taps(0, 3, 2), vec![(0, 2), (1, 1)]);
    assert_eq!(box_taps(1, 3, 2), vec![(1, 1), (2, 2)]);
    // Upscaling 2 to 5: the middle destination pixel straddles both.
    assert_eq!(box_taps(2, 2, 5), vec![(0, 1), (1, 1)]);
    assert_eq!(box_taps(4, 2, 5), vec![(1, 2)]);
    // Same size: one tap each, carrying the whole span.
    assert_eq!(box_taps(7, 10, 10), vec![(7, 10)]);
    for (src, dst) in [(7u32, 3u32), (3, 7), (256, 192), (640, 320)] {
        for j in 0..dst {
            let taps = box_taps(j, src, dst);
            assert_eq!(taps.iter().map(|t| t.1).sum::<u64>(), u64::from(src));
        }
    }
}
