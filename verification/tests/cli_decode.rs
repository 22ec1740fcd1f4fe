//! Reading an input for the `image` command: the header probe's pixel
//! cap, decode failures and the input warnings.

use build198x::cli::decode::{decode_input, frames_show_animation, gif_is_animated};
use std::io::Cursor;

fn crc32(bytes: &[u8]) -> u32 {
    let mut crc = 0xffff_ffffu32;
    for &b in bytes {
        crc ^= u32::from(b);
        for _ in 0..8 {
            crc = if crc & 1 != 0 { (crc >> 1) ^ 0xedb8_8320 } else { crc >> 1 };
        }
    }
    !crc
}

fn chunk(out: &mut Vec<u8>, kind: &[u8; 4], data: &[u8]) {
    out.extend_from_slice(&(data.len() as u32).to_be_bytes());
    let mut body = kind.to_vec();
    body.extend_from_slice(data);
    out.extend_from_slice(&body);
    out.extend_from_slice(&crc32(&body).to_be_bytes());
}

/// A PNG whose header declares `w`×`h` 8-bit greyscale, with no pixel data.
fn png_header_only(w: u32, h: u32) -> Vec<u8> {
    let mut out = vec![0x89, 0x50, 0x4e, 0x47, 0x0d, 0x0a, 0x1a, 0x0a];
    let mut ihdr = Vec::new();
    ihdr.extend_from_slice(&w.to_be_bytes());
    ihdr.extend_from_slice(&h.to_be_bytes());
    ihdr.extend_from_slice(&[8, 0, 0, 0, 0]);
    chunk(&mut out, b"IHDR", &ihdr);
    chunk(&mut out, b"IDAT", &[]);
    chunk(&mut out, b"IEND", &[]);
    out
}

fn tiny_png() -> Vec<u8> {
    let img = image::RgbImage::from_pixel(2, 2, image::Rgb([10, 20, 30]));
    let mut buf = Vec::new();
    img.write_to(&mut Cursor::new(&mut buf), image::ImageFormat::Png).expect("encode");
    buf
}

#[test]
fn over_pixel_cap_input_is_rejected_from_the_header_before_decode() {
    let bytes = png_header_only(8100, 8100);
    match decode_input("huge.png", &bytes) {
        Err(m) => assert_eq!(
            m,
            "cannot decode huge.png: 8100x8100 is 65610000 pixels, above the 64000000 pixel cap"
        ),
        Ok(_) => panic!("expected the pixel cap"),
    }
}

#[test]
fn zero_byte_input_is_a_decode_failure() {
    match decode_input("empty.png", &[]) {
        Err(m) => assert!(m.starts_with("cannot decode empty.png: "), "{m}"),
        Ok(_) => panic!("expected a decode failure"),
    }
}

#[test]
fn png_input_decodes_without_warnings() {
    let (img, warnings) = decode_input("in.png", &tiny_png()).expect("decode");
    assert_eq!((img.width(), img.height()), (2, 2));
    assert!(warnings.is_empty());
}

#[test]
fn non_png_input_is_warned_about() {
    let img = image::RgbImage::from_pixel(2, 2, image::Rgb([10, 20, 30]));
    let mut buf = Vec::new();
    img.write_to(&mut Cursor::new(&mut buf), image::ImageFormat::Bmp).expect("encode");
    let (_, warnings) = decode_input("in.bmp", &buf).expect("decode");
    assert_eq!(
        warnings,
        vec!["non-PNG input: byte-identical output is not guaranteed (determinism contract covers PNG)".to_owned()]
    );
}

#[test]
fn a_png_is_not_an_animated_gif() {
    assert!(!gif_is_animated(&tiny_png()));
    assert!(!gif_is_animated(b"GIF8"));
}

fn gif_of(frames: usize) -> Vec<u8> {
    let mut buf = Vec::new();
    {
        let mut enc = image::codecs::gif::GifEncoder::new(&mut buf);
        let all: Vec<image::Frame> = (0..frames)
            .map(|k| image::Frame::new(image::RgbaImage::from_pixel(2, 2, image::Rgba([k as u8 * 100, 0, 0, 255]))))
            .collect();
        enc.encode_frames(all).unwrap();
    }
    buf
}

#[test]
fn a_two_frame_gif_is_animated_and_a_one_frame_gif_is_not() {
    assert!(gif_is_animated(&gif_of(2)));
    assert!(gif_is_animated(&gif_of(3)));
    assert!(!gif_is_animated(&gif_of(1)));
}

#[test]
fn animation_needs_two_decoded_frames() {
    assert!(frames_show_animation(&[true, true]));
    assert!(!frames_show_animation(&[true, false]));
    assert!(!frames_show_animation(&[false, true]));
    assert!(!frames_show_animation(&[true]));
    assert!(!frames_show_animation(&[]));
}
