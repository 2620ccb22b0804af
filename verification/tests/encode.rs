use skyrender::hdr::hdr_payload;
use skyrender::images::{compose_net, net_png, strip_png};

/// A one-texel-per-face strip: face `f` is the RGBA pixel
/// `(10 * f, 10 * f + 1, 10 * f + 2, 10 * f + 3)`.
fn tiny_strip() -> Vec<u8> {
    let mut strip = Vec::new();
    for f in 0u8..6 {
        strip.extend_from_slice(&[10 * f, 10 * f + 1, 10 * f + 2, 10 * f + 3]);
    }
    strip
}

#[test]
fn cross_places_each_face_and_zeroes_the_rest() {
    let net = compose_net(&tiny_strip(), 1);
    assert_eq!(net.len(), 48);
    // (cell column, cell row) -> face, per the cross unfolding.
    let cells = [(2usize, 1usize, 0u8), (0, 1, 1), (1, 0, 2), (1, 2, 3), (1, 1, 4), (3, 1, 5)];
    let mut expected = vec![0u8; 48];
    for (cx, cy, f) in cells {
        let base = (cy * 4 + cx) * 4;
        expected[base..base + 4]
            .copy_from_slice(&[10 * f, 10 * f + 1, 10 * f + 2, 10 * f + 3]);
    }
    assert_eq!(net, expected);
}

#[test]
fn cross_blits_tiles_verbatim_at_higher_resolution() {
    let size = 2usize;
    let mut strip = Vec::new();
    for i in 0..(size * size * 6) {
        let v = (i * 7 % 251) as u8;
        strip.extend_from_slice(&[v, v.wrapping_add(1), v.wrapping_add(2), 255]);
    }
    let net = compose_net(&strip, size);
    assert_eq!(net.len(), 48 * size * size);
    // Face 2 sits at cell (1, 0): its texel (x, y) must match the strip.
    for y in 0..size {
        for x in 0..size {
            let src = ((2 * size + y) * size + x) * 4;
            let dst = ((0 * size + y) * (4 * size) + size + x) * 4;
            assert_eq!(&net[dst..dst + 4], &strip[src..src + 4]);
        }
    }
    // Cell (0, 0) shows no face and stays zero.
    for y in 0..size {
        for x in 0..size {
            let dst = (y * (4 * size) + x) * 4;
            assert_eq!(&net[dst..dst + 4], &[0u8, 0, 0, 0]);
        }
    }
}

#[test]
fn strip_png_encodes_the_pixels() {
    let strip = tiny_strip();
    let png = strip_png(&strip, 1);
    assert_eq!(&png[..8], &[0x89, b'P', b'N', b'G', b'\r', b'\n', 0x1A, b'\n']);
    assert_ne!(png, strip);
    let back = image::load_from_memory(&png).expect("valid png").to_rgba8();
    assert_eq!((back.width(), back.height()), (1, 6));
    assert_eq!(back.as_raw().as_slice(), strip.as_slice());
}

#[test]
fn net_png_encodes_the_cross_image() {
    let strip = tiny_strip();
    let expected = compose_net(&strip, 1);
    let png = net_png(&strip, 1);
    assert_eq!(&png[..8], &[0x89, b'P', b'N', b'G', b'\r', b'\n', 0x1A, b'\n']);
    let back = image::load_from_memory(&png).expect("valid png").to_rgba8();
    assert_eq!((back.width(), back.height()), (4, 3));
    assert_eq!(back.as_raw().as_slice(), expected.as_slice());
}

#[test]
fn hdr_payload_is_little_endian_words() {
    let words = vec![0x11223344u32, 0xAABBCCDD];
    let bytes = hdr_payload(&words);
    assert_eq!(bytes, vec![0x44, 0x33, 0x22, 0x11, 0xDD, 0xCC, 0xBB, 0xAA]);
}

#[test]
fn hdr_payload_of_empty_cubemap_is_empty() {
    assert!(hdr_payload(&Vec::new()).is_empty());
}
