//! Image assembly and PNG serialization.
//!
//! The face strip is a `size` by `6 * size` RGBA image, the six faces
//! stacked top to bottom. The cross (net) image unfolds the cube into a
//! `4 * size` by `3 * size` grid of cells, each shown face blitted
//! verbatim and every other cell left fully zero.

use crate::faces::cell_face_spec;
use crate::faces::cell_face;
use vstd::prelude::*;

verus! {

/// One byte of the cross image: channel `ch` of pixel `(px, py)`. A pixel
/// inside a cell that shows a face reads the matching strip byte; any
/// other pixel is zero on every channel.
pub open spec fn net_byte(strip: Seq<u8>, size: int, px: int, py: int, ch: int) -> u8 {
    match cell_face_spec(px / size, py / size) {
        Some(f) => strip[(((f * size + py % size) * size) + px % size) * 4 + ch],
        None => 0u8,
    }
}

/// The whole cross image, row-major RGBA, `4 * size` pixels wide and
/// `3 * size` tall.
pub open spec fn net_image(strip: Seq<u8>, size: int) -> Seq<u8> {
    Seq::new(
        (48 * size * size) as nat,
        |i: int|
            net_byte(strip, size, (i / 4) % (4 * size), (i / 4) / (4 * size), i % 4),
    )
}

/// Distinct pixel coordinates occupy distinct offsets of a row-major
/// image `w` pixels wide with four bytes per pixel.
proof fn lemma_flat_index_inj(
    w: int,
    qx: int,
    qy: int,
    qc: int,
    px: int,
    py: int,
    ch: int,
)
    requires
        0 < w,
        0 <= qx < w,
        0 <= px < w,
        0 <= qc < 4,
        0 <= ch < 4,
        0 <= qy,
        0 <= py,
        (qy * w + qx) * 4 + qc == (py * w + px) * 4 + ch,
    ensures
        qx == px && qy == py && qc == ch,
{
    assert(qc == ch && qy * w + qx == py * w + px) by (nonlinear_arith)
        requires
            0 <= qc < 4,
            0 <= ch < 4,
            (qy * w + qx) * 4 + qc == (py * w + px) * 4 + ch,
    ;
    assert(qx == px && qy == py) by (nonlinear_arith)
        requires
            0 < w,
            0 <= qx < w,
            0 <= px < w,
            qy * w + qx == py * w + px,
    ;
}

/// Compose the cross image from the face strip: each face's tile copied
/// verbatim into its cell of the 4-by-3 grid, all remaining pixels zero.
pub fn compose_net(strip: &Vec<u8>, size: usize) -> (net: Vec<u8>)
    requires
        size > 0,
        strip@.len() == 24 * size * size,
        48 * size * size <= usize::MAX,
    ensures
        net@.len() == 48 * size * size,
        net@ == net_image(strip@, size as int),
        forall|px: int, py: int, ch: int|
            0 <= px < 4 * size && 0 <= py < 3 * size && 0 <= ch < 4 ==> net@[(py * (4 * size)
                + px) * 4 + ch] == net_byte(strip@, size as int, px, py, ch),
{
    proof {
        assert(4 * size <= 48 * size * size && 3 * size <= 48 * size * size)
            by (nonlinear_arith)
            requires
                size > 0,
        ;
    }
    let w = 4 * size;
    let h = 3 * size;
    let mut net: Vec<u8> = Vec::new();
    let mut py: usize = 0;
    while py < h
        invariant
            size > 0,
            w == 4 * size,
            h == 3 * size,
            strip@.len() == 24 * size * size,
            48 * size * size <= usize::MAX,
            py <= h,
            net@.len() == py * w * 4,
            forall|qx: int, qy: int, qc: int|
                0 <= qx < w && 0 <= qy < 3 * size && 0 <= qc < 4 && (qy * w + qx) * 4 + qc
                    < net@.len() ==> net@[(qy * w + qx) * 4 + qc] == net_byte(
                    strip@,
                    size as int,
                    qx,
                    qy,
                    qc,
                ),
        decreases h - py,
    {
        let mut px: usize = 0;
        proof {
            assert(py * w * 4 == (py * w + 0) * 4);
        }
        while px < w
            invariant
                size > 0,
                w == 4 * size,
                h == 3 * size,
                strip@.len() == 24 * size * size,
                48 * size * size <= usize::MAX,
                py < h,
                px <= w,
                net@.len() == (py * w + px) * 4,
                forall|qx: int, qy: int, qc: int|
                    0 <= qx < w && 0 <= qy < 3 * size && 0 <= qc < 4 && (qy * w + qx) * 4 + qc
                        < net@.len() ==> net@[(qy * w + qx) * 4 + qc] == net_byte(
                        strip@,
                        size as int,
                        qx,
                        qy,
                        qc,
                    ),
            decreases w - px,
        {
            proof {
                assert((py * w + px) * 4 + 4 <= (py * w + w) * 4 && (py * w + w) * 4 == ((py + 1)
                    * w) * 4 && (py + 1) * w * 4 <= h * w * 4 && h * w * 4 == 48 * size * size)
                    by (nonlinear_arith)
                    requires
                        w == 4 * size,
                        h == 3 * size,
                        py < h,
                        px < w,
                        size > 0,
                ;
            }
            let cx = px / size;
            let cy = py / size;
            let cell = cell_face(cx, cy);
            let rx = px % size;
            let ry = py % size;
            let mut ch: usize = 0;
            while ch < 4
                invariant
                    size > 0,
                    w == 4 * size,
                    h == 3 * size,
                    strip@.len() == 24 * size * size,
                    48 * size * size <= usize::MAX,
                    py < h,
                    px < w,
                    ch <= 4,
                    (py * w + px) * 4 + 4 <= 48 * size * size,
                    cx == px as int / size as int,
                    cy == py as int / size as int,
                    rx == px as int % size as int,
                    ry == py as int % size as int,
                    cell is Some <==> cell_face_spec(cx as int, cy as int) is Some,
                    cell is Some ==> cell->Some_0 == cell_face_spec(cx as int, cy as int)->Some_0
                        && cell->Some_0 < 6,
                    net@.len() == (py * w + px) * 4 + ch,
                    forall|qx: int, qy: int, qc: int|
                        0 <= qx < w && 0 <= qy < 3 * size && 0 <= qc < 4 && (qy * w + qx) * 4 + qc
                            < net@.len() ==> net@[(qy * w + qx) * 4 + qc] == net_byte(
                            strip@,
                            size as int,
                            qx,
                            qy,
                            qc,
                        ),
                decreases 4 - ch,
            {
                let v: u8 = match cell {
                    Some(f) => {
                        proof {
                            assert(f * size <= 48 * size * size && f * size + ry <= 48 * size
                                * size && (f * size + ry) * size <= 48 * size * size && (f * size
                                + ry) * size + rx <= 48 * size * size && ((f * size + ry) * size
                                + rx) * 4 <= 48 * size * size && ((f * size + ry) * size + rx) * 4
                                + ch < 24 * size * size && 24 * size * size <= 48 * size * size)
                                by (nonlinear_arith)
                                requires
                                    f < 6,
                                    size > 0,
                                    ry < size,
                                    rx < size,
                                    ch < 4,
                                    0 <= f,
                                    0 <= ry,
                                    0 <= rx,
                                    0 <= ch,
                            ;
                        }
                        strip[((f * size + ry) * size + rx) * 4 + ch]
                    },
                    None => 0u8,
                };
                let ghost oldnet = net@;
                net.push(v);
                proof {
                    let n = (py as int * w + px) * 4 + ch;
                    assert forall|qx: int, qy: int, qc: int|
                        0 <= qx < w && 0 <= qy < 3 * size && 0 <= qc < 4 && (qy * w + qx) * 4 + qc
                            < net@.len() implies net@[(qy * w + qx) * 4 + qc] == net_byte(
                        strip@,
                        size as int,
                        qx,
                        qy,
                        qc,
                    ) by {
                        let idx = (qy * w + qx) * 4 + qc;
                        if idx < n {
                            assert(net@[idx] == oldnet[idx]);
                        } else {
                            lemma_flat_index_inj(
                                w as int,
                                qx,
                                qy,
                                qc,
                                px as int,
                                py as int,
                                ch as int,
                            );
                            assert(net@[idx] == v);
                        }
                    }
                }
                ch = ch + 1;
            }
            px = px + 1;
            proof {
                assert((py * w + (px - 1)) * 4 + 4 == (py * w + px) * 4) by (nonlinear_arith)
                    requires
                        px >= 1,
                ;
            }
        }
        py = py + 1;
        proof {
            assert((py - 1) * w * 4 + w * 4 == py * w * 4 && ((py - 1) * w + w) * 4 == (py - 1) * w
                * 4 + w * 4) by (nonlinear_arith);
        }
    }
    proof {
        assert(net@.len() == 48 * size * size && h * w * 4 == 48 * size * size)
            by (nonlinear_arith)
            requires
                net@.len() == h * w * 4,
                w == 4 * size,
                h == 3 * size,
        ;
        assert forall|i: int| 0 <= i < 48 * size * size implies net@[i] == net_image(
            strip@,
            size as int,
        )[i] by {
            let wd = 4 * size as int;
            let ch = i % 4;
            let r = i / 4;
            let qx = r % wd;
            let qy = r / wd;
            assert(0 <= ch < 4 && r * 4 + ch == i && 0 <= qx < wd && qy * wd + qx == r && 0 <= qy
                < 3 * size) by (nonlinear_arith)
                requires
                    0 <= i < 48 * size * size,
                    size > 0,
                    wd == 4 * size,
                    ch == i % 4,
                    r == i / 4,
                    qx == r % wd,
                    qy == r / wd,
            ;
            assert(net@[(qy * wd + qx) * 4 + ch] == net_byte(strip@, size as int, qx, qy, ch));
        }
        assert(net@ =~= net_image(strip@, size as int));
        assert forall|px: int, py: int, ch: int|
            0 <= px < 4 * size && 0 <= py < 3 * size && 0 <= ch < 4 implies net@[(py * (4 * size)
            + px) * 4 + ch] == net_byte(strip@, size as int, px, py, ch) by {
            assert(0 <= (py * (4 * size) + px) * 4 + ch < 48 * size * size)
                by (nonlinear_arith)
                requires
                    0 <= px < 4 * size,
                    0 <= py < 3 * size,
                    0 <= ch < 4,
                    size > 0,
            ;
            assert(net@[(py * (w as int) + px) * 4 + ch] == net_byte(
                strip@,
                size as int,
                px,
                py,
                ch,
            ));
        }
    }
    net
}

/// What the PNG encoder yields for a row-major RGBA image: a function of
/// the pixel bytes and the dimensions alone.
pub uninterp spec fn png_of(pixels: Seq<u8>, width: u32, height: u32) -> Seq<u8>;

/// Relies on the image crate's PNG encoder, fixed to best compression and
/// adaptive filtering, writing into an in-memory buffer: the encoded
/// stream is a function of the pixel bytes and dimensions alone.
#[verifier::external_body]
fn png_bytes(pixels: &Vec<u8>, width: u32, height: u32) -> (r: Vec<u8>)
    requires
        pixels@.len() == 4 * width * height,
        width > 0,
        height > 0,
    ensures
        r@ == png_of(pixels@, width, height),
{
    let mut out: Vec<u8> = Vec::new();
    let encoder = image::codecs::png::PngEncoder::new_with_quality(
        &mut out,
        image::codecs::png::CompressionType::Best,
        image::codecs::png::FilterType::Adaptive,
    );
    image::ImageEncoder::write_image(
        encoder,
        pixels,
        width,
        height,
        image::ExtendedColorType::Rgba8,
    ).expect("png encoding failed");
    out
}

/// Serialize the tone-mapped face strip, a `size` by `6 * size` RGBA
/// image, as a PNG stream.
pub fn strip_png(strip: &Vec<u8>, size: u32) -> (r: Vec<u8>)
    requires
        size > 0,
        size * 6 <= u32::MAX,
        strip@.len() == 24 * size * size,
    ensures
        r@ == png_of(strip@, size, (6 * size) as u32),
{
    let height = 6 * size;
    proof {
        assert(4 * size * (6 * size) == 24 * size * size) by (nonlinear_arith);
    }
    png_bytes(strip, size, height)
}

/// Compose the cross image from the face strip and serialize it as a PNG
/// stream, `4 * size` pixels wide and `3 * size` tall.
pub fn net_png(strip: &Vec<u8>, size: usize) -> (r: Vec<u8>)
    requires
        size > 0,
        4 * size <= u32::MAX,
        strip@.len() == 24 * size * size,
        48 * size * size <= usize::MAX,
    ensures
        r@ == png_of(net_image(strip@, size as int), (4 * size) as u32, (3 * size) as u32),
{
    let net = compose_net(strip, size);
    let width = (4 * size) as u32;
    let height = (3 * size) as u32;
    proof {
        assert(net@.len() == 4 * (width as int) * (height as int)) by (nonlinear_arith)
            requires
                net@.len() == 48 * size * size,
                width == 4 * size,
                height == 3 * size,
        ;
    }
    png_bytes(&net, width, height)
}

} // verus!
