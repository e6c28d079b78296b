use vstd::prelude::*;

use crate::color::ColorRGB;
use vstd::arithmetic::div_mod::lemma_fundamental_div_mod;

verus! {

/// Alpha of every pixel: fully opaque.
pub const OPAQUE: u8 = 255;

/// The colour whose R, G, B bytes start at byte `4 * p`.
pub open spec fn pixel_at(bytes: Seq<u8>, p: int) -> ColorRGB {
    ColorRGB { r: bytes[4 * p], g: bytes[4 * p + 1], b: bytes[4 * p + 2] }
}

/// `bytes` is a row-major RGBA8888 image of `width` × `height` pixels in which
/// pixel (row `i`, column `j`) is the `4 * (i * width + j)`-th quad, holds a
/// colour that `shade` may return for `(i, j)`, and every alpha byte is opaque.
pub open spec fn is_rendering<F: Fn(u32, u32) -> ColorRGB>(
    width: u32,
    height: u32,
    shade: F,
    bytes: Seq<u8>,
) -> bool {
    &&& bytes.len() == width as int * height as int * 4
    &&& forall|i: u32, j: u32|
        i < height && j < width ==> #[trigger] shade.ensures((i, j), pixel_at(bytes, i * width + j))
    &&& forall|k: int| 0 <= k < bytes.len() && k % 4 == 3 ==> bytes[k] == OPAQUE
}

/// A shading function that gives each pixel exactly one colour.
pub open spec fn is_deterministic<F: Fn(u32, u32) -> ColorRGB>(shade: F) -> bool {
    forall|i: u32, j: u32, c1: ColorRGB, c2: ColorRGB|
        #[trigger] shade.ensures((i, j), c1) && #[trigger] shade.ensures((i, j), c2) ==> c1 == c2
}

proof fn lemma_row_major_offset(a: int, b: int, i: int, j: int, width: int)
    requires
        0 <= a,
        0 <= b < width,
        0 <= j,
        a < i || (a == i && b < j),
    ensures
        a * width + b < i * width + j,
{
    if a < i {
        assert(a * width + width <= i * width) by (nonlinear_arith)
            requires a < i, 0 < width;
    }
}

/// Renders a `width` × `height` grid: visits the rows top to bottom and each row
/// left to right, asks `shade` for the colour of each pixel, and appends its R,
/// G, B and an opaque alpha byte.
pub fn render_with<F: Fn(u32, u32) -> ColorRGB>(width: u32, height: u32, shade: F) -> (data: Vec<u8>)
    requires
        forall|i: u32, j: u32| i < height && j < width ==> #[trigger] shade.requires((i, j)),
    ensures
        is_rendering(width, height, shade, data@),
{
    let mut data: Vec<u8> = Vec::new();
    let mut i: u32 = 0;
    while i < height
        invariant
            i <= height,
            forall|a: u32, b: u32| a < height && b < width ==> #[trigger] shade.requires((a, b)),
            data@.len() == i as int * width as int * 4,
            forall|a: u32, b: u32|
                a < i && b < width ==> #[trigger] shade.ensures((a, b), pixel_at(data@, a * width + b)),
            forall|k: int| 0 <= k < data@.len() && k % 4 == 3 ==> data@[k] == OPAQUE,
        decreases height - i,
    {
        let mut j: u32 = 0;
        while j < width
            invariant
                i < height,
                j <= width,
                forall|a: u32, b: u32| a < height && b < width ==> #[trigger] shade.requires((a, b)),
                data@.len() == (i as int * width as int + j as int) * 4,
                forall|a: u32, b: u32|
                    (a < i && b < width) || (a == i && b < j) ==> #[trigger] shade.ensures(
                        (a, b),
                        pixel_at(data@, a * width + b),
                    ),
                forall|k: int| 0 <= k < data@.len() && k % 4 == 3 ==> data@[k] == OPAQUE,
            decreases width - j,
        {
            let c = shade(i, j);
            let ghost before = data@;
            data.push(c.r);
            data.push(c.g);
            data.push(c.b);
            data.push(OPAQUE);
            proof {
                let p = i as int * width as int + j as int;
                assert(data@ == before + seq![c.r, c.g, c.b, OPAQUE]);
                assert(pixel_at(data@, p) == c);
                assert forall|a: u32, b: u32|
                    (a < i && b < width) || (a == i && b < j + 1) implies #[trigger] shade.ensures(
                    (a, b),
                    pixel_at(data@, a * width + b),
                ) by {
                    if a == i && b == j {
                    } else {
                        lemma_row_major_offset(a as int, b as int, i as int, j as int, width as int);
                        let q = a * width + b;
                        assert(pixel_at(data@, q) == pixel_at(before, q));
                    }
                }
            }
            j += 1;
        }
        proof {
            assert(data@.len() == (i + 1) as int * width as int * 4) by (nonlinear_arith)
                requires data@.len() == (i as int * width as int + width as int) * 4;
        }
        i += 1;
    }
    proof {
        assert(data@.len() == width as int * height as int * 4) by (nonlinear_arith)
            requires data@.len() == i as int * width as int * 4, i == height;
    }
    data
}

/// Rendering is deterministic: where the shading function gives each pixel one
/// colour, two renderings of the same grid are byte for byte the same.
pub proof fn lemma_render_deterministic<F: Fn(u32, u32) -> ColorRGB>(
    width: u32,
    height: u32,
    shade: F,
    a: Seq<u8>,
    b: Seq<u8>,
)
    requires
        is_deterministic(shade),
        is_rendering(width, height, shade, a),
        is_rendering(width, height, shade, b),
    ensures
        a == b,
{
    assert forall|k: int| 0 <= k < a.len() implies a[k] == b[k] by {
        let p = k / 4;
        let i = p / width as int;
        let j = p % width as int;
        assert(0 <= p < width as int * height as int);
        assert(width > 0) by (nonlinear_arith)
            requires 0 <= p < width as int * height as int;
        assert(0 <= i < height) by (nonlinear_arith)
            requires 0 <= p < width as int * height as int, i == p / width as int, width > 0;
        assert(0 <= j < width);
        lemma_fundamental_div_mod(p, width as int);
        assert(p == i * width + j);
        assert(shade.ensures((i as u32, j as u32), pixel_at(a, (i as u32) * width + (j as u32))));
        assert(shade.ensures((i as u32, j as u32), pixel_at(b, (i as u32) * width + (j as u32))));
        assert(pixel_at(a, p) == pixel_at(b, p));
        assert(k == 4 * p || k == 4 * p + 1 || k == 4 * p + 2 || k == 4 * p + 3);
    }
    assert(a =~= b);
}

} // verus!
