//! Turning a frame of `i32` samples into an 8-bit RGB picture: a bayer
//! mosaic interpolated over 3x3 neighbourhoods, or one channel shown as grey,
//! shifted by a number of bits and saturated; then encoded as PNG.
use crate::rawnumber::{clamp_int, BoundedInt, ClampFrom};
use image::ImageEncoder;
use crate::rawnumber::ieee::pow2_u128;
use vstd::arithmetic::power2::{lemma2_to64, lemma_pow2_adds, lemma_pow2_pos, lemma_pow2_strictly_increases, pow2};
use vstd::prelude::*;

verus! {

/// The `i32` that an integer wraps to, as `i32` arithmetic without overflow
/// checks gives it.
pub open spec fn wrap_i32(x: int) -> int {
    (x + 0x8000_0000) % 0x1_0000_0000 - 0x8000_0000
}

/// Division rounding toward zero, as integer division does.
pub open spec fn div_toward_zero(a: int, d: int) -> int {
    if a >= 0 {
        a / d
    } else {
        -((-a) / d)
    }
}

/// `v` shifted right by `shift` bits when `shift` is positive (rounding down),
/// else left by `-shift` bits (wrapping).
pub open spec fn spec_bitshift(v: int, shift: int) -> int {
    if shift > 0 {
        v / pow2(shift as nat) as int
    } else {
        wrap_i32(v * pow2((-shift) as nat))
    }
}

/// `v` held in `0..=255`.
pub open spec fn to_u8_sat(v: int) -> u8 {
    clamp_int(v, 0, 255) as u8
}

/// The 3x3 weights that the interpolation uses. Weight `(i, j)` applies to
/// the sample at `(x - 1 + i, y - 1 + j)`, so a row of weights runs along `y`
/// at one column `x`.
#[derive(Debug, Clone, Copy, PartialEq, Eq, Structural)]
pub enum Kernel {
    /// Green at a green site: the centre four times, and the corners.
    GInt,
    /// Green at a red or blue site: the four edge neighbours.
    GOut,
    /// The centre alone.
    CInt,
    /// The four corners.
    COut,
    /// The middle row of weights: the neighbours above and below.
    CRow,
    /// The middle column of weights: the neighbours left and right.
    CCol,
}

pub open spec fn weight(k: Kernel, i: int, j: int) -> int {
    match k {
        Kernel::GInt => if i == 1 && j == 1 {
            4
        } else if (i == 0 || i == 2) && (j == 0 || j == 2) {
            1
        } else {
            0
        },
        Kernel::GOut => if (i == 1) != (j == 1) {
            1
        } else {
            0
        },
        Kernel::CInt => if i == 1 && j == 1 {
            1
        } else {
            0
        },
        Kernel::COut => if (i == 0 || i == 2) && (j == 0 || j == 2) {
            1
        } else {
            0
        },
        Kernel::CRow => if i == 1 && j != 1 {
            1
        } else {
            0
        },
        Kernel::CCol => if i != 1 && j == 1 {
            1
        } else {
            0
        },
    }
}

/// The sample at column `x` of row `y` of a frame `width` samples wide.
pub open spec fn px(src: Seq<i32>, width: nat, x: int, y: int) -> int {
    src[x + y * width] as int
}

/// The 3x3 neighbourhood of `(x, y)`, element `(i, j)` being the sample at
/// `(x - 1 + i, y - 1 + j)`, weighed by `k` and summed.
pub open spec fn dot(src: Seq<i32>, width: nat, x: int, y: int, k: Kernel) -> int {
    weight(k, 0, 0) * px(src, width, x - 1, y - 1) + weight(k, 0, 1) * px(src, width, x - 1, y)
        + weight(k, 0, 2) * px(src, width, x - 1, y + 1) + weight(k, 1, 0) * px(
        src,
        width,
        x,
        y - 1,
    ) + weight(k, 1, 1) * px(src, width, x, y) + weight(k, 1, 2) * px(src, width, x, y + 1)
        + weight(k, 2, 0) * px(src, width, x + 1, y - 1) + weight(k, 2, 1) * px(
        src,
        width,
        x + 1,
        y,
    ) + weight(k, 2, 2) * px(src, width, x + 1, y + 1)
}

/// One interpolated channel: the weighed sum in `i32` arithmetic, divided by `d`.
pub open spec fn channel(src: Seq<i32>, width: nat, x: int, y: int, k: Kernel, d: int) -> int {
    div_toward_zero(wrap_i32(dot(src, width, x, y, k)), d)
}

/// Red, green and blue at `(x, y)`, by the parity of the site in the mosaic.
pub open spec fn bayer(src: Seq<i32>, width: nat, x: int, y: int, x_odd: bool, y_odd: bool) -> (int, int, int) {
    if x_odd && y_odd {
        (
            channel(src, width, x, y, Kernel::CCol, 2),
            channel(src, width, x, y, Kernel::GInt, 8),
            channel(src, width, x, y, Kernel::CRow, 2),
        )
    } else if x_odd {
        (
            channel(src, width, x, y, Kernel::COut, 4),
            channel(src, width, x, y, Kernel::GOut, 4),
            channel(src, width, x, y, Kernel::CInt, 1),
        )
    } else if y_odd {
        (
            channel(src, width, x, y, Kernel::CInt, 1),
            channel(src, width, x, y, Kernel::GOut, 4),
            channel(src, width, x, y, Kernel::COut, 4),
        )
    } else {
        (
            channel(src, width, x, y, Kernel::CRow, 2),
            channel(src, width, x, y, Kernel::GInt, 8),
            channel(src, width, x, y, Kernel::CCol, 2),
        )
    }
}

/// Where the mosaic pattern starts, by colour mode.
pub open spec fn color_offset(color: int) -> (int, int) {
    if color == 2 || color == 6 {
        (1, 0)
    } else if color == 3 || color == 7 {
        (0, 1)
    } else if color == 4 || color == 8 {
        (1, 1)
    } else {
        (0, 0)
    }
}

/// One output byte: `v` shifted and saturated.
pub open spec fn out_u8(v: int, shift: int) -> u8 {
    to_u8_sat(spec_bitshift(v, shift))
}

/// The picture's pixel at `(x, y)`. Colour modes 1 to 4 interpolate a bayer
/// mosaic away from the border; 5 to 8 show one site of each 2x2 block as grey;
/// anything else, and the border in modes 1 to 4, shows the sample as grey.
pub open spec fn pixel_rgb(
    src: Seq<i32>,
    width: nat,
    height: nat,
    shift: int,
    color: int,
    x: int,
    y: int,
) -> (u8, u8, u8) {
    let (ox, oy) = color_offset(color);
    if 1 <= color <= 4 && 0 < x && x < width - 1 && 0 < y && y < height - 1 {
        let c = bayer(src, width, x, y, (x + ox) % 2 == 1, (y + oy) % 2 == 1);
        (out_u8(c.0, shift), out_u8(c.1, shift), out_u8(c.2, shift))
    } else if 5 <= color <= 8 {
        let m = out_u8(px(src, width, (x / 2) * 2 + ox, (y / 2) * 2 + oy), shift);
        (m, m, m)
    } else {
        let m = out_u8(px(src, width, x, y), shift);
        (m, m, m)
    }
}

/// The picture as RGB bytes, row by row.
pub open spec fn spec_demosaic(src: Seq<i32>, width: nat, height: nat, shift: int, color: int) -> Seq<u8> {
    Seq::new(
        3 * width * height,
        |k: int|
            {
                let p = k / 3;
                let rgb = pixel_rgb(src, width, height, shift, color, p % width as int, p / width as int);
                if k % 3 == 0 {
                    rgb.0
                } else if k % 3 == 1 {
                    rgb.1
                } else {
                    rgb.2
                }
            },
    )
}

/// The conditions under which the picture can be made: the samples fill the
/// frame, its bytes fit in memory, the shift is below the width of `i32`, and
/// the grey modes that start on the second row or column find that site in
/// every 2x2 block.
pub open spec fn demosaic_ok(src: Seq<i32>, width: nat, height: nat, shift: int, color: int) -> bool {
    &&& src.len() == width * height
    &&& 3 * width * height <= usize::MAX
    &&& -32 < shift < 32
    &&& (color == 6 || color == 8) ==> width % 2 == 0
    &&& (color == 7 || color == 8) ==> height % 2 == 0
}

/// At the opposite parity of the mosaic, red and blue trade places and green
/// stays: a red site's neighbourhood read as a blue site, and the reverse.
pub proof fn law_bayer_swap(src: Seq<i32>, width: nat, x: int, y: int, x_odd: bool, y_odd: bool)
    ensures
        ({
            let c = bayer(src, width, x, y, x_odd, y_odd);
            bayer(src, width, x, y, !x_odd, !y_odd) == (c.2, c.1, c.0)
        }),
{
}

/// A flat neighbourhood interpolates to grey: where all nine samples around
/// `(x, y)` are `k` (small enough that the weighed sums stay in `i32`), every
/// channel is `k`, at any parity.
pub proof fn law_bayer_flat_field(src: Seq<i32>, width: nat, x: int, y: int, k: int, x_odd: bool, y_odd: bool)
    requires
        forall|a: int, b: int| x - 1 <= a <= x + 1 && y - 1 <= b <= y + 1 ==> #[trigger] px(src, width, a, b) == k,
        -0x1000_0000 <= k < 0x1000_0000,
    ensures
        bayer(src, width, x, y, x_odd, y_odd) == (k, k, k),
{
    assert(px(src, width, x - 1, y - 1) == k);
    assert(px(src, width, x - 1, y) == k);
    assert(px(src, width, x - 1, y + 1) == k);
    assert(px(src, width, x, y - 1) == k);
    assert(px(src, width, x, y) == k);
    assert(px(src, width, x, y + 1) == k);
    assert(px(src, width, x + 1, y - 1) == k);
    assert(px(src, width, x + 1, y) == k);
    assert(px(src, width, x + 1, y + 1) == k);
    assert(dot(src, width, x, y, Kernel::GInt) == 8 * k);
    assert(dot(src, width, x, y, Kernel::GOut) == 4 * k);
    assert(dot(src, width, x, y, Kernel::CInt) == k);
    assert(dot(src, width, x, y, Kernel::COut) == 4 * k);
    assert(dot(src, width, x, y, Kernel::CRow) == 2 * k);
    assert(dot(src, width, x, y, Kernel::CCol) == 2 * k);
    assert forall|m: int| -0x8000_0000 <= m < 0x8000_0000 implies wrap_i32(m) == m by {
        vstd::arithmetic::div_mod::lemma_small_mod((m + 0x8000_0000) as nat, 0x1_0000_0000);
    }
    assert(div_toward_zero(8 * k, 8) == k);
    assert(div_toward_zero(4 * k, 4) == k);
    assert(div_toward_zero(2 * k, 2) == k);
    assert(div_toward_zero(k, 1) == k);
    assert(channel(src, width, x, y, Kernel::GInt, 8) == k);
    assert(channel(src, width, x, y, Kernel::GOut, 4) == k);
    assert(channel(src, width, x, y, Kernel::CInt, 1) == k);
    assert(channel(src, width, x, y, Kernel::COut, 4) == k);
    assert(channel(src, width, x, y, Kernel::CRow, 2) == k);
    assert(channel(src, width, x, y, Kernel::CCol, 2) == k);
}

/// In the grey mode without a shift, a frame whose samples are bytes comes
/// out as those bytes, each in all three channels.
pub proof fn law_grey_bytes_kept(src: Seq<i32>, width: nat, height: nat, k: int)
    requires
        src.len() == width * height,
        forall|i: int| 0 <= i < src.len() ==> 0 <= #[trigger] src[i] <= 255,
        0 <= k < 3 * width * height,
    ensures
        spec_demosaic(src, width, height, 0, 0)[k] as int == src[k / 3] as int,
{
    let p = k / 3;
    assert(p < width * height) by (nonlinear_arith)
        requires
            0 <= k < 3 * width * height,
            p == k / 3,
    ;
    assert(width > 0) by (nonlinear_arith)
        requires
            0 <= p < width * height,
    ;
    lemma_pixel_position(p, width as int, height as int);
    let v = src[p] as int;
    assert(px(src, width, p % width as int, p / width as int) == v);
    assert(pow2(0) == 1) by {
        lemma2_to64();
    }
    assert(wrap_i32(v * 1) == v);
}

proof fn lemma_index(x: int, y: int, w: int, h: int)
    requires
        0 <= x < w,
        0 <= y < h,
    ensures
        0 <= x + y * w < w * h,
        y * w <= x + y * w,
{
    assert(y * w + x < w * h) by (nonlinear_arith)
        requires
            0 <= x < w,
            0 <= y < h,
    ;
    assert(0 <= y * w) by (nonlinear_arith)
        requires
            0 <= y,
            0 <= w,
    ;
}

fn at(src: &[i32], width: usize, x: usize, y: usize) -> (r: i64)
    requires
        x < width,
        y * width + x < src@.len(),
    ensures
        r == px(src@, width as nat, x as int, y as int),
{
    // the frame's length bounds the position
    let _len = src.len();
    proof {
        assert(0 <= y * width) by (nonlinear_arith)
            requires
                0 <= y,
                0 <= width,
        ;
    }
    src[y * width + x] as i64
}

/// The weighed 3x3 sum around an inner site, without overflow.
fn dot_at(src: &[i32], width: usize, height: usize, x: usize, y: usize, k: Kernel) -> (r: i64)
    requires
        src@.len() == width * height,
        0 < x < width - 1,
        0 < y < height - 1,
    ensures
        r == dot(src@, width as nat, x as int, y as int, k),
{
    proof {
        lemma_index((x + 1) as int, (y + 1) as int, width as int, height as int);
        assert((y - 1) * width <= y * width <= (y + 1) * width) by (nonlinear_arith)
            requires
                y >= 1,
                width >= 0,
        ;
        assert((y as int - 1) * width + (x - 1) >= 0) by (nonlinear_arith)
            requires
                y >= 1,
                x >= 1,
                width >= 0,
        ;
    }
    let (xm, xp, ym, yp) = (x - 1, x + 1, y - 1, y + 1);
    match k {
        Kernel::GInt => at(src, width, xm, ym) + at(src, width, xm, yp) + 4 * at(src, width, x, y)
            + at(src, width, xp, ym) + at(src, width, xp, yp),
        Kernel::GOut => at(src, width, xm, y) + at(src, width, x, ym) + at(src, width, x, yp) + at(
            src,
            width,
            xp,
            y,
        ),
        Kernel::CInt => at(src, width, x, y),
        Kernel::COut => at(src, width, xm, ym) + at(src, width, xm, yp) + at(src, width, xp, ym)
            + at(src, width, xp, yp),
        Kernel::CRow => at(src, width, x, ym) + at(src, width, x, yp),
        Kernel::CCol => at(src, width, xm, y) + at(src, width, xp, y),
    }
}

/// `x` wrapped into `i32`.
fn wrap(x: i64) -> (r: i32)
    requires
        -0x4000_0000_0000_0000 <= x <= 0x4000_0000_0000_0000,
    ensures
        r == wrap_i32(x as int),
{
    let t: i128 = x as i128 + 0x8000_0000 + 0x1_0000_0000_0000_0000;
    proof {
        vstd::arithmetic::div_mod::lemma_mod_multiples_vanish(
            0x1_0000_0000,
            x + 0x8000_0000,
            0x1_0000_0000,
        );
        assert(0x1_0000_0000 * 0x1_0000_0000 == 0x1_0000_0000_0000_0000);
    }
    ((t % 0x1_0000_0000) - 0x8000_0000) as i32
}

/// One interpolated channel at an inner site.
fn channel_at(src: &[i32], width: usize, height: usize, x: usize, y: usize, k: Kernel, d: i32) -> (r: i32)
    requires
        src@.len() == width * height,
        0 < x < width - 1,
        0 < y < height - 1,
        d == 1 || d == 2 || d == 4 || d == 8,
    ensures
        r == channel(src@, width as nat, x as int, y as int, k, d as int),
{
    let s = dot_at(src, width, height, x, y, k);
    let w = wrap(s);
    if w >= 0 {
        w / d
    } else {
        proof {
            assert(-(w as int) / (d as int) <= 0x8000_0000) by (nonlinear_arith)
                requires
                    w < 0,
                    w >= -0x8000_0000,
                    d >= 1,
            ;
        }
        -((-(w as i64)) / (d as i64)) as i32
    }
}

/// `v` shifted right (rounding down) or left (wrapping) by `shift` bits.
fn bitshift(v: i32, shift: i32) -> (r: i32)
    requires
        -32 < shift < 32,
    ensures
        r == spec_bitshift(v as int, shift as int),
{
    proof {
        lemma2_to64();
    }
    if shift > 0 {
        let s = shift as u32;
        proof {
            lemma_pow2_strictly_increases(s as nat, 32);
        }
        let p = pow2_u128(s) as i64;
        proof {
            lemma_pow2_adds(s as nat, (31 - s) as nat);
            lemma_pow2_pos((31 - s) as nat);
            assert(pow2(31) == 0x8000_0000);
            let j = pow2((31 - s) as nat) as int;
            assert((s + (31 - s)) as nat == 31);
            assert(pow2(s as nat) * pow2((31 - s) as nat) == 0x8000_0000);
            assert(j * p == 0x8000_0000) by (nonlinear_arith)
                requires
                    p == pow2(s as nat),
                    j == pow2((31 - s) as nat),
                    pow2(s as nat) * pow2((31 - s) as nat) == 0x8000_0000,
            ;
            vstd::arithmetic::div_mod::lemma_hoist_over_denominator(v as int, j, p as nat);
            vstd::arithmetic::div_mod::lemma_div_multiples_vanish(j, p as int);
            assert(0x8000_0000int / (p as int) == j);
            assert((v as int + 0x8000_0000int) / (p as int) == (v as int) / (p as int) + j);
        }
        let q = (v as i64 + 0x8000_0000) / p - 0x8000_0000 / p;
        q as i32
    } else {
        let s = (-shift) as u32;
        proof {
            if s < 31 {
                lemma_pow2_strictly_increases(s as nat, 31);
            }
        }
        let p = pow2_u128(s) as i64;
        proof {
            assert(-0x4000_0000_0000_0000 <= v * p <= 0x4000_0000_0000_0000) by (nonlinear_arith)
                requires
                    -0x8000_0000 <= v < 0x8000_0000,
                    0 < p <= 0x8000_0000,
            ;
        }
        wrap(v as i64 * p)
    }
}

/// `v` shifted by `shift` bits and saturated into a byte.
fn shifted_u8(v: i32, shift: i32) -> (r: u8)
    requires
        -32 < shift < 32,
    ensures
        r == out_u8(v as int, shift as int),
{
    u8::clamp_from(bitshift(v, shift))
}

proof fn lemma_pixel_position(p: int, w: int, h: int)
    requires
        0 <= p < w * h,
        w > 0,
    ensures
        0 <= p % w < w,
        0 <= p / w < h,
        (p / w) * w + p % w == p,
{
    vstd::arithmetic::div_mod::lemma_fundamental_div_mod(p, w);
    assert(0 <= p % w < w);
    assert(p / w >= 0);
    assert((p / w) * w == w * (p / w)) by (nonlinear_arith);
    assert(p / w < h) by (nonlinear_arith)
        requires
            (p / w) * w + p % w == p,
            0 <= p % w,
            p < w * h,
            w > 0,
    ;
}

fn pixel_at(
    src: &[i32],
    width: usize,
    height: usize,
    shift: i32,
    color: i32,
    x: usize,
    y: usize,
) -> (r: (u8, u8, u8))
    requires
        demosaic_ok(src@, width as nat, height as nat, shift as int, color as int),
        x < width,
        y < height,
    ensures
        r == pixel_rgb(src@, width as nat, height as nat, shift as int, color as int, x as int, y as int),
{
    let (ox, oy): (usize, usize) = if color == 2 || color == 6 {
        (1, 0)
    } else if color == 3 || color == 7 {
        (0, 1)
    } else if color == 4 || color == 8 {
        (1, 1)
    } else {
        (0, 0)
    };
    if 1 <= color && color <= 4 && 0 < x && x < width - 1 && 0 < y && y < height - 1 {
        let x_odd = (x + ox) % 2 == 1;
        let y_odd = (y + oy) % 2 == 1;
        let (r, g, b) = if x_odd && y_odd {
            (
                channel_at(src, width, height, x, y, Kernel::CCol, 2),
                channel_at(src, width, height, x, y, Kernel::GInt, 8),
                channel_at(src, width, height, x, y, Kernel::CRow, 2),
            )
        } else if x_odd {
            (
                channel_at(src, width, height, x, y, Kernel::COut, 4),
                channel_at(src, width, height, x, y, Kernel::GOut, 4),
                channel_at(src, width, height, x, y, Kernel::CInt, 1),
            )
        } else if y_odd {
            (
                channel_at(src, width, height, x, y, Kernel::CInt, 1),
                channel_at(src, width, height, x, y, Kernel::GOut, 4),
                channel_at(src, width, height, x, y, Kernel::COut, 4),
            )
        } else {
            (
                channel_at(src, width, height, x, y, Kernel::CRow, 2),
                channel_at(src, width, height, x, y, Kernel::GInt, 8),
                channel_at(src, width, height, x, y, Kernel::CCol, 2),
            )
        };
        (shifted_u8(r, shift), shifted_u8(g, shift), shifted_u8(b, shift))
    } else if 5 <= color && color <= 8 {
        let xx = (x / 2) * 2 + ox;
        let yy = (y / 2) * 2 + oy;
        proof {
            lemma_index(xx as int, yy as int, width as int, height as int);
        }
        let m = shifted_u8(at(src, width, xx, yy) as i32, shift);
        (m, m, m)
    } else {
        proof {
            lemma_index(x as int, y as int, width as int, height as int);
        }
        let m = shifted_u8(at(src, width, x, y) as i32, shift);
        (m, m, m)
    }
}

/// The RGB bytes of the picture, row by row.
pub fn demosaic(src: &[i32], width: usize, height: usize, bitshift_bits: i32, color: i32) -> (r: Vec<u8>)
    requires
        demosaic_ok(src@, width as nat, height as nat, bitshift_bits as int, color as int),
    ensures
        r@ == spec_demosaic(src@, width as nat, height as nat, bitshift_bits as int, color as int),
{
    let ghost spec = spec_demosaic(src@, width as nat, height as nat, bitshift_bits as int, color as int);
    proof {
        assert(width * height <= 3 * width * height) by (nonlinear_arith);
    }
    let size = width * height;
    proof {
        assert(spec.len() == 3 * size) by (nonlinear_arith)
            requires
                spec.len() == 3 * width * height,
                size == width * height,
        ;
    }
    let mut out: Vec<u8> = Vec::new();
    let mut p: usize = 0;
    while p < size
        invariant
            demosaic_ok(src@, width as nat, height as nat, bitshift_bits as int, color as int),
            size == width * height,
            p <= size,
            spec == spec_demosaic(src@, width as nat, height as nat, bitshift_bits as int, color as int),
            out@ == spec.take(3 * p),
            spec.len() == 3 * size,
        decreases size - p,
    {
        proof {
            assert(width > 0) by (nonlinear_arith)
                requires
                    p < width * height,
            ;
            lemma_pixel_position(p as int, width as int, height as int);
        }
        let x = p % width;
        let y = p / width;
        let (r, g, b) = pixel_at(src, width, height, bitshift_bits, color, x, y);
        out.push(r);
        out.push(g);
        out.push(b);
        proof {
            assert(3 * p + 3 <= 3 * size);
            let q = 3 * p as int;
            assert(q / 3 == p && (q + 1) / 3 == p && (q + 2) / 3 == p);
            assert(q % 3 == 0 && (q + 1) % 3 == 1 && (q + 2) % 3 == 2);
            let rgb = pixel_rgb(
                src@,
                width as nat,
                height as nat,
                bitshift_bits as int,
                color as int,
                (p as int) % (width as int),
                (p as int) / (width as int),
            );
            assert(spec[q] == rgb.0 && spec[q + 1] == rgb.1 && spec[q + 2] == rgb.2);
            assert(out@ =~= spec.take(3 * (p + 1)));
        }
        p = p + 1;
    }
    proof {
        assert(spec.take(3 * size) =~= spec);
    }
    out
}

/// The sum of the samples at `ks`, in `i32` arithmetic.
pub open spec fn wrapped_sum(data: Seq<i32>, ks: Seq<int>) -> int
    decreases ks.len(),
{
    if ks.len() == 0 {
        0
    } else {
        wrap_i32(wrapped_sum(data, ks.drop_last()) + data[ks.last()] as int)
    }
}

/// The mosaic site of sample `index` in a frame `stride` samples wide: the
/// parity of the position, and of the row.
pub open spec fn site_parity(index: int, stride: int) -> (int, int) {
    (index % 2, (index / stride) % 2)
}

/// Red, green and blue at sample `index` of a frame stored row by row, by
/// the site's parity; colour 0 shows the sample as grey.
pub open spec fn spec_to_a(data: Seq<i32>, index: int, stride: int, color: int) -> (int, int, int) {
    let i = index;
    let s = stride;
    let (x, y) = site_parity(index, stride);
    let c = data[i] as int;
    let row = wrapped_sum(data, seq![i - 1, i + 1]);
    let col = wrapped_sum(data, seq![i - s, i + s]);
    let edges = wrapped_sum(data, seq![i - 1, i + 1, i - s, i + s]);
    let corners = wrapped_sum(data, seq![i - s - 1, i - s + 1, i + s - 1, i + s + 1]);
    if color == 0 {
        (c, c, c)
    } else if x == 0 && y == 0 {
        (div_toward_zero(row, 2), c, div_toward_zero(col, 2))
    } else if x == 1 && y == 0 {
        (c, div_toward_zero(edges, 4), div_toward_zero(corners, 4))
    } else if x == 0 && y == 1 {
        (div_toward_zero(corners, 4), div_toward_zero(edges, 4), c)
    } else {
        (div_toward_zero(col, 2), c, div_toward_zero(row, 2))
    }
}

/// The samples that `spec_to_a` reads lie in the frame.
pub open spec fn to_a_ok(len: int, index: int, stride: int, color: int) -> bool {
    let (x, y) = site_parity(index, stride);
    &&& stride > 0
    &&& color == 0 ==> index < len
    &&& color != 0 && x == y ==> stride <= index && 1 <= index && index + stride < len && index + 1 < len
    &&& color != 0 && x != y ==> stride + 1 <= index && index + stride + 1 < len
}

proof fn lemma_wrap_i32_id(v: int)
    requires
        -0x8000_0000 <= v < 0x8000_0000,
    ensures
        wrap_i32(v) == v,
{
    vstd::arithmetic::div_mod::lemma_small_mod((v + 0x8000_0000) as nat, 0x1_0000_0000);
}

/// The `i32` sum of the samples at `i` and `j`.
fn pair_sum(data: &[i32], i: usize, j: usize) -> (r: i32)
    requires
        i < data@.len(),
        j < data@.len(),
    ensures
        r == wrapped_sum(data@, seq![i as int, j as int]),
{
    let ghost d = data@;
    proof {
        reveal_with_fuel(wrapped_sum, 3);
        assert(seq![i as int, j as int].drop_last() =~= seq![i as int]);
        assert(seq![i as int].drop_last() =~= Seq::<int>::empty());
        lemma_wrap_i32_id(d[i as int] as int);
    }
    wrap(data[i] as i64 + data[j] as i64)
}

/// The `i32` sum of the samples at `i`, `j`, `k` and `l`, in that order.
fn quad_sum(data: &[i32], i: usize, j: usize, k: usize, l: usize) -> (r: i32)
    requires
        i < data@.len(),
        j < data@.len(),
        k < data@.len(),
        l < data@.len(),
    ensures
        r == wrapped_sum(data@, seq![i as int, j as int, k as int, l as int]),
{
    let ghost d = data@;
    let ghost q = seq![i as int, j as int, k as int, l as int];
    let a = pair_sum(data, i, j);
    let b = wrap(a as i64 + data[k] as i64);
    proof {
        let q3 = seq![i as int, j as int, k as int];
        assert(q.drop_last() =~= q3);
        assert(q3.drop_last() =~= seq![i as int, j as int]);
        assert(wrapped_sum(d, q3) == wrap_i32(wrapped_sum(d, seq![i as int, j as int]) + d[k as int]));
        assert(wrapped_sum(d, q) == wrap_i32(wrapped_sum(d, q3) + d[l as int]));
    }
    wrap(b as i64 + data[l] as i64)
}

fn half_toward_zero(v: i32, d: i32) -> (r: i32)
    requires
        d == 2 || d == 4,
    ensures
        r == div_toward_zero(v as int, d as int),
{
    if v >= 0 {
        v / d
    } else {
        -((-(v as i64)) / (d as i64)) as i32
    }
}

/// Red, green and blue at sample `index`, from its 3x3 neighbourhood in a
/// frame `stride` samples wide (a simpler demosaic kept beside `demosaic`).
pub fn to_a(data: &[i32], index: usize, stride: usize, color: i32) -> (r: (i32, i32, i32))
    requires
        to_a_ok(data@.len() as int, index as int, stride as int, color as int),
    ensures
        (r.0 as int, r.1 as int, r.2 as int) == spec_to_a(data@, index as int, stride as int, color as int),
{
    let y = (index / stride) % 2;
    let x = index % 2;
    let c = data[index];
    if color == 0 {
        (c, c, c)
    } else if x == 0 && y == 0 {
        let r = pair_sum(data, index - 1, index + 1);
        let b = pair_sum(data, index - stride, index + stride);
        (half_toward_zero(r, 2), c, half_toward_zero(b, 2))
    } else if x == 1 && y == 0 {
        let g = quad_sum(data, index - 1, index + 1, index - stride, index + stride);
        let b = quad_sum(data, index - stride - 1, index - stride + 1, index + stride - 1, index + stride + 1);
        (c, half_toward_zero(g, 4), half_toward_zero(b, 4))
    } else if x == 0 && y == 1 {
        let r = quad_sum(data, index - stride - 1, index - stride + 1, index + stride - 1, index + stride + 1);
        let g = quad_sum(data, index - 1, index + 1, index - stride, index + stride);
        (half_toward_zero(r, 4), half_toward_zero(g, 4), c)
    } else {
        let r = pair_sum(data, index - stride, index + stride);
        let b = pair_sum(data, index - 1, index + 1);
        (half_toward_zero(r, 2), c, half_toward_zero(b, 2))
    }
}

/// The PNG file that the `image` crate's encoder writes for an 8-bit RGB
/// picture, or `None` where it reports an error.
pub uninterp spec fn png_rgb8(width: nat, height: nat, rgb: Seq<u8>) -> Option<Seq<u8>>;

/// `ImageEncoder::write_image` of `image::codecs::png::PngEncoder`, writing
/// into a new `Vec` an 8-bit RGB picture of `width` by `height` pixels. The
/// file depends on these arguments alone; what it holds is left to the name
/// `png_rgb8`. The encoder asserts that the buffer has three bytes a pixel,
/// which `requires` states.
#[verifier::external_body]
fn encode_png_rgb8(rgb: &[u8], width: u32, height: u32) -> (r: Option<Vec<u8>>)
    requires
        rgb@.len() == 3 * width * height,
    ensures
        match r {
            Some(v) => png_rgb8(width as nat, height as nat, rgb@) == Some(v@),
            None => png_rgb8(width as nat, height as nat, rgb@) is None,
        },
{
    let mut out = Vec::new();
    match image::codecs::png::PngEncoder::new(&mut out).write_image(
        rgb,
        width,
        height,
        image::ColorType::Rgb8,
    ) {
        Ok(()) => Some(out),
        Err(_) => None,
    }
}

/// The picture of a frame of samples, as a PNG file; `None` where the encoder
/// reports an error. The picture's size is given to the encoder in `u32`,
/// and a PNG has at least one row and one column.
pub fn slice_to_png(src: &[i32], width: usize, height: usize, bitshift: i32, color: i32) -> (r: Option<Vec<u8>>)
    requires
        demosaic_ok(src@, width as nat, height as nat, bitshift as int, color as int),
        0 < width <= u32::MAX,
        0 < height <= u32::MAX,
    ensures
        match r {
            Some(v) => png_rgb8(
                width as nat,
                height as nat,
                spec_demosaic(src@, width as nat, height as nat, bitshift as int, color as int),
            ) == Some(v@),
            None => png_rgb8(
                width as nat,
                height as nat,
                spec_demosaic(src@, width as nat, height as nat, bitshift as int, color as int),
            ) is None,
        },
{
    let rgb = demosaic(src, width, height, bitshift, color);
    encode_png_rgb8(rgb.as_slice(), width as u32, height as u32)
}

} // verus!
