use hraw::processing::{demosaic, slice_to_png, to_a};

const M_G_INT: [[i32; 3]; 3] = [[1, 0, 1], [0, 4, 0], [1, 0, 1]];
const M_G_OUT: [[i32; 3]; 3] = [[0, 1, 0], [1, 0, 1], [0, 1, 0]];
const M_C_INT: [[i32; 3]; 3] = [[0, 0, 0], [0, 1, 0], [0, 0, 0]];
const M_C_OUT: [[i32; 3]; 3] = [[1, 0, 1], [0, 0, 0], [1, 0, 1]];
const M_C_ROW: [[i32; 3]; 3] = [[0, 0, 0], [1, 0, 1], [0, 0, 0]];
const M_C_COL: [[i32; 3]; 3] = [[0, 1, 0], [0, 0, 0], [0, 1, 0]];

/// The per-pixel rule of the original, written out with `i32` arithmetic
/// that wraps (as an optimised build computes it).
fn reference(src: &[i32], width: usize, height: usize, bitshift: i32, color: i32) -> Vec<u8> {
    let at = |x: usize, y: usize| src[x + y * width];
    let dot = |x: usize, y: usize, m: [[i32; 3]; 3]| {
        let mut s = 0i32;
        for i in 0..3 {
            for j in 0..3 {
                s = s.wrapping_add(m[i][j].wrapping_mul(at(x - 1 + i, y - 1 + j)));
            }
        }
        s
    };
    let shift = |v: i32| if bitshift > 0 { v >> bitshift } else { v.wrapping_shl((-bitshift) as u32) };
    let sat = |v: i32| v.clamp(0, 255) as u8;
    let (ox, oy) = match color {
        1 | 5 => (0, 0),
        2 | 6 => (1, 0),
        3 | 7 => (0, 1),
        4 | 8 => (1, 1),
        _ => (0, 0),
    };
    let mut out = Vec::new();
    for y in 0..height {
        for x in 0..width {
            let rgb = if (1..=4).contains(&color) && 0 < x && x < width - 1 && 0 < y && y < height - 1 {
                let xo = (x + ox) % 2 == 1;
                let yo = (y + oy) % 2 == 1;
                let (r, g, b) = match (xo, yo) {
                    (true, true) => (dot(x, y, M_C_COL) / 2, dot(x, y, M_G_INT) / 8, dot(x, y, M_C_ROW) / 2),
                    (true, false) => (dot(x, y, M_C_OUT) / 4, dot(x, y, M_G_OUT) / 4, dot(x, y, M_C_INT)),
                    (false, true) => (dot(x, y, M_C_INT), dot(x, y, M_G_OUT) / 4, dot(x, y, M_C_OUT) / 4),
                    (false, false) => (dot(x, y, M_C_ROW) / 2, dot(x, y, M_G_INT) / 8, dot(x, y, M_C_COL) / 2),
                };
                [sat(shift(r)), sat(shift(g)), sat(shift(b))]
            } else if (5..=8).contains(&color) {
                let m = sat(shift(at((x / 2) * 2 + ox, (y / 2) * 2 + oy)));
                [m, m, m]
            } else {
                let m = sat(shift(at(x, y)));
                [m, m, m]
            };
            out.extend_from_slice(&rgb);
        }
    }
    out
}

fn frame(width: usize, height: usize, seed: i64) -> Vec<i32> {
    (0..width * height)
        .map(|i| {
            let v = (i as i64 * 7919 + seed * 104729) % 4099 - 1000;
            (v * ((i % 5) as i64 + 1)) as i32
        })
        .collect()
}

#[test]
fn demosaic_matches_the_per_pixel_rule() {
    for color in -1..=9 {
        for bitshift in [-3, 0, 1, 4, 31, -31] {
            let (w, h) = (6, 4);
            let src = frame(w, h, color as i64 + bitshift as i64);
            assert_eq!(demosaic(&src, w, h, bitshift, color), reference(&src, w, h, bitshift, color), "color {color} shift {bitshift}");
        }
    }
}

#[test]
fn demosaic_wraps_like_i32_arithmetic() {
    let src = vec![i32::MAX; 9];
    for color in 1..=4 {
        assert_eq!(demosaic(&src, 3, 3, 0, color), reference(&src, 3, 3, 0, color));
    }
    let src = vec![i32::MIN, -1, i32::MAX, 5, i32::MIN, 7, 8, -9, i32::MAX];
    for color in 1..=4 {
        assert_eq!(demosaic(&src, 3, 3, 2, color), reference(&src, 3, 3, 2, color));
    }
}

#[test]
fn law_grey_bytes_are_kept() {
    let src: Vec<i32> = (0..12).map(|i| i * 20).collect();
    let out = demosaic(&src, 4, 3, 0, 0);
    for (k, b) in out.iter().enumerate() {
        assert_eq!(*b as i32, src[k / 3]);
    }
}

#[test]
fn demosaic_known_pixel() {
    // centre of a 3x3 frame, mode 1: the centre site is (odd, odd)
    let src = vec![0, 10, 0, 20, 40, 30, 0, 50, 0];
    let out = demosaic(&src, 3, 3, 0, 1);
    // the 3x3 neighbourhood runs along x in its rows: red is the mean of the
    // left and right neighbours (20 + 30) / 2, green 4 * 40 / 8, blue the mean
    // of the neighbours above and below (10 + 50) / 2
    assert_eq!(&out[12..15], &[25, 20, 30]);
    // the border is shown as grey
    assert_eq!(&out[0..3], &[0, 0, 0]);
    assert_eq!(&out[3..6], &[10, 10, 10]);
}

#[test]
fn slice_to_png_encodes_the_picture() {
    let (w, h) = (5, 4);
    let src = frame(w, h, 3);
    let png = slice_to_png(&src, w, h, 2, 3).unwrap();
    assert_eq!(&png[1..4], b"PNG");
    let img = image::load_from_memory(&png).unwrap().into_rgb8();
    assert_eq!(img.dimensions(), (w as u32, h as u32));
    assert_eq!(img.into_raw(), reference(&src, w, h, 2, 3));
}

/// The simpler per-sample rule, written out with wrapping `i32` arithmetic.
fn to_a_reference(v: &[i32], index: usize, stride: usize, color: i32) -> (i32, i32, i32) {
    let y = (index / stride) % 2;
    let x = index % 2;
    let add = |ks: &[usize]| ks.iter().fold(0i32, |a, k| a.wrapping_add(v[*k]));
    match (color, x, y) {
        (0, _, _) => (v[index], v[index], v[index]),
        (_, 0, 0) => (add(&[index - 1, index + 1]) / 2, v[index], add(&[index - stride, index + stride]) / 2),
        (_, 1, 0) => (
            v[index],
            add(&[index - 1, index + 1, index - stride, index + stride]) / 4,
            add(&[index - stride - 1, index - stride + 1, index + stride - 1, index + stride + 1]) / 4,
        ),
        (_, 0, 1) => (
            add(&[index - stride - 1, index - stride + 1, index + stride - 1, index + stride + 1]) / 4,
            add(&[index - 1, index + 1, index - stride, index + stride]) / 4,
            v[index],
        ),
        _ => (add(&[index - stride, index + stride]) / 2, v[index], add(&[index - 1, index + 1]) / 2),
    }
}

#[test]
fn to_a_matches_the_per_sample_rule() {
    let stride = 6;
    let v: Vec<i32> = (0..36).map(|i| (i * 37 % 101) - 40).collect();
    for index in stride + 1..36 - stride - 1 {
        for color in [0, 1, 3] {
            assert_eq!(to_a(&v, index, stride, color), to_a_reference(&v, index, stride, color), "{index} {color}");
        }
    }
    let big = vec![i32::MAX; 36];
    assert_eq!(to_a(&big, 14, stride, 1), to_a_reference(&big, 14, stride, 1));
    assert_eq!(to_a(&v, 0, stride, 0), (v[0], v[0], v[0]));
}

#[test]
fn law_bayer_swap_on_a_frame() {
    // modes 1 and 4 start the mosaic one site apart in both directions, so at
    // the centre red and blue trade places and green stays
    let src = vec![3, 10, 5, 20, 40, 30, 7, 50, 9];
    let a = demosaic(&src, 3, 3, 0, 1);
    let b = demosaic(&src, 3, 3, 0, 4);
    assert_eq!(&a[12..15], &[b[14], b[13], b[12]]);
    let c = demosaic(&src, 3, 3, 0, 2);
    let d = demosaic(&src, 3, 3, 0, 3);
    assert_eq!(&c[12..15], &[d[14], d[13], d[12]]);
}

#[test]
fn law_bayer_flat_field_on_a_frame() {
    let src = vec![77; 25];
    for color in 1..=4 {
        let out = demosaic(&src, 5, 5, 0, color);
        assert!(out.iter().all(|b| *b == 77));
    }
    let big = vec![1 << 20; 9];
    for color in 1..=4 {
        assert_eq!(&demosaic(&big, 3, 3, 16, color)[12..15], &[16, 16, 16]);
    }
}
