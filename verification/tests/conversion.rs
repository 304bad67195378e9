use fake::{Fake, Faker};
use hraw::conversion::{
    png_file_head, png_file_i32, read_png_head, read_png_i32, rgba_to_i32, to_vec_i32, HrawIterator,
};
use hraw::rawnumber::{be_i16, le_i32, le_u8, BitField};
use hraw::{Decoding, Header, HeaderDecoder, Hraw, HrawEnumerater, HrawError, ScriptEnum};
use image::ImageEncoder;

fn header(bitfield: BitField, width: usize, height: usize, offset: usize) -> Header {
    Header {
        width,
        height,
        total: width * height,
        stride: width,
        offset,
        bitfield,
        data: vec!["data.raw".to_string()],
        decoder: None,
        raw: serde_json::Value::Null,
        headerpath: "header.yaml".to_string(),
    }
}

/// What the original computes for one float sample: `i32::clamp_from`, which
/// compares with the bounds and then casts.
fn f32_clamp(v: f32) -> i32 {
    let min = i32::MIN as f32;
    let max = i32::MAX as f32;
    if v < min {
        i32::MIN
    } else if v > max {
        i32::MAX
    } else {
        v as i32
    }
}

fn f64_clamp(v: f64) -> i32 {
    let min = i32::MIN as f64;
    let max = i32::MAX as f64;
    if v < min {
        i32::MIN
    } else if v > max {
        i32::MAX
    } else {
        v as i32
    }
}

#[test]
fn hraw_data_unknown() {
    let mut vec_i32_1 = vec![0i32; 640 * 480];
    let mut vec_i32_2 = vec![0i32; 640 * 480];

    let mut body = Vec::new();
    for i in 0..(640 * 480) as i32 {
        body.extend_from_slice(&(i * 3 - 1000).to_le_bytes());
    }

    let known = Hraw::from_header("ship_i32.zip".to_string(), header(BitField::le_i32, 640, 480, 0));
    match known.decode_i32(&body) {
        Ok(Decoding::Samples(v)) => vec_i32_1 = v,
        _ => panic!("an le_i32 body reads as samples"),
    }

    let mut h = header(BitField::unknown, 640, 480, 0);
    h.decoder = Some(HeaderDecoder { lang: ScriptEnum::Lua, code: "function main(index) return 0 end".to_string() });
    let unknown = Hraw::from_header("ship_i32_unknown.zip".to_string(), h);
    match unknown.decode_i32(&body) {
        Ok(Decoding::Script(d)) => {
            assert_eq!(d.lang, ScriptEnum::Lua);
            assert_eq!(d.code, "function main(index) return 0 end");
            vec_i32_2.iter_mut().zip(vec_i32_1.iter()).for_each(|(a, b)| *a = *b);
        }
        _ => panic!("an unknown body goes to its decoder"),
    }

    println!("{:?}", &vec_i32_1[0..3]);
    println!("{:?}", &vec_i32_2[0..3]);
    assert_eq!(&vec_i32_1[0..3], &[-1000, -997, -994]);
    assert_eq!(vec_i32_1.len(), 640 * 480);
}

#[test]
fn unknown_without_decoder_is_an_error() {
    let hraw = Hraw::from_header("a".to_string(), header(BitField::unknown, 2, 2, 0));
    assert!(matches!(hraw.decode_i32(&[0u8; 16]), Err(HrawError::DecoderNotFound)));
}

#[test]
fn to_vec_i32_skips_offset_and_pads_with_zero() {
    let bytes = [9u8, 9, 1, 0, 2, 0, 0xff, 0xff, 7];
    let v = to_vec_i32(BitField::le_i16, &bytes, 2, 5);
    assert_eq!(v, vec![1, 2, -1, 0, 0]);
    let v = to_vec_i32(BitField::be_u16, &bytes, 2, 3);
    assert_eq!(v, vec![256, 512, 65535]);
    let v = to_vec_i32(BitField::le_u8, &bytes, 100, 3);
    assert_eq!(v, vec![0, 0, 0]);
    let v = to_vec_i32(BitField::le_u8, &bytes, 0, 0);
    assert!(v.is_empty());
}

#[test]
fn to_vec_i32_saturates_wide_integers() {
    let mut bytes = Vec::new();
    bytes.extend_from_slice(&u32::MAX.to_le_bytes());
    bytes.extend_from_slice(&(i64::MIN).to_be_bytes()[4..]);
    let v = to_vec_i32(BitField::le_u32, &bytes, 0, 1);
    assert_eq!(v, vec![i32::MAX]);
    let mut b64 = Vec::new();
    b64.extend_from_slice(&i64::MIN.to_be_bytes());
    b64.extend_from_slice(&(5_000_000_000i64).to_be_bytes());
    b64.extend_from_slice(&(-12i64).to_be_bytes());
    assert_eq!(to_vec_i32(BitField::be_i64, &b64, 0, 3), vec![i32::MIN, i32::MAX, -12]);
    let mut u64s = Vec::new();
    u64s.extend_from_slice(&u64::MAX.to_le_bytes());
    assert_eq!(to_vec_i32(BitField::le_u64, &u64s, 0, 1), vec![i32::MAX]);
}

#[test]
fn to_vec_i32_reads_floats_as_saturating_casts() {
    let samples: [f32; 12] = [
        0.0, -0.0, 1.5, -1.5, 2.9e9, -2.9e9, f32::NAN, f32::INFINITY, f32::NEG_INFINITY, 2147483520.0,
        1e-40, 123456.78,
    ];
    let mut le = Vec::new();
    let mut be = Vec::new();
    for s in samples {
        le.extend_from_slice(&s.to_le_bytes());
        be.extend_from_slice(&s.to_be_bytes());
    }
    let expect: Vec<i32> = samples.iter().map(|s| f32_clamp(*s)).collect();
    assert_eq!(to_vec_i32(BitField::le_f32, &le, 0, samples.len()), expect);
    assert_eq!(to_vec_i32(BitField::be_f32, &be, 0, samples.len()), expect);

    let samples: [f64; 12] = [
        0.0, -0.75, 2147483647.9, 2147483648.0, -2147483648.9, -2147483649.0, f64::NAN, f64::INFINITY,
        -1e300, 1e-320, 65535.5, -3.0,
    ];
    let mut le = Vec::new();
    let mut be = Vec::new();
    for s in samples {
        le.extend_from_slice(&s.to_le_bytes());
        be.extend_from_slice(&s.to_be_bytes());
    }
    let expect: Vec<i32> = samples.iter().map(|s| f64_clamp(*s)).collect();
    assert_eq!(to_vec_i32(BitField::le_f64, &le, 0, samples.len()), expect);
    assert_eq!(to_vec_i32(BitField::be_f64, &be, 0, samples.len()), expect);
}

#[test]
fn float_samples_match_casts_on_random_bits() {
    for _ in 0..2000 {
        let bits: u32 = Faker.fake();
        let v = f32::from_bits(bits);
        assert_eq!(to_vec_i32(BitField::le_f32, &bits.to_le_bytes(), 0, 1), vec![f32_clamp(v)]);
        let bits: u64 = Faker.fake();
        let v = f64::from_bits(bits);
        assert_eq!(to_vec_i32(BitField::be_f64, &bits.to_be_bytes(), 0, 1), vec![f64_clamp(v)]);
    }
}

#[test]
fn law_float_sign_symmetry_on_samples() {
    for v in [0.5f32, 1.0, 77.9, 1e6, 3e9, f32::INFINITY] {
        let a = to_vec_i32(BitField::le_f32, &v.to_le_bytes(), 0, 1)[0];
        let b = to_vec_i32(BitField::le_f32, &(-v).to_le_bytes(), 0, 1)[0];
        if a < i32::MAX {
            assert_eq!(b, -a);
        } else {
            assert_eq!(b, i32::MIN);
        }
    }
}

#[test]
fn enumerate_yields_indexed_samples() {
    let hraw = Hraw::from_header("a".to_string(), header(BitField::le_u8, 2, 2, 1));
    let mut it: HrawIterator<le_u8> = hraw.enumerate(vec![50, 1, 2, 3]);
    assert_eq!(it.next(), Some((0, 1)));
    assert_eq!(it.next(), Some((1, 2)));
    assert_eq!(it.next(), Some((2, 3)));
    assert_eq!(it.next(), None);
    assert_eq!(it.next(), None);

    let mut it: HrawIterator<be_i16> = HrawIterator::new(vec![0xff, 0xfe, 0x00, 0x05, 0x01], 0, 10);
    assert_eq!(it.next(), Some((0, -2)));
    assert_eq!(it.next(), Some((1, 5)));
    assert_eq!(it.next(), None);

    let mut it: HrawIterator<le_i32> = HrawIterator::new(vec![1, 0, 0, 0, 2, 0, 0, 0], 0, 1);
    assert_eq!(it.next(), Some((0, 1)));
    assert_eq!(it.next(), None);
}

#[test]
fn law_to_vec_i32_agrees_with_enumerate_on_a_body() {
    let bytes: Vec<u8> = (0..23u8).map(|b| b.wrapping_mul(37)).collect();
    let total = 8;
    let v = to_vec_i32(BitField::le_i32, &bytes, 3, total);
    let mut it: HrawIterator<le_i32> = HrawIterator::new(bytes.clone(), 3, total);
    let mut n = 0;
    while let Some((i, s)) = it.next() {
        assert_eq!(i, n);
        assert_eq!(v[i], s);
        n += 1;
    }
    assert_eq!(n, 5);
    assert!(v[n..].iter().all(|x| *x == 0));
}

fn png_of(width: u32, height: u32, rgba: &[u8]) -> Vec<u8> {
    let mut out = Vec::new();
    image::codecs::png::PngEncoder::new(&mut out)
        .write_image(rgba, width, height, image::ColorType::Rgba8)
        .unwrap();
    out
}

#[test]
fn read_png_i32_reads_big_endian_pixels() {
    let rgba: Vec<u8> = vec![1, 2, 3, 4, 0xff, 0, 0, 0x10, 9, 8, 7, 6];
    let png = png_of(3, 1, &rgba);
    let (w, h, v) = read_png_i32("picture.png", &png).unwrap();
    assert_eq!((w, h), (3, 1));
    assert_eq!(v, vec![0x01020304, i32::from_be_bytes([0xff, 0, 0, 0x10]), 0x09080706]);
    assert_eq!(read_png_head("dir/picture.png", &png), Some((3, 1)));
    assert_eq!(read_png_i32("picture.png", b"not an image"), None);
    assert_eq!(read_png_head("picture.png", &[]), None);
}

#[test]
fn read_png_takes_the_format_from_the_extension() {
    let rgba: Vec<u8> = vec![1, 2, 3, 4];
    let png = png_of(1, 1, &rgba);
    assert_eq!(read_png_head("PICTURE.PNG", &png), Some((1, 1)));
    assert_eq!(read_png_head("/abs/dir/..png", &png), Some((1, 1)));
    assert_eq!(read_png_head("dir/.png", &png), None);
    assert_eq!(read_png_i32("picture.txt", &png), None);
    assert_eq!(read_png_head("picture", &png), None);
    assert_eq!(read_png_head("picture.jpg", &png), None);
    assert_eq!(png_file_head(false, &png), None);
    assert_eq!(png_file_i32(true, &png), Some((1, 1, vec![0x01020304])));
}

#[test]
fn rgba_to_i32_row_major() {
    let rgba = [0u8, 0, 0, 1, 0, 0, 1, 0, 0x80, 0, 0, 0, 0, 0, 0, 0];
    assert_eq!(rgba_to_i32(2, 2, &rgba), vec![1, 256, i32::MIN, 0]);
}
