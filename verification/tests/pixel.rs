use hraw::pixel::{Pixel, PixelCast};

#[test]
fn pixel_test() {
    let mut src = vec![0i32; 16 * 12];

    for y in 0..12 {
        for x in 0..16 {
            src[x + y * 16] = (x + y * 100) as i32;
        }
    }

    let pixel = src.into_pixel(16, 12);
    assert_eq!(pixel.width(), 16);
    assert_eq!(pixel.height(), 12);
    assert_eq!(pixel.get(3, 2), 203);
    assert_eq!(pixel.index(16 + 5), 105);
    println!("{:?}", &pixel.to_array()[0..4]);
}

#[test]
fn law_set_then_get() {
    let mut p = Pixel { width: 4, height: 3, data: vec![0i32; 12] };
    p.set(2, 1, 77);
    assert_eq!(p.get(2, 1), 77);
    assert_eq!(p.data[6], 77);
    assert!(p.data.iter().enumerate().all(|(i, v)| i == 6 || *v == 0));
}

#[test]
fn from_array_replaces_data() {
    let mut p = Pixel { width: 2, height: 1, data: vec![1i32, 2] };
    p.from_array(vec![9, 8, 7]);
    assert_eq!(p.to_array(), vec![9, 8, 7]);
    assert_eq!(p.width(), 2);
    assert_eq!(p.getitem_index(-2), Some(8));
    assert_eq!(p.getitem_slice(2, -1, -1), vec![7, 8, 9]);
}
