use hraw::rawnumber::ClampFrom;

#[test]
fn simple_clamp() {
    let dst = i32::clamp_from(3u8);
    println!("{:?}", dst);
    assert_eq!(dst, 3);
    let dst = i32::clamp_from(i16::MAX);
    println!("{:?}", dst);
    assert_eq!(dst, 32767);

    println!("{} {}", i64::MAX, i64::MAX as f64);
}

#[test]
fn clamp_saturates_at_both_bounds() {
    assert_eq!(u8::clamp_from(300i32), 255);
    assert_eq!(u8::clamp_from(-5i32), 0);
    assert_eq!(u8::clamp_from(200i32), 200);
    assert_eq!(i8::clamp_from(u128::MAX), 127);
    assert_eq!(i8::clamp_from(i128::MIN), -128);
    assert_eq!(u32::clamp_from(i64::MAX), u32::MAX);
    assert_eq!(u32::clamp_from(-1i64), 0);
    assert_eq!(i32::clamp_from(u64::MAX), i32::MAX);
    assert_eq!(i32::clamp_from(i64::MIN), i32::MIN);
    assert_eq!(i32::clamp_from(-7i64), -7);
    assert_eq!(u64::clamp_from(-1isize), 0);
    assert_eq!(usize::clamp_from(u128::MAX), usize::MAX);
    assert_eq!(isize::clamp_from(usize::MAX), isize::MAX);
    assert_eq!(i128::clamp_from(u128::MAX), i128::MAX);
    assert_eq!(u128::clamp_from(i128::MIN), 0);
    assert_eq!(u16::clamp_from(u16::MAX), u16::MAX);
}

#[test]
fn clamp_widening_is_exact() {
    assert_eq!(i64::clamp_from(i32::MIN), i32::MIN as i64);
    assert_eq!(u128::clamp_from(u64::MAX), u64::MAX as u128);
    assert_eq!(i16::clamp_from(255u8), 255);
    assert_eq!(i128::clamp_from(isize::MIN), isize::MIN as i128);
}

#[test]
fn clamp_law_in_range_values_kept() {
    for v in [-129i32, -128, -1, 0, 1, 127, 128] {
        let r = i8::clamp_from(v);
        assert_eq!(r as i32, v.clamp(-128, 127));
    }
    for v in [0u64, 1, 255, 256, u64::MAX] {
        let r = u8::clamp_from(v);
        assert_eq!(r as u64, v.min(255));
    }
}
