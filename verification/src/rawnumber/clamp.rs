//! Saturating conversions between integer types.
use vstd::prelude::*;

verus! {

/// The value that a saturating conversion gives: `v` pulled into `lo..=hi`.
pub open spec fn clamp_int(v: int, lo: int, hi: int) -> int {
    if v < lo {
        lo
    } else if v > hi {
        hi
    } else {
        v
    }
}

/// A value already in range is kept as it is.
pub proof fn law_clamp_keeps_in_range(v: int, lo: int, hi: int)
    requires
        lo <= v <= hi,
    ensures
        clamp_int(v, lo, hi) == v,
{
}

/// Saturating lands in range, keeps the order of values, and a second
/// saturation changes nothing.
pub proof fn law_clamp_monotone(a: int, b: int, lo: int, hi: int)
    requires
        lo <= hi,
        a <= b,
    ensures
        lo <= clamp_int(a, lo, hi) <= hi,
        clamp_int(a, lo, hi) <= clamp_int(b, lo, hi),
        clamp_int(clamp_int(a, lo, hi), lo, hi) == clamp_int(a, lo, hi),
{
}

/// An integer type seen through its mathematical value and its range.
pub trait BoundedInt: Sized {
    spec fn int_value(self) -> int;

    spec fn min_value() -> int;

    spec fn max_value() -> int;
}

impl BoundedInt for u8 {
    open spec fn int_value(self) -> int {
        self as int
    }

    open spec fn min_value() -> int {
        u8::MIN as int
    }

    open spec fn max_value() -> int {
        u8::MAX as int
    }
}

impl BoundedInt for u16 {
    open spec fn int_value(self) -> int {
        self as int
    }

    open spec fn min_value() -> int {
        u16::MIN as int
    }

    open spec fn max_value() -> int {
        u16::MAX as int
    }
}

impl BoundedInt for u32 {
    open spec fn int_value(self) -> int {
        self as int
    }

    open spec fn min_value() -> int {
        u32::MIN as int
    }

    open spec fn max_value() -> int {
        u32::MAX as int
    }
}

impl BoundedInt for u64 {
    open spec fn int_value(self) -> int {
        self as int
    }

    open spec fn min_value() -> int {
        u64::MIN as int
    }

    open spec fn max_value() -> int {
        u64::MAX as int
    }
}

impl BoundedInt for u128 {
    open spec fn int_value(self) -> int {
        self as int
    }

    open spec fn min_value() -> int {
        u128::MIN as int
    }

    open spec fn max_value() -> int {
        u128::MAX as int
    }
}

impl BoundedInt for usize {
    open spec fn int_value(self) -> int {
        self as int
    }

    open spec fn min_value() -> int {
        usize::MIN as int
    }

    open spec fn max_value() -> int {
        usize::MAX as int
    }
}

impl BoundedInt for i8 {
    open spec fn int_value(self) -> int {
        self as int
    }

    open spec fn min_value() -> int {
        i8::MIN as int
    }

    open spec fn max_value() -> int {
        i8::MAX as int
    }
}

impl BoundedInt for i16 {
    open spec fn int_value(self) -> int {
        self as int
    }

    open spec fn min_value() -> int {
        i16::MIN as int
    }

    open spec fn max_value() -> int {
        i16::MAX as int
    }
}

impl BoundedInt for i32 {
    open spec fn int_value(self) -> int {
        self as int
    }

    open spec fn min_value() -> int {
        i32::MIN as int
    }

    open spec fn max_value() -> int {
        i32::MAX as int
    }
}

impl BoundedInt for i64 {
    open spec fn int_value(self) -> int {
        self as int
    }

    open spec fn min_value() -> int {
        i64::MIN as int
    }

    open spec fn max_value() -> int {
        i64::MAX as int
    }
}

impl BoundedInt for i128 {
    open spec fn int_value(self) -> int {
        self as int
    }

    open spec fn min_value() -> int {
        i128::MIN as int
    }

    open spec fn max_value() -> int {
        i128::MAX as int
    }
}

impl BoundedInt for isize {
    open spec fn int_value(self) -> int {
        self as int
    }

    open spec fn min_value() -> int {
        isize::MIN as int
    }

    open spec fn max_value() -> int {
        isize::MAX as int
    }
}

/// A conversion that saturates: a value below the target's range becomes
/// its minimum, one above becomes its maximum, and any other keeps its value.
pub trait ClampFrom<T: BoundedInt>: BoundedInt {
    fn clamp_from(value: T) -> (r: Self)
        ensures
            r.int_value() == clamp_int(value.int_value(), Self::min_value(), Self::max_value()),
    ;
}

impl ClampFrom<u8> for u8 {
    fn clamp_from(value: u8) -> (r: u8) {
        value as u8
    }
}

impl ClampFrom<u8> for u16 {
    fn clamp_from(value: u8) -> (r: u16) {
        value as u16
    }
}

impl ClampFrom<u8> for u32 {
    fn clamp_from(value: u8) -> (r: u32) {
        value as u32
    }
}

impl ClampFrom<u8> for u64 {
    fn clamp_from(value: u8) -> (r: u64) {
        value as u64
    }
}

impl ClampFrom<u8> for u128 {
    fn clamp_from(value: u8) -> (r: u128) {
        value as u128
    }
}

impl ClampFrom<u8> for usize {
    fn clamp_from(value: u8) -> (r: usize) {
        value as usize
    }
}

impl ClampFrom<u8> for i8 {
    fn clamp_from(value: u8) -> (r: i8) {
        if value > i8::MAX as u8 {
            i8::MAX
        } else {
            value as i8
        }
    }
}

impl ClampFrom<u8> for i16 {
    fn clamp_from(value: u8) -> (r: i16) {
        value as i16
    }
}

impl ClampFrom<u8> for i32 {
    fn clamp_from(value: u8) -> (r: i32) {
        value as i32
    }
}

impl ClampFrom<u8> for i64 {
    fn clamp_from(value: u8) -> (r: i64) {
        value as i64
    }
}

impl ClampFrom<u8> for i128 {
    fn clamp_from(value: u8) -> (r: i128) {
        value as i128
    }
}

impl ClampFrom<u8> for isize {
    fn clamp_from(value: u8) -> (r: isize) {
        value as isize
    }
}

impl ClampFrom<u16> for u8 {
    fn clamp_from(value: u16) -> (r: u8) {
        if value > u8::MAX as u16 {
            u8::MAX
        } else {
            value as u8
        }
    }
}

impl ClampFrom<u16> for u16 {
    fn clamp_from(value: u16) -> (r: u16) {
        value as u16
    }
}

impl ClampFrom<u16> for u32 {
    fn clamp_from(value: u16) -> (r: u32) {
        value as u32
    }
}

impl ClampFrom<u16> for u64 {
    fn clamp_from(value: u16) -> (r: u64) {
        value as u64
    }
}

impl ClampFrom<u16> for u128 {
    fn clamp_from(value: u16) -> (r: u128) {
        value as u128
    }
}

impl ClampFrom<u16> for usize {
    fn clamp_from(value: u16) -> (r: usize) {
        value as usize
    }
}

impl ClampFrom<u16> for i8 {
    fn clamp_from(value: u16) -> (r: i8) {
        if value > i8::MAX as u16 {
            i8::MAX
        } else {
            value as i8
        }
    }
}

impl ClampFrom<u16> for i16 {
    fn clamp_from(value: u16) -> (r: i16) {
        if value > i16::MAX as u16 {
            i16::MAX
        } else {
            value as i16
        }
    }
}

impl ClampFrom<u16> for i32 {
    fn clamp_from(value: u16) -> (r: i32) {
        value as i32
    }
}

impl ClampFrom<u16> for i64 {
    fn clamp_from(value: u16) -> (r: i64) {
        value as i64
    }
}

impl ClampFrom<u16> for i128 {
    fn clamp_from(value: u16) -> (r: i128) {
        value as i128
    }
}

impl ClampFrom<u16> for isize {
    fn clamp_from(value: u16) -> (r: isize) {
        value as isize
    }
}

impl ClampFrom<u32> for u8 {
    fn clamp_from(value: u32) -> (r: u8) {
        if value > u8::MAX as u32 {
            u8::MAX
        } else {
            value as u8
        }
    }
}

impl ClampFrom<u32> for u16 {
    fn clamp_from(value: u32) -> (r: u16) {
        if value > u16::MAX as u32 {
            u16::MAX
        } else {
            value as u16
        }
    }
}

impl ClampFrom<u32> for u32 {
    fn clamp_from(value: u32) -> (r: u32) {
        value as u32
    }
}

impl ClampFrom<u32> for u64 {
    fn clamp_from(value: u32) -> (r: u64) {
        value as u64
    }
}

impl ClampFrom<u32> for u128 {
    fn clamp_from(value: u32) -> (r: u128) {
        value as u128
    }
}

impl ClampFrom<u32> for usize {
    fn clamp_from(value: u32) -> (r: usize) {
        value as usize
    }
}

impl ClampFrom<u32> for i8 {
    fn clamp_from(value: u32) -> (r: i8) {
        if value > i8::MAX as u32 {
            i8::MAX
        } else {
            value as i8
        }
    }
}

impl ClampFrom<u32> for i16 {
    fn clamp_from(value: u32) -> (r: i16) {
        if value > i16::MAX as u32 {
            i16::MAX
        } else {
            value as i16
        }
    }
}

impl ClampFrom<u32> for i32 {
    fn clamp_from(value: u32) -> (r: i32) {
        if value > i32::MAX as u32 {
            i32::MAX
        } else {
            value as i32
        }
    }
}

impl ClampFrom<u32> for i64 {
    fn clamp_from(value: u32) -> (r: i64) {
        value as i64
    }
}

impl ClampFrom<u32> for i128 {
    fn clamp_from(value: u32) -> (r: i128) {
        value as i128
    }
}

impl ClampFrom<u32> for isize {
    fn clamp_from(value: u32) -> (r: isize) {
        if (value as i128) > (isize::MAX as i128) {
            isize::MAX
        } else {
            value as isize
        }
    }
}

impl ClampFrom<u64> for u8 {
    fn clamp_from(value: u64) -> (r: u8) {
        if value > u8::MAX as u64 {
            u8::MAX
        } else {
            value as u8
        }
    }
}

impl ClampFrom<u64> for u16 {
    fn clamp_from(value: u64) -> (r: u16) {
        if value > u16::MAX as u64 {
            u16::MAX
        } else {
            value as u16
        }
    }
}

impl ClampFrom<u64> for u32 {
    fn clamp_from(value: u64) -> (r: u32) {
        if value > u32::MAX as u64 {
            u32::MAX
        } else {
            value as u32
        }
    }
}

impl ClampFrom<u64> for u64 {
    fn clamp_from(value: u64) -> (r: u64) {
        value as u64
    }
}

impl ClampFrom<u64> for u128 {
    fn clamp_from(value: u64) -> (r: u128) {
        value as u128
    }
}

impl ClampFrom<u64> for usize {
    fn clamp_from(value: u64) -> (r: usize) {
        if value > usize::MAX as u64 {
            usize::MAX
        } else {
            value as usize
        }
    }
}

impl ClampFrom<u64> for i8 {
    fn clamp_from(value: u64) -> (r: i8) {
        if value > i8::MAX as u64 {
            i8::MAX
        } else {
            value as i8
        }
    }
}

impl ClampFrom<u64> for i16 {
    fn clamp_from(value: u64) -> (r: i16) {
        if value > i16::MAX as u64 {
            i16::MAX
        } else {
            value as i16
        }
    }
}

impl ClampFrom<u64> for i32 {
    fn clamp_from(value: u64) -> (r: i32) {
        if value > i32::MAX as u64 {
            i32::MAX
        } else {
            value as i32
        }
    }
}

impl ClampFrom<u64> for i64 {
    fn clamp_from(value: u64) -> (r: i64) {
        if value > i64::MAX as u64 {
            i64::MAX
        } else {
            value as i64
        }
    }
}

impl ClampFrom<u64> for i128 {
    fn clamp_from(value: u64) -> (r: i128) {
        value as i128
    }
}

impl ClampFrom<u64> for isize {
    fn clamp_from(value: u64) -> (r: isize) {
        if value > isize::MAX as u64 {
            isize::MAX
        } else {
            value as isize
        }
    }
}

impl ClampFrom<u128> for u8 {
    fn clamp_from(value: u128) -> (r: u8) {
        if value > u8::MAX as u128 {
            u8::MAX
        } else {
            value as u8
        }
    }
}

impl ClampFrom<u128> for u16 {
    fn clamp_from(value: u128) -> (r: u16) {
        if value > u16::MAX as u128 {
            u16::MAX
        } else {
            value as u16
        }
    }
}

impl ClampFrom<u128> for u32 {
    fn clamp_from(value: u128) -> (r: u32) {
        if value > u32::MAX as u128 {
            u32::MAX
        } else {
            value as u32
        }
    }
}

impl ClampFrom<u128> for u64 {
    fn clamp_from(value: u128) -> (r: u64) {
        if value > u64::MAX as u128 {
            u64::MAX
        } else {
            value as u64
        }
    }
}

impl ClampFrom<u128> for u128 {
    fn clamp_from(value: u128) -> (r: u128) {
        value as u128
    }
}

impl ClampFrom<u128> for usize {
    fn clamp_from(value: u128) -> (r: usize) {
        if value > usize::MAX as u128 {
            usize::MAX
        } else {
            value as usize
        }
    }
}

impl ClampFrom<u128> for i8 {
    fn clamp_from(value: u128) -> (r: i8) {
        if value > i8::MAX as u128 {
            i8::MAX
        } else {
            value as i8
        }
    }
}

impl ClampFrom<u128> for i16 {
    fn clamp_from(value: u128) -> (r: i16) {
        if value > i16::MAX as u128 {
            i16::MAX
        } else {
            value as i16
        }
    }
}

impl ClampFrom<u128> for i32 {
    fn clamp_from(value: u128) -> (r: i32) {
        if value > i32::MAX as u128 {
            i32::MAX
        } else {
            value as i32
        }
    }
}

impl ClampFrom<u128> for i64 {
    fn clamp_from(value: u128) -> (r: i64) {
        if value > i64::MAX as u128 {
            i64::MAX
        } else {
            value as i64
        }
    }
}

impl ClampFrom<u128> for i128 {
    fn clamp_from(value: u128) -> (r: i128) {
        if value > i128::MAX as u128 {
            i128::MAX
        } else {
            value as i128
        }
    }
}

impl ClampFrom<u128> for isize {
    fn clamp_from(value: u128) -> (r: isize) {
        if value > isize::MAX as u128 {
            isize::MAX
        } else {
            value as isize
        }
    }
}

impl ClampFrom<usize> for u8 {
    fn clamp_from(value: usize) -> (r: u8) {
        if value > u8::MAX as usize {
            u8::MAX
        } else {
            value as u8
        }
    }
}

impl ClampFrom<usize> for u16 {
    fn clamp_from(value: usize) -> (r: u16) {
        if value > u16::MAX as usize {
            u16::MAX
        } else {
            value as u16
        }
    }
}

impl ClampFrom<usize> for u32 {
    fn clamp_from(value: usize) -> (r: u32) {
        if value > u32::MAX as usize {
            u32::MAX
        } else {
            value as u32
        }
    }
}

impl ClampFrom<usize> for u64 {
    fn clamp_from(value: usize) -> (r: u64) {
        value as u64
    }
}

impl ClampFrom<usize> for u128 {
    fn clamp_from(value: usize) -> (r: u128) {
        value as u128
    }
}

impl ClampFrom<usize> for usize {
    fn clamp_from(value: usize) -> (r: usize) {
        value as usize
    }
}

impl ClampFrom<usize> for i8 {
    fn clamp_from(value: usize) -> (r: i8) {
        if value > i8::MAX as usize {
            i8::MAX
        } else {
            value as i8
        }
    }
}

impl ClampFrom<usize> for i16 {
    fn clamp_from(value: usize) -> (r: i16) {
        if value > i16::MAX as usize {
            i16::MAX
        } else {
            value as i16
        }
    }
}

impl ClampFrom<usize> for i32 {
    fn clamp_from(value: usize) -> (r: i32) {
        if value > i32::MAX as usize {
            i32::MAX
        } else {
            value as i32
        }
    }
}

impl ClampFrom<usize> for i64 {
    fn clamp_from(value: usize) -> (r: i64) {
        if (value as i128) > (i64::MAX as i128) {
            i64::MAX
        } else {
            value as i64
        }
    }
}

impl ClampFrom<usize> for i128 {
    fn clamp_from(value: usize) -> (r: i128) {
        value as i128
    }
}

impl ClampFrom<usize> for isize {
    fn clamp_from(value: usize) -> (r: isize) {
        if value > isize::MAX as usize {
            isize::MAX
        } else {
            value as isize
        }
    }
}

impl ClampFrom<i8> for u8 {
    fn clamp_from(value: i8) -> (r: u8) {
        if value < 0 {
            u8::MIN
        } else {
            value as u8
        }
    }
}

impl ClampFrom<i8> for u16 {
    fn clamp_from(value: i8) -> (r: u16) {
        if value < 0 {
            u16::MIN
        } else {
            value as u16
        }
    }
}

impl ClampFrom<i8> for u32 {
    fn clamp_from(value: i8) -> (r: u32) {
        if value < 0 {
            u32::MIN
        } else {
            value as u32
        }
    }
}

impl ClampFrom<i8> for u64 {
    fn clamp_from(value: i8) -> (r: u64) {
        if value < 0 {
            u64::MIN
        } else {
            value as u64
        }
    }
}

impl ClampFrom<i8> for u128 {
    fn clamp_from(value: i8) -> (r: u128) {
        if value < 0 {
            u128::MIN
        } else {
            value as u128
        }
    }
}

impl ClampFrom<i8> for usize {
    fn clamp_from(value: i8) -> (r: usize) {
        if value < 0 {
            usize::MIN
        } else {
            value as usize
        }
    }
}

impl ClampFrom<i8> for i8 {
    fn clamp_from(value: i8) -> (r: i8) {
        value as i8
    }
}

impl ClampFrom<i8> for i16 {
    fn clamp_from(value: i8) -> (r: i16) {
        value as i16
    }
}

impl ClampFrom<i8> for i32 {
    fn clamp_from(value: i8) -> (r: i32) {
        value as i32
    }
}

impl ClampFrom<i8> for i64 {
    fn clamp_from(value: i8) -> (r: i64) {
        value as i64
    }
}

impl ClampFrom<i8> for i128 {
    fn clamp_from(value: i8) -> (r: i128) {
        value as i128
    }
}

impl ClampFrom<i8> for isize {
    fn clamp_from(value: i8) -> (r: isize) {
        value as isize
    }
}

impl ClampFrom<i16> for u8 {
    fn clamp_from(value: i16) -> (r: u8) {
        if value < 0 {
            u8::MIN
        } else if value > u8::MAX as i16 {
            u8::MAX
        } else {
            value as u8
        }
    }
}

impl ClampFrom<i16> for u16 {
    fn clamp_from(value: i16) -> (r: u16) {
        if value < 0 {
            u16::MIN
        } else {
            value as u16
        }
    }
}

impl ClampFrom<i16> for u32 {
    fn clamp_from(value: i16) -> (r: u32) {
        if value < 0 {
            u32::MIN
        } else {
            value as u32
        }
    }
}

impl ClampFrom<i16> for u64 {
    fn clamp_from(value: i16) -> (r: u64) {
        if value < 0 {
            u64::MIN
        } else {
            value as u64
        }
    }
}

impl ClampFrom<i16> for u128 {
    fn clamp_from(value: i16) -> (r: u128) {
        if value < 0 {
            u128::MIN
        } else {
            value as u128
        }
    }
}

impl ClampFrom<i16> for usize {
    fn clamp_from(value: i16) -> (r: usize) {
        if value < 0 {
            usize::MIN
        } else {
            value as usize
        }
    }
}

impl ClampFrom<i16> for i8 {
    fn clamp_from(value: i16) -> (r: i8) {
        if value < i8::MIN as i16 {
            i8::MIN
        } else if value > i8::MAX as i16 {
            i8::MAX
        } else {
            value as i8
        }
    }
}

impl ClampFrom<i16> for i16 {
    fn clamp_from(value: i16) -> (r: i16) {
        value as i16
    }
}

impl ClampFrom<i16> for i32 {
    fn clamp_from(value: i16) -> (r: i32) {
        value as i32
    }
}

impl ClampFrom<i16> for i64 {
    fn clamp_from(value: i16) -> (r: i64) {
        value as i64
    }
}

impl ClampFrom<i16> for i128 {
    fn clamp_from(value: i16) -> (r: i128) {
        value as i128
    }
}

impl ClampFrom<i16> for isize {
    fn clamp_from(value: i16) -> (r: isize) {
        value as isize
    }
}

impl ClampFrom<i32> for u8 {
    fn clamp_from(value: i32) -> (r: u8) {
        if value < 0 {
            u8::MIN
        } else if value > u8::MAX as i32 {
            u8::MAX
        } else {
            value as u8
        }
    }
}

impl ClampFrom<i32> for u16 {
    fn clamp_from(value: i32) -> (r: u16) {
        if value < 0 {
            u16::MIN
        } else if value > u16::MAX as i32 {
            u16::MAX
        } else {
            value as u16
        }
    }
}

impl ClampFrom<i32> for u32 {
    fn clamp_from(value: i32) -> (r: u32) {
        if value < 0 {
            u32::MIN
        } else {
            value as u32
        }
    }
}

impl ClampFrom<i32> for u64 {
    fn clamp_from(value: i32) -> (r: u64) {
        if value < 0 {
            u64::MIN
        } else {
            value as u64
        }
    }
}

impl ClampFrom<i32> for u128 {
    fn clamp_from(value: i32) -> (r: u128) {
        if value < 0 {
            u128::MIN
        } else {
            value as u128
        }
    }
}

impl ClampFrom<i32> for usize {
    fn clamp_from(value: i32) -> (r: usize) {
        if value < 0 {
            usize::MIN
        } else {
            value as usize
        }
    }
}

impl ClampFrom<i32> for i8 {
    fn clamp_from(value: i32) -> (r: i8) {
        if value < i8::MIN as i32 {
            i8::MIN
        } else if value > i8::MAX as i32 {
            i8::MAX
        } else {
            value as i8
        }
    }
}

impl ClampFrom<i32> for i16 {
    fn clamp_from(value: i32) -> (r: i16) {
        if value < i16::MIN as i32 {
            i16::MIN
        } else if value > i16::MAX as i32 {
            i16::MAX
        } else {
            value as i16
        }
    }
}

impl ClampFrom<i32> for i32 {
    fn clamp_from(value: i32) -> (r: i32) {
        value as i32
    }
}

impl ClampFrom<i32> for i64 {
    fn clamp_from(value: i32) -> (r: i64) {
        value as i64
    }
}

impl ClampFrom<i32> for i128 {
    fn clamp_from(value: i32) -> (r: i128) {
        value as i128
    }
}

impl ClampFrom<i32> for isize {
    fn clamp_from(value: i32) -> (r: isize) {
        value as isize
    }
}

impl ClampFrom<i64> for u8 {
    fn clamp_from(value: i64) -> (r: u8) {
        if value < 0 {
            u8::MIN
        } else if value > u8::MAX as i64 {
            u8::MAX
        } else {
            value as u8
        }
    }
}

impl ClampFrom<i64> for u16 {
    fn clamp_from(value: i64) -> (r: u16) {
        if value < 0 {
            u16::MIN
        } else if value > u16::MAX as i64 {
            u16::MAX
        } else {
            value as u16
        }
    }
}

impl ClampFrom<i64> for u32 {
    fn clamp_from(value: i64) -> (r: u32) {
        if value < 0 {
            u32::MIN
        } else if value > u32::MAX as i64 {
            u32::MAX
        } else {
            value as u32
        }
    }
}

impl ClampFrom<i64> for u64 {
    fn clamp_from(value: i64) -> (r: u64) {
        if value < 0 {
            u64::MIN
        } else {
            value as u64
        }
    }
}

impl ClampFrom<i64> for u128 {
    fn clamp_from(value: i64) -> (r: u128) {
        if value < 0 {
            u128::MIN
        } else {
            value as u128
        }
    }
}

impl ClampFrom<i64> for usize {
    fn clamp_from(value: i64) -> (r: usize) {
        if value < 0 {
            usize::MIN
        } else if (value as i128) > (usize::MAX as i128) {
            usize::MAX
        } else {
            value as usize
        }
    }
}

impl ClampFrom<i64> for i8 {
    fn clamp_from(value: i64) -> (r: i8) {
        if value < i8::MIN as i64 {
            i8::MIN
        } else if value > i8::MAX as i64 {
            i8::MAX
        } else {
            value as i8
        }
    }
}

impl ClampFrom<i64> for i16 {
    fn clamp_from(value: i64) -> (r: i16) {
        if value < i16::MIN as i64 {
            i16::MIN
        } else if value > i16::MAX as i64 {
            i16::MAX
        } else {
            value as i16
        }
    }
}

impl ClampFrom<i64> for i32 {
    fn clamp_from(value: i64) -> (r: i32) {
        if value < i32::MIN as i64 {
            i32::MIN
        } else if value > i32::MAX as i64 {
            i32::MAX
        } else {
            value as i32
        }
    }
}

impl ClampFrom<i64> for i64 {
    fn clamp_from(value: i64) -> (r: i64) {
        value as i64
    }
}

impl ClampFrom<i64> for i128 {
    fn clamp_from(value: i64) -> (r: i128) {
        value as i128
    }
}

impl ClampFrom<i64> for isize {
    fn clamp_from(value: i64) -> (r: isize) {
        if value < isize::MIN as i64 {
            isize::MIN
        } else if value > isize::MAX as i64 {
            isize::MAX
        } else {
            value as isize
        }
    }
}

impl ClampFrom<i128> for u8 {
    fn clamp_from(value: i128) -> (r: u8) {
        if value < 0 {
            u8::MIN
        } else if value > u8::MAX as i128 {
            u8::MAX
        } else {
            value as u8
        }
    }
}

impl ClampFrom<i128> for u16 {
    fn clamp_from(value: i128) -> (r: u16) {
        if value < 0 {
            u16::MIN
        } else if value > u16::MAX as i128 {
            u16::MAX
        } else {
            value as u16
        }
    }
}

impl ClampFrom<i128> for u32 {
    fn clamp_from(value: i128) -> (r: u32) {
        if value < 0 {
            u32::MIN
        } else if value > u32::MAX as i128 {
            u32::MAX
        } else {
            value as u32
        }
    }
}

impl ClampFrom<i128> for u64 {
    fn clamp_from(value: i128) -> (r: u64) {
        if value < 0 {
            u64::MIN
        } else if value > u64::MAX as i128 {
            u64::MAX
        } else {
            value as u64
        }
    }
}

impl ClampFrom<i128> for u128 {
    fn clamp_from(value: i128) -> (r: u128) {
        if value < 0 {
            u128::MIN
        } else {
            value as u128
        }
    }
}

impl ClampFrom<i128> for usize {
    fn clamp_from(value: i128) -> (r: usize) {
        if value < 0 {
            usize::MIN
        } else if value > usize::MAX as i128 {
            usize::MAX
        } else {
            value as usize
        }
    }
}

impl ClampFrom<i128> for i8 {
    fn clamp_from(value: i128) -> (r: i8) {
        if value < i8::MIN as i128 {
            i8::MIN
        } else if value > i8::MAX as i128 {
            i8::MAX
        } else {
            value as i8
        }
    }
}

impl ClampFrom<i128> for i16 {
    fn clamp_from(value: i128) -> (r: i16) {
        if value < i16::MIN as i128 {
            i16::MIN
        } else if value > i16::MAX as i128 {
            i16::MAX
        } else {
            value as i16
        }
    }
}

impl ClampFrom<i128> for i32 {
    fn clamp_from(value: i128) -> (r: i32) {
        if value < i32::MIN as i128 {
            i32::MIN
        } else if value > i32::MAX as i128 {
            i32::MAX
        } else {
            value as i32
        }
    }
}

impl ClampFrom<i128> for i64 {
    fn clamp_from(value: i128) -> (r: i64) {
        if value < i64::MIN as i128 {
            i64::MIN
        } else if value > i64::MAX as i128 {
            i64::MAX
        } else {
            value as i64
        }
    }
}

impl ClampFrom<i128> for i128 {
    fn clamp_from(value: i128) -> (r: i128) {
        value as i128
    }
}

impl ClampFrom<i128> for isize {
    fn clamp_from(value: i128) -> (r: isize) {
        if value < isize::MIN as i128 {
            isize::MIN
        } else if value > isize::MAX as i128 {
            isize::MAX
        } else {
            value as isize
        }
    }
}

impl ClampFrom<isize> for u8 {
    fn clamp_from(value: isize) -> (r: u8) {
        if value < 0 {
            u8::MIN
        } else if value > u8::MAX as isize {
            u8::MAX
        } else {
            value as u8
        }
    }
}

impl ClampFrom<isize> for u16 {
    fn clamp_from(value: isize) -> (r: u16) {
        if value < 0 {
            u16::MIN
        } else if value > u16::MAX as isize {
            u16::MAX
        } else {
            value as u16
        }
    }
}

impl ClampFrom<isize> for u32 {
    fn clamp_from(value: isize) -> (r: u32) {
        if value < 0 {
            u32::MIN
        } else if (value as i128) > (u32::MAX as i128) {
            u32::MAX
        } else {
            value as u32
        }
    }
}

impl ClampFrom<isize> for u64 {
    fn clamp_from(value: isize) -> (r: u64) {
        if value < 0 {
            u64::MIN
        } else {
            value as u64
        }
    }
}

impl ClampFrom<isize> for u128 {
    fn clamp_from(value: isize) -> (r: u128) {
        if value < 0 {
            u128::MIN
        } else {
            value as u128
        }
    }
}

impl ClampFrom<isize> for usize {
    fn clamp_from(value: isize) -> (r: usize) {
        if value < 0 {
            usize::MIN
        } else {
            value as usize
        }
    }
}

impl ClampFrom<isize> for i8 {
    fn clamp_from(value: isize) -> (r: i8) {
        if value < i8::MIN as isize {
            i8::MIN
        } else if value > i8::MAX as isize {
            i8::MAX
        } else {
            value as i8
        }
    }
}

impl ClampFrom<isize> for i16 {
    fn clamp_from(value: isize) -> (r: i16) {
        if value < i16::MIN as isize {
            i16::MIN
        } else if value > i16::MAX as isize {
            i16::MAX
        } else {
            value as i16
        }
    }
}

impl ClampFrom<isize> for i32 {
    fn clamp_from(value: isize) -> (r: i32) {
        if value < i32::MIN as isize {
            i32::MIN
        } else if value > i32::MAX as isize {
            i32::MAX
        } else {
            value as i32
        }
    }
}

impl ClampFrom<isize> for i64 {
    fn clamp_from(value: isize) -> (r: i64) {
        value as i64
    }
}

impl ClampFrom<isize> for i128 {
    fn clamp_from(value: isize) -> (r: i128) {
        value as i128
    }
}

impl ClampFrom<isize> for isize {
    fn clamp_from(value: isize) -> (r: isize) {
        value as isize
    }
}

} // verus!
