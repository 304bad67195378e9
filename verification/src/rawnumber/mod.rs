//! Sample layouts and reading one sample from bytes.
pub mod clamp;
pub mod ieee;

pub use clamp::{clamp_int, BoundedInt, ClampFrom};

use vstd::prelude::*;

verus! {

/// How the samples of a raw body are stored: byte order, then type.
/// `unknown` means that a decoder script reads the body instead.
#[allow(non_camel_case_types)]
#[derive(Debug, Clone, Copy, PartialEq, Eq, Structural)]
pub enum BitField {
    le_u8,
    be_u8,
    le_i8,
    be_i8,
    le_u16,
    be_u16,
    le_i16,
    be_i16,
    le_u32,
    be_u32,
    le_i32,
    be_i32,
    le_u64,
    be_u64,
    le_i64,
    be_i64,
    le_f32,
    be_f32,
    le_f64,
    be_f64,
    unknown,
}

/// `256` to the power `n`.
pub open spec fn pow256(n: nat) -> nat
    decreases n,
{
    if n == 0 {
        1
    } else {
        256 * pow256((n - 1) as nat)
    }
}

/// The unsigned number that `b` stores with its least significant byte first.
pub open spec fn le_value(b: Seq<u8>) -> nat
    decreases b.len(),
{
    if b.len() == 0 {
        0
    } else {
        b[0] as nat + 256 * le_value(b.drop_first())
    }
}

/// The unsigned number that `b` stores with its most significant byte first.
pub open spec fn be_value(b: Seq<u8>) -> nat
    decreases b.len(),
{
    if b.len() == 0 {
        0
    } else {
        256 * be_value(b.drop_last()) + b.last() as nat
    }
}

/// The two's complement reading of the `n`-byte unsigned number `u`.
pub open spec fn signed_value(u: int, n: nat) -> int {
    if u >= pow256(n) / 2 {
        u - pow256(n)
    } else {
        u
    }
}

impl BitField {
    /// The number of bytes that one sample takes (none for `unknown`).
    pub open spec fn spec_size(self) -> nat {
        match self {
            BitField::le_u8 | BitField::be_u8 | BitField::le_i8 | BitField::be_i8 => 1,
            BitField::le_u16 | BitField::be_u16 | BitField::le_i16 | BitField::be_i16 => 2,
            BitField::le_u32 | BitField::be_u32 | BitField::le_i32 | BitField::be_i32
            | BitField::le_f32 | BitField::be_f32 => 4,
            BitField::le_u64 | BitField::be_u64 | BitField::le_i64 | BitField::be_i64
            | BitField::le_f64 | BitField::be_f64 => 8,
            BitField::unknown => 0,
        }
    }

    pub open spec fn is_integer(self) -> bool {
        self.spec_size() > 0 && !self.is_float()
    }

    pub open spec fn is_float(self) -> bool {
        match self {
            BitField::le_f32 | BitField::be_f32 | BitField::le_f64 | BitField::be_f64 => true,
            _ => false,
        }
    }

    pub open spec fn is_little_endian(self) -> bool {
        match self {
            BitField::le_u8 | BitField::le_i8 | BitField::le_u16 | BitField::le_i16
            | BitField::le_u32 | BitField::le_i32 | BitField::le_u64 | BitField::le_i64
            | BitField::le_f32 | BitField::le_f64 => true,
            _ => false,
        }
    }

    pub open spec fn is_signed(self) -> bool {
        match self {
            BitField::le_i8 | BitField::be_i8 | BitField::le_i16 | BitField::be_i16
            | BitField::le_i32 | BitField::be_i32 | BitField::le_i64 | BitField::be_i64 => true,
            _ => false,
        }
    }

    /// The unsigned number that the bytes of one sample spell in this byte order.
    pub open spec fn unsigned_value(self, b: Seq<u8>) -> nat {
        if self.is_little_endian() {
            le_value(b)
        } else {
            be_value(b)
        }
    }

    /// The integer that the bytes of one sample of an integer field stand for.
    pub open spec fn spec_value(self, b: Seq<u8>) -> int {
        if self.is_signed() {
            signed_value(self.unsigned_value(b) as int, self.spec_size())
        } else {
            self.unsigned_value(b) as int
        }
    }

    /// The number of bytes that one sample takes.
    pub fn size(&self) -> (r: usize)
        ensures
            r == self.spec_size(),
    {
        match self {
            BitField::le_u8 | BitField::be_u8 | BitField::le_i8 | BitField::be_i8 => 1,
            BitField::le_u16 | BitField::be_u16 | BitField::le_i16 | BitField::be_i16 => 2,
            BitField::le_u32 | BitField::be_u32 | BitField::le_i32 | BitField::be_i32
            | BitField::le_f32 | BitField::be_f32 => 4,
            BitField::le_u64 | BitField::be_u64 | BitField::le_i64 | BitField::be_i64
            | BitField::le_f64 | BitField::be_f64 => 8,
            BitField::unknown => 0,
        }
    }
}

/// Reading bytes most significant first gives the number that reading them
/// in the reverse order, least significant first, gives.
pub proof fn law_be_is_reversed_le(b: Seq<u8>)
    ensures
        be_value(b) == le_value(b.reverse()),
    decreases b.len(),
{
    if b.len() > 0 {
        law_be_is_reversed_le(b.drop_last());
        assert(b.reverse().drop_first() =~= b.drop_last().reverse());
        assert(b.reverse()[0] == b.last());
    }
}

/// The unsigned reading of `n` bytes is below `256^n`, in either byte order.
pub proof fn law_unsigned_value_bound(bitfield: BitField, b: Seq<u8>)
    ensures
        bitfield.unsigned_value(b) < pow256(b.len()),
    decreases b.len(),
{
    lemma_le_value_bound(b);
    lemma_be_value_bound(b);
}

proof fn lemma_le_value_bound(b: Seq<u8>)
    ensures
        le_value(b) < pow256(b.len()),
    decreases b.len(),
{
    if b.len() > 0 {
        lemma_le_value_bound(b.drop_first());
    }
}

proof fn lemma_be_value_bound(b: Seq<u8>)
    ensures
        be_value(b) < pow256(b.len()),
    decreases b.len(),
{
    if b.len() > 0 {
        lemma_be_value_bound(b.drop_last());
    }
}

/// The two's complement reading of an `n`-byte number lies in the signed
/// range of `n` bytes and is the number itself modulo `256^n`.
pub proof fn law_signed_value_range(u: int, n: nat)
    requires
        n > 0,
        0 <= u < pow256(n),
    ensures
        -(pow256(n) / 2) <= signed_value(u, n) < pow256(n) / 2,
        (signed_value(u, n) - u) % (pow256(n) as int) == 0,
{
    assert(pow256(n) == 256 * pow256((n - 1) as nat));
    assert(pow256(n) % 2 == 0);
    if u >= pow256(n) / 2 {
        assert((signed_value(u, n) - u) == -1 * (pow256(n) as int));
        vstd::arithmetic::div_mod::lemma_mod_multiples_basic(-1, pow256(n) as int);
    } else {
        vstd::arithmetic::div_mod::lemma_mod_multiples_basic(0, pow256(n) as int);
    }
}

pub(crate) proof fn lemma_pow256_values()
    ensures
        pow256(1) == 0x100,
        pow256(2) == 0x1_0000,
        pow256(4) == 0x1_0000_0000,
        pow256(7) == 0x100_0000_0000_0000,
        pow256(8) == 0x1_0000_0000_0000_0000,
{
    reveal_with_fuel(pow256, 9);
}

proof fn lemma_pow256_mono(a: nat, b: nat)
    requires
        a <= b,
    ensures
        pow256(a) <= pow256(b),
    decreases b,
{
    if a < b {
        lemma_pow256_mono(a, (b - 1) as nat);
    }
}

proof fn lemma_le_value_step(b: Seq<u8>, i: int, j: int)
    requires
        0 <= i < j <= b.len(),
    ensures
        le_value(b.subrange(i, j)) == b[i] as nat + 256 * le_value(b.subrange(i + 1, j)),
{
    assert(b.subrange(i, j).drop_first() =~= b.subrange(i + 1, j));
}

proof fn lemma_be_value_step(b: Seq<u8>, i: int, j: int)
    requires
        0 <= i < j <= b.len(),
    ensures
        be_value(b.subrange(i, j)) == 256 * be_value(b.subrange(i, j - 1)) + b[j - 1] as nat,
{
    assert(b.subrange(i, j).drop_last() =~= b.subrange(i, j - 1));
}

/// Reads `n` bytes from `start` as an unsigned little-endian number.
pub(crate) fn read_le(bytes: &[u8], start: usize, n: usize) -> (r: u64)
    requires
        n <= 8,
        start + n <= bytes@.len(),
    ensures
        r as int == le_value(bytes@.subrange(start as int, start + n)),
        (r as int) < pow256(n as nat),
{
    let len = bytes.len();
    let mut acc: u64 = 0;
    let mut k: usize = n;
    proof {
        assert(bytes@.subrange(start + n, start + n as int) =~= Seq::<u8>::empty());
    }
    while k > 0
        invariant
            k <= n <= 8,
            start + n <= len,
            len == bytes@.len(),
            acc as int == le_value(bytes@.subrange(start + k, start + n)),
            (acc as int) < pow256((n - k) as nat),
        decreases k,
    {
        k = k - 1;
        proof {
            lemma_le_value_step(bytes@, start + k, start + n);
            lemma_pow256_mono((n - k - 1) as nat, 7);
            lemma_pow256_values();
        }
        acc = acc * 256 + bytes[start + k] as u64;
    }
    acc
}

/// Reads `n` bytes from `start` as an unsigned big-endian number.
pub(crate) fn read_be(bytes: &[u8], start: usize, n: usize) -> (r: u64)
    requires
        n <= 8,
        start + n <= bytes@.len(),
    ensures
        r as int == be_value(bytes@.subrange(start as int, start + n)),
        (r as int) < pow256(n as nat),
{
    let len = bytes.len();
    let mut acc: u64 = 0;
    let mut k: usize = 0;
    proof {
        assert(bytes@.subrange(start as int, start as int) =~= Seq::<u8>::empty());
    }
    while k < n
        invariant
            k <= n <= 8,
            start + n <= len,
            len == bytes@.len(),
            acc as int == be_value(bytes@.subrange(start as int, start + k)),
            (acc as int) < pow256(k as nat),
        decreases n - k,
    {
        proof {
            lemma_be_value_step(bytes@, start as int, start + k + 1);
            lemma_pow256_mono(k as nat, 7);
            lemma_pow256_values();
        }
        acc = acc * 256 + bytes[start + k] as u64;
        k = k + 1;
    }
    acc
}


/// Takes the `n`-byte unsigned number `u` as a two's complement one.
fn signed_from(u: u64, n: usize) -> (r: i64)
    requires
        n == 1 || n == 2 || n == 4 || n == 8,
        (u as int) < pow256(n as nat),
    ensures
        r as int == signed_value(u as int, n as nat),
        -(pow256(n as nat) / 2) <= r < pow256(n as nat) / 2,
{
    proof {
        lemma_pow256_values();
    }
    if n == 8 {
        if u >= 0x8000_0000_0000_0000 {
            ((u - 0x8000_0000_0000_0000) as i64) - 0x7fff_ffff_ffff_ffff - 1
        } else {
            u as i64
        }
    } else {
        let full: u64 = if n == 1 {
            0x100
        } else if n == 2 {
            0x1_0000
        } else {
            0x1_0000_0000
        };
        if u >= full / 2 {
            u as i64 - full as i64
        } else {
            u as i64
        }
    }
}

/// A sample type of a raw body: its field kind, and how one sample is read.
pub trait RawNumber {
    type Item: BoundedInt + Copy;

    spec fn spec_bitfield() -> BitField;

    proof fn lemma_integer_field()
        ensures
            Self::spec_bitfield().is_integer(),
    ;

    fn bitfield() -> (b: BitField)
        ensures
            b == Self::spec_bitfield(),
    ;

    /// Reads the sample whose bytes start at `start`.
    fn decode(bytes: &[u8], start: usize) -> (r: Self::Item)
        requires
            start + Self::spec_bitfield().spec_size() <= bytes@.len(),
        ensures
            r.int_value() == Self::spec_bitfield().spec_value(
                bytes@.subrange(start as int, start + Self::spec_bitfield().spec_size()),
            ),
    ;
}

#[allow(non_camel_case_types)]
pub struct le_u8 {}

impl RawNumber for le_u8 {
    type Item = u8;

    open spec fn spec_bitfield() -> BitField {
        BitField::le_u8
    }

    proof fn lemma_integer_field() {
    }

    fn bitfield() -> (b: BitField) {
        BitField::le_u8
    }

    fn decode(bytes: &[u8], start: usize) -> (r: u8) {
        proof {
            lemma_pow256_values();
        }
        read_le(bytes, start, 1) as u8
    }
}

#[allow(non_camel_case_types)]
pub struct be_u8 {}

impl RawNumber for be_u8 {
    type Item = u8;

    open spec fn spec_bitfield() -> BitField {
        BitField::be_u8
    }

    proof fn lemma_integer_field() {
    }

    fn bitfield() -> (b: BitField) {
        BitField::be_u8
    }

    fn decode(bytes: &[u8], start: usize) -> (r: u8) {
        proof {
            lemma_pow256_values();
        }
        read_be(bytes, start, 1) as u8
    }
}

#[allow(non_camel_case_types)]
pub struct le_i8 {}

impl RawNumber for le_i8 {
    type Item = i8;

    open spec fn spec_bitfield() -> BitField {
        BitField::le_i8
    }

    proof fn lemma_integer_field() {
    }

    fn bitfield() -> (b: BitField) {
        BitField::le_i8
    }

    fn decode(bytes: &[u8], start: usize) -> (r: i8) {
        proof {
            lemma_pow256_values();
        }
        signed_from(read_le(bytes, start, 1), 1) as i8
    }
}

#[allow(non_camel_case_types)]
pub struct be_i8 {}

impl RawNumber for be_i8 {
    type Item = i8;

    open spec fn spec_bitfield() -> BitField {
        BitField::be_i8
    }

    proof fn lemma_integer_field() {
    }

    fn bitfield() -> (b: BitField) {
        BitField::be_i8
    }

    fn decode(bytes: &[u8], start: usize) -> (r: i8) {
        proof {
            lemma_pow256_values();
        }
        signed_from(read_be(bytes, start, 1), 1) as i8
    }
}

#[allow(non_camel_case_types)]
pub struct le_u16 {}

impl RawNumber for le_u16 {
    type Item = u16;

    open spec fn spec_bitfield() -> BitField {
        BitField::le_u16
    }

    proof fn lemma_integer_field() {
    }

    fn bitfield() -> (b: BitField) {
        BitField::le_u16
    }

    fn decode(bytes: &[u8], start: usize) -> (r: u16) {
        proof {
            lemma_pow256_values();
        }
        read_le(bytes, start, 2) as u16
    }
}

#[allow(non_camel_case_types)]
pub struct be_u16 {}

impl RawNumber for be_u16 {
    type Item = u16;

    open spec fn spec_bitfield() -> BitField {
        BitField::be_u16
    }

    proof fn lemma_integer_field() {
    }

    fn bitfield() -> (b: BitField) {
        BitField::be_u16
    }

    fn decode(bytes: &[u8], start: usize) -> (r: u16) {
        proof {
            lemma_pow256_values();
        }
        read_be(bytes, start, 2) as u16
    }
}

#[allow(non_camel_case_types)]
pub struct le_i16 {}

impl RawNumber for le_i16 {
    type Item = i16;

    open spec fn spec_bitfield() -> BitField {
        BitField::le_i16
    }

    proof fn lemma_integer_field() {
    }

    fn bitfield() -> (b: BitField) {
        BitField::le_i16
    }

    fn decode(bytes: &[u8], start: usize) -> (r: i16) {
        proof {
            lemma_pow256_values();
        }
        signed_from(read_le(bytes, start, 2), 2) as i16
    }
}

#[allow(non_camel_case_types)]
pub struct be_i16 {}

impl RawNumber for be_i16 {
    type Item = i16;

    open spec fn spec_bitfield() -> BitField {
        BitField::be_i16
    }

    proof fn lemma_integer_field() {
    }

    fn bitfield() -> (b: BitField) {
        BitField::be_i16
    }

    fn decode(bytes: &[u8], start: usize) -> (r: i16) {
        proof {
            lemma_pow256_values();
        }
        signed_from(read_be(bytes, start, 2), 2) as i16
    }
}

#[allow(non_camel_case_types)]
pub struct le_u32 {}

impl RawNumber for le_u32 {
    type Item = u32;

    open spec fn spec_bitfield() -> BitField {
        BitField::le_u32
    }

    proof fn lemma_integer_field() {
    }

    fn bitfield() -> (b: BitField) {
        BitField::le_u32
    }

    fn decode(bytes: &[u8], start: usize) -> (r: u32) {
        proof {
            lemma_pow256_values();
        }
        read_le(bytes, start, 4) as u32
    }
}

#[allow(non_camel_case_types)]
pub struct be_u32 {}

impl RawNumber for be_u32 {
    type Item = u32;

    open spec fn spec_bitfield() -> BitField {
        BitField::be_u32
    }

    proof fn lemma_integer_field() {
    }

    fn bitfield() -> (b: BitField) {
        BitField::be_u32
    }

    fn decode(bytes: &[u8], start: usize) -> (r: u32) {
        proof {
            lemma_pow256_values();
        }
        read_be(bytes, start, 4) as u32
    }
}

#[allow(non_camel_case_types)]
pub struct le_i32 {}

impl RawNumber for le_i32 {
    type Item = i32;

    open spec fn spec_bitfield() -> BitField {
        BitField::le_i32
    }

    proof fn lemma_integer_field() {
    }

    fn bitfield() -> (b: BitField) {
        BitField::le_i32
    }

    fn decode(bytes: &[u8], start: usize) -> (r: i32) {
        proof {
            lemma_pow256_values();
        }
        signed_from(read_le(bytes, start, 4), 4) as i32
    }
}

#[allow(non_camel_case_types)]
pub struct be_i32 {}

impl RawNumber for be_i32 {
    type Item = i32;

    open spec fn spec_bitfield() -> BitField {
        BitField::be_i32
    }

    proof fn lemma_integer_field() {
    }

    fn bitfield() -> (b: BitField) {
        BitField::be_i32
    }

    fn decode(bytes: &[u8], start: usize) -> (r: i32) {
        proof {
            lemma_pow256_values();
        }
        signed_from(read_be(bytes, start, 4), 4) as i32
    }
}

#[allow(non_camel_case_types)]
pub struct le_u64 {}

impl RawNumber for le_u64 {
    type Item = u64;

    open spec fn spec_bitfield() -> BitField {
        BitField::le_u64
    }

    proof fn lemma_integer_field() {
    }

    fn bitfield() -> (b: BitField) {
        BitField::le_u64
    }

    fn decode(bytes: &[u8], start: usize) -> (r: u64) {
        proof {
            lemma_pow256_values();
        }
        read_le(bytes, start, 8) as u64
    }
}

#[allow(non_camel_case_types)]
pub struct be_u64 {}

impl RawNumber for be_u64 {
    type Item = u64;

    open spec fn spec_bitfield() -> BitField {
        BitField::be_u64
    }

    proof fn lemma_integer_field() {
    }

    fn bitfield() -> (b: BitField) {
        BitField::be_u64
    }

    fn decode(bytes: &[u8], start: usize) -> (r: u64) {
        proof {
            lemma_pow256_values();
        }
        read_be(bytes, start, 8) as u64
    }
}

#[allow(non_camel_case_types)]
pub struct le_i64 {}

impl RawNumber for le_i64 {
    type Item = i64;

    open spec fn spec_bitfield() -> BitField {
        BitField::le_i64
    }

    proof fn lemma_integer_field() {
    }

    fn bitfield() -> (b: BitField) {
        BitField::le_i64
    }

    fn decode(bytes: &[u8], start: usize) -> (r: i64) {
        proof {
            lemma_pow256_values();
        }
        signed_from(read_le(bytes, start, 8), 8) as i64
    }
}

#[allow(non_camel_case_types)]
pub struct be_i64 {}

impl RawNumber for be_i64 {
    type Item = i64;

    open spec fn spec_bitfield() -> BitField {
        BitField::be_i64
    }

    proof fn lemma_integer_field() {
    }

    fn bitfield() -> (b: BitField) {
        BitField::be_i64
    }

    fn decode(bytes: &[u8], start: usize) -> (r: i64) {
        proof {
            lemma_pow256_values();
        }
        signed_from(read_be(bytes, start, 8), 8) as i64
    }
}

} // verus!
