//! Reading a raw body: all its samples as `i32`, or one at a time, and the
//! pixels of an image file.
use crate::rawnumber::ieee::{f32_bits_to_i32, f64_bits_to_i32, float_bits_to_i32};
use crate::rawnumber::{
    be_i16, be_i32, be_i64, be_i8, be_u16, be_u32, be_u64, be_u8, be_value, clamp_int, le_i16,
    le_i32, le_i64, le_i8, le_u16, le_u32, le_u64, le_u8, law_unsigned_value_bound,
    lemma_pow256_values, read_be, read_le, signed_value, BitField, BoundedInt, ClampFrom,
    RawNumber,
};
use vstd::prelude::*;

verus! {

/// Where the samples of a raw body start: after `offset` bytes, or at its end
/// if it is shorter.
pub open spec fn body_start(offset: nat, len: nat) -> nat {
    if offset < len {
        offset
    } else {
        len
    }
}

/// Where sample `i` would start.
pub open spec fn sample_start(bitfield: BitField, offset: nat, len: nat, i: nat) -> nat {
    body_start(offset, len) + i * bitfield.spec_size()
}

/// Whether the raw body `bytes` holds sample `i` in full.
pub open spec fn has_sample(bitfield: BitField, bytes: Seq<u8>, offset: nat, i: nat) -> bool {
    sample_start(bitfield, offset, bytes.len(), i) + bitfield.spec_size() <= bytes.len()
}

/// The value of sample `i` of the raw body `bytes`.
pub open spec fn sample_value(bitfield: BitField, bytes: Seq<u8>, offset: nat, i: nat) -> int {
    let s = sample_start(bitfield, offset, bytes.len(), i);
    bitfield.spec_value(bytes.subrange(s as int, (s + bitfield.spec_size()) as int))
}

/// The `i32` that one sample stands for: an integer saturated into `i32`'s
/// range, or a float rounded toward zero and saturated (NaN giving 0).
pub open spec fn sample_i32(bitfield: BitField, b: Seq<u8>) -> int {
    if bitfield.is_float() {
        if bitfield.spec_size() == 4 {
            float_bits_to_i32(bitfield.unsigned_value(b), 8, 23)
        } else {
            float_bits_to_i32(bitfield.unsigned_value(b), 11, 52)
        }
    } else {
        clamp_int(bitfield.spec_value(b), i32::MIN as int, i32::MAX as int)
    }
}

/// The `total` samples of a raw body as `i32`; those that the body is too
/// short to hold are 0.
pub open spec fn spec_to_vec_i32(bitfield: BitField, bytes: Seq<u8>, offset: nat, total: nat) -> Seq<i32> {
    Seq::new(
        total,
        |i: int|
            if has_sample(bitfield, bytes, offset, i as nat) {
                let s = sample_start(bitfield, offset, bytes.len(), i as nat);
                sample_i32(bitfield, bytes.subrange(s as int, (s + bitfield.spec_size()) as int)) as i32
            } else {
                0i32
            },
    )
}

proof fn lemma_no_later_sample(bitfield: BitField, bytes: Seq<u8>, offset: nat, i: nat, j: nat)
    requires
        i <= j,
        !has_sample(bitfield, bytes, offset, i),
    ensures
        !has_sample(bitfield, bytes, offset, j),
{
    let n = bitfield.spec_size();
    assert(i * n <= j * n) by (nonlinear_arith)
        requires
            i <= j,
    ;
}

/// Reads the sample whose bytes start at `start` as an `i32`.
fn sample_to_i32(bitfield: BitField, bytes: &[u8], start: usize) -> (r: i32)
    requires
        bitfield != BitField::unknown,
        start + bitfield.spec_size() <= bytes@.len(),
    ensures
        r as int == sample_i32(bitfield, bytes@.subrange(start as int, start + bitfield.spec_size())),
{
    match bitfield {
        BitField::le_u8 => i32::clamp_from(le_u8::decode(bytes, start)),
        BitField::be_u8 => i32::clamp_from(be_u8::decode(bytes, start)),
        BitField::le_i8 => i32::clamp_from(le_i8::decode(bytes, start)),
        BitField::be_i8 => i32::clamp_from(be_i8::decode(bytes, start)),
        BitField::le_u16 => i32::clamp_from(le_u16::decode(bytes, start)),
        BitField::be_u16 => i32::clamp_from(be_u16::decode(bytes, start)),
        BitField::le_i16 => i32::clamp_from(le_i16::decode(bytes, start)),
        BitField::be_i16 => i32::clamp_from(be_i16::decode(bytes, start)),
        BitField::le_u32 => i32::clamp_from(le_u32::decode(bytes, start)),
        BitField::be_u32 => i32::clamp_from(be_u32::decode(bytes, start)),
        BitField::le_i32 => i32::clamp_from(le_i32::decode(bytes, start)),
        BitField::be_i32 => i32::clamp_from(be_i32::decode(bytes, start)),
        BitField::le_u64 => i32::clamp_from(le_u64::decode(bytes, start)),
        BitField::be_u64 => i32::clamp_from(be_u64::decode(bytes, start)),
        BitField::le_i64 => i32::clamp_from(le_i64::decode(bytes, start)),
        BitField::be_i64 => i32::clamp_from(be_i64::decode(bytes, start)),
        BitField::le_f32 => {
            let bits = read_le(bytes, start, 4);
            proof {
                lemma_pow256_values();
            }
            f32_bits_to_i32(bits as u32)
        },
        BitField::be_f32 => {
            let bits = read_be(bytes, start, 4);
            proof {
                lemma_pow256_values();
            }
            f32_bits_to_i32(bits as u32)
        },
        BitField::le_f64 => f64_bits_to_i32(read_le(bytes, start, 8)),
        BitField::be_f64 => f64_bits_to_i32(read_be(bytes, start, 8)),
        BitField::unknown => 0,
    }
}

/// The `total` samples of a raw body, after its first `offset` bytes, each
/// read as `i32`; where the body runs out, the rest are 0.
pub fn to_vec_i32(bitfield: BitField, bytes: &[u8], offset: usize, total: usize) -> (r: Vec<i32>)
    requires
        bitfield != BitField::unknown,
    ensures
        r@ == spec_to_vec_i32(bitfield, bytes@, offset as nat, total as nat),
{
    let ghost spec = spec_to_vec_i32(bitfield, bytes@, offset as nat, total as nat);
    let n = bitfield.size();
    let len = bytes.len();
    let mut pos: usize = if offset < len {
        offset
    } else {
        len
    };
    let mut dst: Vec<i32> = Vec::new();
    let mut i: usize = 0;
    while i < total && n <= len - pos
        invariant
            bitfield != BitField::unknown,
            i <= total,
            pos <= len,
            len == bytes@.len(),
            n == bitfield.spec_size(),
            spec == spec_to_vec_i32(bitfield, bytes@, offset as nat, total as nat),
            pos == sample_start(bitfield, offset as nat, len as nat, i as nat),
            dst@ == spec.take(i as int),
        decreases total - i,
    {
        let c = sample_to_i32(bitfield, bytes, pos);
        proof {
            assert(has_sample(bitfield, bytes@, offset as nat, i as nat));
        }
        dst.push(c);
        proof {
            assert(dst@ =~= spec.take(i + 1));
            assert((i + 1) * n == i * n + n) by (nonlinear_arith);
        }
        pos = pos + n;
        i = i + 1;
    }
    let ghost stop = i;
    while i < total
        invariant
            stop <= i <= total,
            stop == total || !has_sample(bitfield, bytes@, offset as nat, stop as nat),
            spec == spec_to_vec_i32(bitfield, bytes@, offset as nat, total as nat),
            dst@ == spec.take(i as int),
        decreases total - i,
    {
        proof {
            lemma_no_later_sample(bitfield, bytes@, offset as nat, stop as nat, i as nat);
        }
        dst.push(0);
        proof {
            assert(dst@ =~= spec.take(i + 1));
        }
        i = i + 1;
    }
    proof {
        assert(spec.take(total as int) =~= spec);
    }
    dst
}

/// How many whole samples the raw body `bytes` holds after its first `offset` bytes.
pub open spec fn available_samples(bitfield: BitField, bytes: Seq<u8>, offset: nat) -> nat
    recommends
        bitfield.spec_size() > 0,
{
    ((bytes.len() - body_start(offset, bytes.len())) as nat) / bitfield.spec_size()
}

/// The samples that enumerating a raw body yields: at most `max` of them,
/// each with its index.
pub open spec fn spec_enumerate(bitfield: BitField, bytes: Seq<u8>, offset: nat, max: nat) -> Seq<(nat, int)> {
    let count = if max < available_samples(bitfield, bytes, offset) {
        max
    } else {
        available_samples(bitfield, bytes, offset)
    };
    Seq::new(count, |i: int| (i as nat, sample_value(bitfield, bytes, offset, i as nat)))
}

/// Sample `i` is held in full exactly when `i` is below the number of whole samples.
pub proof fn lemma_has_sample_iff(bitfield: BitField, bytes: Seq<u8>, offset: nat, i: nat)
    requires
        bitfield.spec_size() > 0,
    ensures
        has_sample(bitfield, bytes, offset, i) <==> i < available_samples(bitfield, bytes, offset),
{
    let n = bitfield.spec_size();
    let rest = (bytes.len() - body_start(offset, bytes.len())) as nat;
    let q = rest / n;
    assert(q * n <= rest < q * n + n) by (nonlinear_arith)
        requires
            n > 0,
            q == rest / n,
    ;
    if i < q {
        assert(i * n + n <= q * n) by (nonlinear_arith)
            requires
                i < q,
                n > 0,
        ;
    } else {
        assert(i * n >= q * n) by (nonlinear_arith)
            requires
                i >= q,
                n > 0,
        ;
    }
}

proof fn lemma_sample_i32_range(bitfield: BitField, b: Seq<u8>)
    ensures
        i32::MIN <= sample_i32(bitfield, b) <= i32::MAX,
{
}

/// The offset skips a header: for every layout, integer or float, reading a
/// body after a prefix of `offset` bytes gives what reading the body alone
/// from its first byte gives.
pub proof fn law_offset_skips_prefix(bitfield: BitField, prefix: Seq<u8>, body: Seq<u8>, total: nat)
    requires
        bitfield != BitField::unknown,
    ensures
        spec_to_vec_i32(bitfield, prefix + body, prefix.len(), total) == spec_to_vec_i32(bitfield, body, 0, total),
{
    let bytes = prefix + body;
    let p = prefix.len();
    let n = bitfield.spec_size();
    let a = spec_to_vec_i32(bitfield, bytes, p, total);
    let b = spec_to_vec_i32(bitfield, body, 0, total);
    assert(body_start(p, bytes.len()) == p);
    assert(body_start(0, body.len()) == 0);
    assert forall|i: int| 0 <= i < total implies a[i] == b[i] by {
        let s = i * n;
        assert(sample_start(bitfield, p, bytes.len(), i as nat) == p + s);
        assert(sample_start(bitfield, 0, body.len(), i as nat) == s);
        assert(has_sample(bitfield, bytes, p, i as nat) == has_sample(bitfield, body, 0, i as nat));
        if has_sample(bitfield, body, 0, i as nat) {
            assert(bytes.subrange(p + s, p + s + n) =~= body.subrange(s, s + n));
        }
    }
    assert(a =~= b);
}

/// Sample `i` of a body read from offset `offset` is the sample whose bytes
/// are `bytes[offset + i * size .. offset + (i + 1) * size]`, for every
/// layout, float ones included; a sample the body does not hold in full is 0.
pub proof fn law_sample_position(bitfield: BitField, bytes: Seq<u8>, offset: nat, total: nat, i: int)
    requires
        bitfield != BitField::unknown,
        offset <= bytes.len(),
        0 <= i < total,
    ensures
        ({
            let n = bitfield.spec_size();
            let v = spec_to_vec_i32(bitfield, bytes, offset, total);
            &&& offset + (i + 1) * n <= bytes.len() ==> v[i] as int == sample_i32(
                bitfield,
                bytes.subrange(offset + i * n, offset + (i + 1) * n),
            )
            &&& offset + (i + 1) * n > bytes.len() ==> v[i] == 0
        }),
{
    let n = bitfield.spec_size();
    assert((i + 1) * n == i * n + n) by (nonlinear_arith);
    assert(body_start(offset, bytes.len()) == offset);
    let s = offset + i * n;
    if offset + (i + 1) * n <= bytes.len() {
        assert(has_sample(bitfield, bytes, offset, i as nat));
        let x = sample_i32(bitfield, bytes.subrange(s, s + n));
        assert(i32::MIN <= x <= i32::MAX) by {
            lemma_sample_i32_range(bitfield, bytes.subrange(s, s + n));
        }
    }
}

/// Enumerating a raw body of integers and reading it whole agree: the
/// `i32` samples are the enumerated ones saturated into `i32`, in order, and
/// 0 past the last whole sample.
pub proof fn law_to_vec_i32_agrees_with_enumerate(bitfield: BitField, bytes: Seq<u8>, offset: nat, total: nat)
    requires
        bitfield.is_integer(),
    ensures
        ({
            let v = spec_to_vec_i32(bitfield, bytes, offset, total);
            let e = spec_enumerate(bitfield, bytes, offset, total);
            &&& v.len() == total
            &&& e.len() <= total
            &&& forall|i: int|
                0 <= i < e.len() ==> #[trigger] e[i].0 == i && v[i] as int == clamp_int(
                    e[i].1,
                    i32::MIN as int,
                    i32::MAX as int,
                )
            &&& forall|i: int| e.len() <= i < total ==> #[trigger] v[i] == 0
        }),
{
    let v = spec_to_vec_i32(bitfield, bytes, offset, total);
    let e = spec_enumerate(bitfield, bytes, offset, total);
    assert forall|i: int| 0 <= i < e.len() implies #[trigger] e[i].0 == i && v[i] as int == clamp_int(
        e[i].1,
        i32::MIN as int,
        i32::MAX as int,
    ) by {
        lemma_has_sample_iff(bitfield, bytes, offset, i as nat);
    }
    assert forall|i: int| e.len() <= i < total implies #[trigger] v[i] == 0 by {
        lemma_has_sample_iff(bitfield, bytes, offset, i as nat);
    }
}

/// The samples of a raw body, read one at a time with their indices.
pub struct HrawIterator<T: RawNumber> {
    stream: Vec<u8>,
    pos: usize,
    index: usize,
    max: usize,
    phantom: core::marker::PhantomData<T>,
}

impl<T: RawNumber> View for HrawIterator<T> {
    /// The samples still to come, each with its index.
    type V = Seq<(nat, int)>;

    closed spec fn view(&self) -> Seq<(nat, int)> {
        let bf = T::spec_bitfield();
        let n = bf.spec_size();
        let left = if self.index < self.max {
            (self.max - self.index) as nat
        } else {
            0
        };
        let whole = ((self.stream@.len() - self.pos) as nat) / n;
        let count = if left < whole {
            left
        } else {
            whole
        };
        Seq::new(
            count,
            |j: int|
                (
                    (self.index + j) as nat,
                    bf.spec_value(self.stream@.subrange(self.pos + j * n, self.pos + j * n + n)),
                ),
        )
    }
}

impl<T: RawNumber> HrawIterator<T> {
    #[verifier::type_invariant]
    spec fn inv(&self) -> bool {
        self.pos <= self.stream@.len()
    }

    /// An iterator over the first `max` samples of `stream` after its first
    /// `offset` bytes.
    pub fn new(stream: Vec<u8>, offset: usize, max: usize) -> (r: Self)
        ensures
            r@ == spec_enumerate(T::spec_bitfield(), stream@, offset as nat, max as nat),
    {
        let len = stream.len();
        let pos = if offset < len {
            offset
        } else {
            len
        };
        let r = HrawIterator { stream, pos, index: 0, max, phantom: core::marker::PhantomData };
        proof {
            T::lemma_integer_field();
            let bf = T::spec_bitfield();
            let n = bf.spec_size();
            let a = r@;
            let b = spec_enumerate(bf, r.stream@, offset as nat, max as nat);
            assert forall|j: int| 0 <= j < a.len() implies a[j] == b[j] by {
                assert(j * n == (j as nat) * n);
            }
            assert(a =~= b);
        }
        r
    }

    /// The next sample with its index, or `None` once `max` samples have
    /// been given or the stream has no whole sample left.
    pub fn next(&mut self) -> (r: Option<(usize, T::Item)>)
        ensures
            old(self)@.len() > 0 ==> (r matches Some((i, v)) && (i as nat, v.int_value())
                == old(self)@[0] && final(self)@ == old(self)@.drop_first()),
            old(self)@.len() == 0 ==> r is None && final(self)@ == old(self)@,
    {
        proof {
            T::lemma_integer_field();
            use_type_invariant(&*self);
        }
        let ghost bf = T::spec_bitfield();
        let ghost old_view = self@;
        let n = T::bitfield().size();
        let current = self.index;
        if current >= self.max {
            return None;
        }
        if n > self.stream.len() - self.pos {
            proof {
                let nn = n as nat;
                assert((self.stream@.len() - self.pos) as nat / nn == 0) by (nonlinear_arith)
                    requires
                        self.stream@.len() - self.pos < nn,
                        self.pos <= self.stream@.len(),
                ;
            }
            self.pos = self.stream.len();
            proof {
                assert(self@ =~= old_view);
            }
            return None;
        }
        let v = T::decode(self.stream.as_slice(), self.pos);
        proof {
            let rest = (self.stream@.len() - self.pos) as nat;
            let nn = n as nat;
            assert(rest / nn >= 1 && (rest - nn) as nat / nn == rest / nn - 1) by (nonlinear_arith)
                requires
                    rest >= nn,
                    nn > 0,
            ;
        }
        self.pos = self.pos + n;
        self.index = current + 1;
        proof {
            let a = self@;
            let b = old_view.drop_first();
            assert forall|j: int| 0 <= j < a.len() implies a[j] == b[j] by {
                assert((j + 1) * n == j * n + n) by (nonlinear_arith);
            }
            assert(a =~= b);
        }
        Some((current, v))
    }
}

/// What the `image` crate decodes a PNG file to, as 8-bit RGBA: width,
/// height and the bytes row by row; `None` where it reports an error.
pub uninterp spec fn png_rgba8(file: Seq<u8>) -> Option<(nat, nat, Seq<u8>)>;

/// `image::io::Reader::with_format` on the bytes of a file as PNG, `decode`,
/// then `DynamicImage::into_rgba8`. The picture depends on the bytes alone
/// and is left to the name `png_rgba8`; that the buffer holds four bytes a
/// pixel is what `into_rgba8` builds (`ImageBuffer::new` of the image's size).
#[verifier::external_body]
fn decode_rgba8(file: &[u8]) -> (r: Option<(u32, u32, Vec<u8>)>)
    ensures
        match r {
            Some((w, h, v)) => png_rgba8(file@) == Some((w as nat, h as nat, v@)) && v@.len() == 4 * w
                * h,
            None => png_rgba8(file@) is None,
        },
{
    let reader = image::io::Reader::with_format(std::io::Cursor::new(file), image::ImageFormat::Png);
    let rgba = reader.decode().ok()?.into_rgba8();
    let (w, h) = rgba.dimensions();
    Some((w, h, rgba.into_raw()))
}

/// A path plainly named as a PNG file on any platform: its last part is a
/// name ending in `.png` in any case, after at least one character that is
/// not a separator, and it holds nothing that Windows reads as a drive, a
/// share or a backslash separator: no backslash, no colon, no leading `//`.
pub open spec fn png_named(path: Seq<char>) -> bool {
    let n = path.len();
    &&& n >= 5
    &&& path[n - 4] == '.'
    &&& (path[n - 3] == 'p' || path[n - 3] == 'P')
    &&& (path[n - 2] == 'n' || path[n - 2] == 'N')
    &&& (path[n - 1] == 'g' || path[n - 1] == 'G')
    &&& path[n - 5] != '/'
    &&& forall|i: int| 0 <= i < n ==> path[i] != '\\' && path[i] != ':'
    &&& !(path[0] == '/' && path[1] == '/')
}

/// `image::ImageFormat::from_path`: whether the extension of a file's path
/// names PNG, which is how `image::io::Reader::open` picks the format. The
/// extension is what `Path::extension` finds after the last `.` of the last
/// component, lower-cased; which characters part components follows the
/// platform, so only the plainly named paths of `png_named` are stated to
/// give PNG.
#[verifier::external_body]
fn png_by_extension(path: &str) -> (r: bool)
    ensures
        png_named(path@) ==> r,
{
    match image::ImageFormat::from_path(path) {
        Ok(image::ImageFormat::Png) => true,
        _ => false,
    }
}

/// The pixels of an RGBA picture, each read as a big-endian `i32`.
pub open spec fn spec_rgba_to_i32(width: nat, height: nat, rgba: Seq<u8>) -> Seq<i32> {
    Seq::new(
        width * height,
        |p: int| signed_value(be_value(rgba.subrange(4 * p, 4 * p + 4)) as int, 4) as i32,
    )
}

/// The pixels of an RGBA picture, each read as a big-endian `i32`.
pub fn rgba_to_i32(width: usize, height: usize, rgba: &[u8]) -> (r: Vec<i32>)
    requires
        rgba@.len() == 4 * width * height,
    ensures
        r@ == spec_rgba_to_i32(width as nat, height as nat, rgba@),
{
    // the buffer's length bounds the number of pixels
    let _len = rgba.len();
    proof {
        assert(width * height <= 4 * width * height) by (nonlinear_arith);
    }
    let total = width * height;
    let v = to_vec_i32(BitField::be_i32, rgba, 0, total);
    proof {
        let bf = BitField::be_i32;
        let spec = spec_rgba_to_i32(width as nat, height as nat, rgba@);
        assert(rgba@.len() == 4 * total) by (nonlinear_arith)
            requires
                rgba@.len() == 4 * width * height,
                total == width * height,
        ;
        assert forall|p: int| 0 <= p < total implies v@[p] == spec[p] by {
            assert(has_sample(bf, rgba@, 0, p as nat));
            let b = rgba@.subrange(4 * p, 4 * p + 4);
            law_unsigned_value_bound(bf, b);
            lemma_pow256_values();
        }
        assert(v@ =~= spec);
    }
    v
}

/// The pixels of a file as big-endian `i32`s, with its width and height,
/// where its name marks it as PNG (`named_png`) and it decodes as one;
/// `None` otherwise.
pub fn png_file_i32(named_png: bool, file: &[u8]) -> (r: Option<(usize, usize, Vec<i32>)>)
    ensures
        !named_png ==> r is None,
        named_png ==> match r {
            Some((w, h, v)) => png_rgba8(file@) matches Some((pw, ph, px)) && w == pw && h == ph && v@
                == spec_rgba_to_i32(pw, ph, px),
            None => png_rgba8(file@) is None,
        },
{
    if !named_png {
        return None;
    }
    match decode_rgba8(file) {
        Some((w, h, rgba)) => {
            let v = rgba_to_i32(w as usize, h as usize, rgba.as_slice());
            Some((w as usize, h as usize, v))
        },
        None => None,
    }
}

/// The width and height of a file, where its name marks it as PNG
/// (`named_png`) and it decodes as one; `None` otherwise.
pub fn png_file_head(named_png: bool, file: &[u8]) -> (r: Option<(usize, usize)>)
    ensures
        !named_png ==> r is None,
        named_png ==> match r {
            Some((w, h)) => png_rgba8(file@) matches Some((pw, ph, _)) && w == pw && h == ph,
            None => png_rgba8(file@) is None,
        },
{
    if !named_png {
        return None;
    }
    match decode_rgba8(file) {
        Some((w, h, _)) => Some((w as usize, h as usize)),
        None => None,
    }
}

/// The pixels of the image file at `path`, whose bytes are `file`, as
/// big-endian `i32`s with its width and height. The format is taken from the
/// path's extension; only PNG is read, and `None` comes where the extension
/// does not name PNG or the bytes do not decode.
pub fn read_png_i32(path: &str, file: &[u8]) -> (r: Option<(usize, usize, Vec<i32>)>)
    ensures
        r matches Some((w, h, v)) ==> (png_rgba8(file@) matches Some((pw, ph, px)) && w == pw && h == ph
            && v@ == spec_rgba_to_i32(pw, ph, px)),
        png_rgba8(file@) is None ==> r is None,
        png_named(path@) && png_rgba8(file@) is Some ==> r is Some,
{
    png_file_i32(png_by_extension(path), file)
}

/// The width and height of the image file at `path`, whose bytes are
/// `file`; `None` where the extension does not name PNG or the bytes do not
/// decode.
pub fn read_png_head(path: &str, file: &[u8]) -> (r: Option<(usize, usize)>)
    ensures
        r matches Some((w, h)) ==> (png_rgba8(file@) matches Some((pw, ph, _)) && w == pw && h == ph),
        png_rgba8(file@) is None ==> r is None,
        png_named(path@) && png_rgba8(file@) is Some ==> r is Some,
{
    png_file_head(png_by_extension(path), file)
}

} // verus!
