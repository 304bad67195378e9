//! What the script bindings compute: entry-point names, and the indexing that
//! scripts use on the bytes of a raw body or on the samples of a frame.
use vstd::prelude::*;

verus! {

/// An entry-point name that may be absent.
pub struct NullableString(pub Option<String>);

impl NullableString {
    /// The name, or `default` when there is none.
    pub fn as_ref_or<'a>(&'a self, default: &'a str) -> (r: &'a str)
        ensures
            r@ == match self.0 {
                Some(n) => n@,
                None => default@,
            },
    {
        match &self.0 {
            Some(n) => n.as_str(),
            None => default,
        }
    }
}

impl From<String> for NullableString {
    fn from(n: String) -> (r: Self) {
        NullableString(Some(n))
    }
}

impl vstd::std_specs::convert::FromSpecImpl<String> for NullableString {
    open spec fn obeys_from_spec() -> bool {
        true
    }

    open spec fn from_spec(v: String) -> Self {
        NullableString(Some(v))
    }
}

impl<'a> From<&'a str> for NullableString {
    fn from(n: &'a str) -> (r: Self)
        ensures
            r.0 matches Some(s) && s@ == n@,
    {
        NullableString(Some(String::from_str(n)))
    }
}

/// A `String` has no spec constructor from a `&str`, so `==` on the result is
/// not claimed; `from` itself states that the text is kept.
impl<'a> vstd::std_specs::convert::FromSpecImpl<&'a str> for NullableString {
    open spec fn obeys_from_spec() -> bool {
        false
    }

    open spec fn from_spec(v: &'a str) -> Self {
        NullableString(Some(choose|s: String| #![trigger s@] s@ == v@))
    }
}

impl From<Option<String>> for NullableString {
    fn from(n: Option<String>) -> (r: Self) {
        NullableString(n)
    }
}

impl vstd::std_specs::convert::FromSpecImpl<Option<String>> for NullableString {
    open spec fn obeys_from_spec() -> bool {
        true
    }

    open spec fn from_spec(v: Option<String>) -> Self {
        NullableString(v)
    }
}

/// The element that an index names in a sequence of `len` elements, counting
/// from the end when it is negative; `None` when that is out of range.
pub open spec fn spec_py_index(len: int, idx: int) -> Option<int> {
    let i = if idx < 0 {
        len + idx
    } else {
        idx
    };
    if i < 0 || len <= i {
        None
    } else {
        Some(i)
    }
}

/// Resolves an index as a script indexer does, from the end when negative.
pub fn py_index(len: usize, idx: isize) -> (r: Option<usize>)
    requires
        len <= isize::MAX,
    ensures
        match r {
            Some(i) => spec_py_index(len as int, idx as int) == Some(i as int),
            None => spec_py_index(len as int, idx as int) is None,
        },
{
    let n = len as isize;
    let i = if idx < 0 {
        n + idx
    } else {
        idx
    };
    if i < 0 || n <= i {
        None
    } else {
        Some(i as usize)
    }
}

/// How many elements a slice from `start` toward `stop` by `step` takes.
pub open spec fn slice_count(start: int, stop: int, step: int) -> nat {
    if step > 0 {
        if stop > start {
            ((stop - start + step - 1) / step) as nat
        } else {
            0
        }
    } else if step < 0 {
        if start > stop {
            ((start - stop - step - 1) / (-step)) as nat
        } else {
            0
        }
    } else {
        0
    }
}

/// The elements `data[start]`, `data[start + step]`, ... before `stop`.
pub open spec fn spec_py_slice<T>(data: Seq<T>, start: int, stop: int, step: int) -> Seq<T> {
    Seq::new(slice_count(start, stop, step), |k: int| data[start + k * step])
}

/// The bounds that a script's slice has once resolved against a length
/// (as Python's `slice.indices` gives them), and a last position that stays
/// within `isize`.
pub open spec fn slice_bounds_ok(len: int, start: int, stop: int, step: int) -> bool {
    &&& step != 0
    &&& step > 0 ==> 0 <= start <= len && 0 <= stop <= len
    &&& step < 0 ==> -1 <= start < len && -1 <= stop < len
    &&& isize::MIN <= start + slice_count(start, stop, step) * step <= isize::MAX
}

proof fn lemma_slice_step(start: int, stop: int, step: int, k: int)
    requires
        step != 0,
        k >= 0,
    ensures
        (if step > 0 {
            start + k * step < stop
        } else {
            start + k * step > stop
        }) <==> k < slice_count(start, stop, step),
{
    if step > 0 {
        let d = stop - start;
        if d > 0 {
            let c = (d + step - 1) / step;
            vstd::arithmetic::div_mod::lemma_fundamental_div_mod(d + step - 1, step);
            assert((k < c) <==> (k * step < d)) by (nonlinear_arith)
                requires
                    step > 0,
                    d > 0,
                    k >= 0,
                    d + step - 1 == step * c + (d + step - 1) % step,
                    0 <= (d + step - 1) % step < step,
            ;
        } else {
            assert(k * step >= 0) by (nonlinear_arith)
                requires
                    k >= 0,
                    step > 0,
            ;
        }
    } else {
        let d = start - stop;
        let s = -step;
        if d > 0 {
            let c = (d + s - 1) / s;
            vstd::arithmetic::div_mod::lemma_fundamental_div_mod(d + s - 1, s);
            assert((k < c) <==> (k * s < d)) by (nonlinear_arith)
                requires
                    s > 0,
                    d > 0,
                    k >= 0,
                    d + s - 1 == s * c + (d + s - 1) % s,
                    0 <= (d + s - 1) % s < s,
            ;
            assert(k * step == -(k * s)) by (nonlinear_arith)
                requires
                    s == -step,
            ;
        } else {
            assert(k * step <= 0) by (nonlinear_arith)
                requires
                    k >= 0,
                    step < 0,
            ;
        }
    }
}

/// Whether position `i` comes before `stop` in the direction of `step`.
fn before_stop(i: isize, stop: isize, step: isize) -> (r: bool)
    ensures
        r == if step > 0 {
            i < stop
        } else {
            i > stop
        },
{
    if step > 0 {
        i < stop
    } else {
        i > stop
    }
}

/// The elements of a resolved slice, as a script indexer gives them.
pub fn py_slice<T: Copy>(data: &[T], start: isize, stop: isize, step: isize) -> (r: Vec<T>)
    requires
        slice_bounds_ok(data@.len() as int, start as int, stop as int, step as int),
    ensures
        r@ == spec_py_slice(data@, start as int, stop as int, step as int),
{
    let ghost count = slice_count(start as int, stop as int, step as int);
    let ghost spec = spec_py_slice(data@, start as int, stop as int, step as int);
    let mut result: Vec<T> = Vec::new();
    let mut i = start;
    let ghost mut k: int = 0;
    while before_stop(i, stop, step)
        invariant
            slice_bounds_ok(data@.len() as int, start as int, stop as int, step as int),
            count == slice_count(start as int, stop as int, step as int),
            spec == spec_py_slice(data@, start as int, stop as int, step as int),
            0 <= k <= count,
            i == start + k * step,
            result@ == spec.take(k),
        decreases count - k,
    {
        proof {
            lemma_slice_step(start as int, stop as int, step as int, k);
            lemma_slice_step(start as int, stop as int, step as int, k + 1);
            assert(start + (k + 1) * step == i + step) by (nonlinear_arith)
                requires
                    i == start + k * step,
            ;
            if k + 1 < count {
                if step > 0 {
                    assert(i + step < stop);
                } else {
                    assert(i + step > stop);
                }
            }
            assert(isize::MIN <= i + step <= isize::MAX);
            assert(0 <= i < data@.len()) by {
                if step > 0 {
                    assert(i >= start) by (nonlinear_arith)
                        requires
                            i == start + k * step,
                            k >= 0,
                            step > 0,
                    ;
                } else {
                    assert(i <= start) by (nonlinear_arith)
                        requires
                            i == start + k * step,
                            k >= 0,
                            step < 0,
                    ;
                }
            }
        }
        result.push(data[i as usize]);
        proof {
            assert(result@ =~= spec.take(k + 1));
            k = k + 1;
        }
        i = i + step;
    }
    proof {
        lemma_slice_step(start as int, stop as int, step as int, k);
        assert(k == count);
        assert(spec.take(k) =~= spec);
    }
    result
}

/// A negative index counts from the end: `-1` names the last element.
pub proof fn law_negative_index(len: int, k: int)
    requires
        1 <= k <= len,
    ensures
        spec_py_index(len, -k) == Some(len - k),
{
}

/// The slice from the first element to the end by steps of one is the whole
/// sequence; from the last element back past the first by steps of minus one,
/// it is the sequence reversed.
pub proof fn law_full_slices<T>(data: Seq<T>)
    requires
        data.len() < isize::MAX,
    ensures
        slice_bounds_ok(data.len() as int, 0, data.len() as int, 1),
        spec_py_slice(data, 0, data.len() as int, 1) == data,
        slice_bounds_ok(data.len() as int, data.len() - 1, -1, -1),
        spec_py_slice(data, data.len() - 1, -1, -1) == data.reverse(),
{
    let n = data.len() as int;
    assert(slice_count(0, n, 1) == n);
    assert(spec_py_slice(data, 0, n, 1) =~= data);
    if n > 0 {
        assert(slice_count(n - 1, -1, -1) == n);
    }
    assert(spec_py_slice(data, n - 1, -1, -1) =~= data.reverse());
}

/// The bytes of a raw body as a decoder script sees them.
pub struct RawBytes {
    pub path: String,
    pub width: usize,
    pub height: usize,
    pub data: Vec<u8>,
}

impl RawBytes {
    pub fn path(&self) -> (r: String)
        ensures
            r@ == self.path@,
    {
        self.path.clone()
    }

    /// The width as a script's integer (wrapping into `i32`).
    pub fn width(&self) -> (r: i32)
        ensures
            r == self.width as i32,
    {
        self.width as i32
    }

    /// The height as a script's integer (wrapping into `i32`).
    pub fn height(&self) -> (r: i32)
        ensures
            r == self.height as i32,
    {
        self.height as i32
    }

    pub fn get(&self, index: usize) -> (r: u8)
        requires
            index < self.data@.len(),
        ensures
            r == self.data@[index as int],
    {
        self.data[index]
    }

    pub fn to_array(&self) -> (r: Vec<u8>)
        ensures
            r@ == self.data@,
    {
        self.data.clone()
    }

    /// The byte that a script's index names, from the end when negative;
    /// `None` when out of range.
    pub fn getitem_index(&self, idx: isize) -> (r: Option<u8>)
        requires
            self.data@.len() <= isize::MAX,
        ensures
            match spec_py_index(self.data@.len() as int, idx as int) {
                Some(i) => r == Some(self.data@[i]),
                None => r is None,
            },
    {
        match py_index(self.data.len(), idx) {
            Some(i) => Some(self.data[i]),
            None => None,
        }
    }

    /// The bytes that a script's resolved slice names.
    pub fn getitem_slice(&self, start: isize, stop: isize, step: isize) -> (r: Vec<u8>)
        requires
            slice_bounds_ok(self.data@.len() as int, start as int, stop as int, step as int),
        ensures
            r@ == spec_py_slice(self.data@, start as int, stop as int, step as int),
    {
        py_slice(self.data.as_slice(), start, stop, step)
    }
}

} // verus!
