use hraw::scripting::{py_index, py_slice, NullableString, RawBytes};

/// Python's `slice.indices` for a length, then the element list.
fn python_slice(data: &[u8], start: Option<isize>, stop: Option<isize>, step: isize) -> (isize, isize, isize, Vec<u8>) {
    let len = data.len() as isize;
    let clamp = |v: Option<isize>, dflt: isize| -> isize {
        match v {
            None => dflt,
            Some(v) => {
                let v = if v < 0 { v + len } else { v };
                if step > 0 {
                    v.clamp(0, len)
                } else {
                    v.clamp(-1, len - 1)
                }
            }
        }
    };
    let (s, e) = if step > 0 { (clamp(start, 0), clamp(stop, len)) } else { (clamp(start, len - 1), clamp(stop, -1)) };
    let mut out = Vec::new();
    let mut i = s;
    while if step > 0 { i < e } else { i > e } {
        out.push(data[i as usize]);
        i += step;
    }
    (s, e, step, out)
}

#[test]
fn py_index_counts_from_the_end() {
    assert_eq!(py_index(5, 0), Some(0));
    assert_eq!(py_index(5, 4), Some(4));
    assert_eq!(py_index(5, 5), None);
    assert_eq!(py_index(5, -1), Some(4));
    assert_eq!(py_index(5, -5), Some(0));
    assert_eq!(py_index(5, -6), None);
    assert_eq!(py_index(0, 0), None);
}

#[test]
fn py_slice_matches_python() {
    let data: Vec<u8> = (10..20).collect();
    let cases = [
        (None, None, 1),
        (Some(2), Some(7), 2),
        (None, None, -1),
        (Some(-3), None, 1),
        (Some(8), Some(1), -3),
        (Some(3), Some(3), 1),
        (Some(0), Some(100), 4),
        (None, Some(-100), -2),
        (Some(5), None, isize::MAX - 20),
    ];
    for (a, b, step) in cases {
        let (s, e, st, expect) = python_slice(&data, a, b, step);
        assert_eq!(py_slice(&data, s, e, st), expect, "{a:?} {b:?} {step}");
    }
}

#[test]
fn law_full_and_reversed_slices() {
    let data = [1u8, 2, 3, 4];
    assert_eq!(py_slice(&data, 0, 4, 1), vec![1, 2, 3, 4]);
    assert_eq!(py_slice(&data, 3, -1, -1), vec![4, 3, 2, 1]);
}

#[test]
fn raw_bytes_accessors() {
    let rb = RawBytes { path: "p".to_string(), width: 3, height: 2, data: vec![5, 6, 7, 8, 9, 10] };
    assert_eq!(rb.path(), "p");
    assert_eq!(rb.width(), 3);
    assert_eq!(rb.height(), 2);
    assert_eq!(rb.get(4), 9);
    assert_eq!(rb.to_array(), vec![5, 6, 7, 8, 9, 10]);
    assert_eq!(rb.getitem_index(-1), Some(10));
    assert_eq!(rb.getitem_index(6), None);
    assert_eq!(rb.getitem_slice(1, 6, 2), vec![6, 8, 10]);
}

#[test]
fn nullable_string_defaults() {
    let named = NullableString::from("entry".to_string());
    assert_eq!(named.as_ref_or("main"), "entry");
    let none = NullableString::from(None);
    assert_eq!(none.as_ref_or("main"), "main");
    let borrowed = NullableString::from("entry");
    assert_eq!(borrowed.as_ref_or("main"), "entry");
}
