use pyo3::types::{PyAnyMethods, PyModule};
use pyo3::Python;
use fake::{Fake, Faker};
use hraw::rawnumber::{
    be_i16, be_i32, be_i64, be_i8, be_u16, be_u32, be_u64, be_u8, le_i16, le_i32, le_i64, le_i8,
    le_u16, le_u32, le_u64, le_u8, BitField, RawNumber,
};

const BITWISE_LUA: &str = "--!strict
function(a : number, b : number, c : number, d : number) : number
  local buf = buffer.create(4)
  buffer.writeu8(buf, 0, a)
  buffer.writeu8(buf, 1, b)
  buffer.writeu8(buf, 2, c)
  buffer.writeu8(buf, 3, d)
  return buffer.readi32(buf, 0);
end
";

const BITWISE_LUA_2: &str = "--!strict
function(a : table) : number
  local buf = buffer.create(4)
  buffer.writeu8(buf, 0, a[1])
  buffer.writeu8(buf, 1, a[2])
  buffer.writeu8(buf, 2, a[3])
  buffer.writeu8(buf, 3, a[4])
  return buffer.readi32(buf, 0);
end
";

const BITWISE_PY: &str = "def func(a, b, c, d):
  a = a << 0
  b = b << 8
  c = c << 16
  d = d << 24
  byts = (a | b | c | d).to_bytes(4, 'little')
  return int.from_bytes(byts, 'little', signed=True)
";

const BITWISE_PY_2: &str = "def func(a, b, c, d):
  dst = bytearray([a,b,c,d])
  return int.from_bytes(dst, 'little', signed=True)
";

const BITWISE_PY_3: &str = "import struct
def func(a, b, c, d):
  dst = bytearray([a,b,c,d])
  return struct.unpack_from('<i', dst, 0)[0]
";

#[test]
fn bitwise_operation() {
    pyo3::prepare_freethreaded_python();
    let list = (0..100).map(|_| Faker.fake::<[u8; 4]>()).collect::<Vec<_>>();
    list.into_iter().for_each(|n| {
        let src = i32::from_le_bytes(n);
        assert_eq!(src, le_i32::decode(&n, 0));
        {
            let lua = mlua::Lua::new();
            let func: mlua::Function = lua.load(BITWISE_LUA).eval().unwrap();
            let dst = func.call::<_, i32>((n[0], n[1], n[2], n[3])).unwrap();
            assert_eq!(src, dst);
        }
        {
            let lua = mlua::Lua::new();
            let func: mlua::Function = lua.load(BITWISE_LUA_2).eval().unwrap();
            let dst = func.call::<_, i32>(n).unwrap();
            assert_eq!(src, dst);
        }
        for code in [BITWISE_PY, BITWISE_PY_2, BITWISE_PY_3] {
            Python::with_gil(|py| {
                let func = PyModule::from_code_bound(py, code, "", "").unwrap().getattr("func").unwrap();
                let dst = func.call1((n[0], n[1], n[2], n[3])).unwrap().extract::<i32>().unwrap();
                assert_eq!(src, dst);
            });
        }
    });
}

#[test]
fn decode_matches_std_byte_orders() {
    let b: [u8; 10] = [0x01, 0xff, 0x80, 0x7f, 0x00, 0x12, 0x34, 0x56, 0x78, 0x9a];
    for s in 0..3 {
        assert_eq!(le_u8::decode(&b, s), b[s]);
        assert_eq!(be_u8::decode(&b, s), b[s]);
        assert_eq!(le_i8::decode(&b, s), b[s] as i8);
        assert_eq!(be_i8::decode(&b, s), b[s] as i8);
        let two = [b[s], b[s + 1]];
        assert_eq!(le_u16::decode(&b, s), u16::from_le_bytes(two));
        assert_eq!(be_u16::decode(&b, s), u16::from_be_bytes(two));
        assert_eq!(le_i16::decode(&b, s), i16::from_le_bytes(two));
        assert_eq!(be_i16::decode(&b, s), i16::from_be_bytes(two));
        let four = [b[s], b[s + 1], b[s + 2], b[s + 3]];
        assert_eq!(le_u32::decode(&b, s), u32::from_le_bytes(four));
        assert_eq!(be_u32::decode(&b, s), u32::from_be_bytes(four));
        assert_eq!(le_i32::decode(&b, s), i32::from_le_bytes(four));
        assert_eq!(be_i32::decode(&b, s), i32::from_be_bytes(four));
        let mut eight = [0u8; 8];
        eight.copy_from_slice(&b[s..s + 8]);
        assert_eq!(le_u64::decode(&b, s), u64::from_le_bytes(eight));
        assert_eq!(be_u64::decode(&b, s), u64::from_be_bytes(eight));
        assert_eq!(le_i64::decode(&b, s), i64::from_le_bytes(eight));
        assert_eq!(be_i64::decode(&b, s), i64::from_be_bytes(eight));
    }
}

#[test]
fn decode_random_eight_bytes() {
    for _ in 0..200 {
        let n = Faker.fake::<[u8; 8]>();
        assert_eq!(le_i64::decode(&n, 0), i64::from_le_bytes(n));
        assert_eq!(be_i64::decode(&n, 0), i64::from_be_bytes(n));
        assert_eq!(le_u64::decode(&n, 0), u64::from_le_bytes(n));
        assert_eq!(be_u64::decode(&n, 0), u64::from_be_bytes(n));
    }
}

#[test]
fn law_big_endian_is_reversed_little_endian() {
    let b = [0xde, 0xad, 0xbe, 0xef];
    let mut r = b;
    r.reverse();
    assert_eq!(be_u32::decode(&b, 0), le_u32::decode(&r, 0));
    assert_eq!(be_i32::decode(&b, 0), le_i32::decode(&r, 0));
}

#[test]
fn markers_name_their_fields() {
    assert_eq!(le_i32::bitfield(), BitField::le_i32);
    assert_eq!(be_u16::bitfield(), BitField::be_u16);
    assert_eq!(BitField::le_u64.size(), 8);
    assert_eq!(BitField::be_f32.size(), 4);
    assert_eq!(BitField::le_i8.size(), 1);
    assert_eq!(BitField::unknown.size(), 0);
}
