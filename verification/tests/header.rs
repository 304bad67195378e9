use hraw::rawnumber::BitField;
use hraw::{
    default_bitfield, default_data, default_lang, Header, Hraw, HrawError, ScriptEnum, StringNumber,
    HEADER_LIST,
};

fn parsed(width: usize, height: usize) -> Header {
    Header {
        width,
        height,
        total: 0,
        stride: 0,
        offset: 64,
        bitfield: BitField::be_u16,
        data: vec!["1.raw".to_string(), "2.raw".to_string(), "3.raw".to_string()],
        decoder: None,
        raw: serde_json::Value::Null,
        headerpath: String::new(),
    }
}

#[test]
fn defaults() {
    assert_eq!(default_lang(), ScriptEnum::Lua);
    assert_eq!(default_bitfield(), BitField::le_i32);
    assert_eq!(default_data(), vec!["data.raw".to_string()]);
    assert_eq!(HEADER_LIST, ["header.yaml", "header.yml", "header.json"]);
}

#[test]
fn value_to_header_fills_size() {
    let value: serde_json::Value = serde_json::from_str("{\"width\": 1024, \"height\": 768}").unwrap();
    let h = Hraw::value_to_header("header.yaml", parsed(1024, 768), value.clone());
    assert_eq!(h.total, 1024 * 768);
    assert_eq!(h.stride, 1024);
    assert_eq!(h.headerpath, "header.yaml");
    assert_eq!(h.raw, value);
    assert_eq!(h.to_size(), (1024, 768, 1024 * 768));
    assert_eq!(h.offset, 64);
    assert_eq!(h.to_subpath(), vec!["1.raw", "2.raw", "3.raw"]);
}

#[test]
fn get_subpath_and_get_path() {
    let h = Hraw::value_to_header("h", parsed(4, 4), serde_json::Value::Null);
    assert_eq!(h.get_subpath(1).unwrap(), "2.raw");
    assert!(matches!(h.get_subpath(3), Err(HrawError::PathNotFound)));
    let hraw = Hraw::from_header("dir".to_string(), h);
    assert_eq!(hraw.path_str(), "dir");
    assert_eq!(hraw.get_path(StringNumber::from(2usize)), Some("3.raw".to_string()));
    assert_eq!(hraw.get_path(StringNumber::from(3usize)), None);
    assert_eq!(hraw.get_path(StringNumber::from("x/y.raw".to_string())), Some("x/y.raw".to_string()));
    let copy = hraw.header();
    assert_eq!(copy.data, vec!["1.raw", "2.raw", "3.raw"]);
    assert_eq!(copy.total, 16);
}

#[test]
fn first_header_takes_the_first_present_name() {
    assert_eq!(hraw::first_header(&[false, false, false]), None);
    assert_eq!(hraw::first_header(&[true, true, true]), Some(0));
    assert_eq!(hraw::first_header(&[false, true, true]), Some(1));
    assert_eq!(hraw::first_header(&[false, false, true]), Some(2));
    assert_eq!(HEADER_LIST[2], "header.json");
}

#[test]
fn header_value_parses_yaml_and_json() {
    let (name, value) = hraw::header_value(1, "width : 4\nheight : 2\nbitfield : le_u8\n").unwrap();
    assert_eq!(name, "header.yml");
    assert_eq!(value["width"], 4);
    assert_eq!(value["bitfield"], "le_u8");
    assert_eq!(value, serde_yaml::from_str::<serde_json::Value>("width : 4\nheight : 2\nbitfield : le_u8\n").unwrap());
    let (name, value) = hraw::header_value(2, "{\"width\": 5, \"height\": 6}").unwrap();
    assert_eq!(name, "header.json");
    assert_eq!(value["height"], 6);
    assert!(matches!(hraw::header_value(0, "width: [1, 2"), Err(HrawError::HeaderParse)));
    assert!(matches!(hraw::header_value(0, "a: 1\n a: 2\n- b"), Err(HrawError::HeaderParse)));
}

#[test]
fn entry_kind_names_files_first() {
    assert_eq!(hraw::entry_kind(true, false), "file");
    assert_eq!(hraw::entry_kind(true, true), "file");
    assert_eq!(hraw::entry_kind(false, true), "dir");
    assert_eq!(hraw::entry_kind(false, false), "unknown");
}

#[test]
fn string_number_from_str_keeps_the_text() {
    match StringNumber::from("a/b.raw") {
        StringNumber::String(s) => assert_eq!(s, "a/b.raw"),
        StringNumber::Number(_) => panic!("a text is not an index"),
    }
}
