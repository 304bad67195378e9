//! A raw image format: a header (width, height, sample layout) beside one or
//! more raw bodies, in a directory or a zip archive.

pub mod command;
pub mod conversion;
pub mod pixel;
pub mod display;
pub mod processing;
pub mod rawnumber;
pub mod scripting;

use conversion::{spec_enumerate, spec_to_vec_i32, to_vec_i32, HrawIterator};
use rawnumber::{BitField, RawNumber};
use vstd::prelude::*;

verus! {

/// The names under which a header is looked for, in this order.
pub const HEADER_LIST: [&'static str; 3] = ["header.yaml", "header.yml", "header.json"];

/// A parsed JSON or YAML document, kept as it was read.
#[verifier::external_type_specification]
#[verifier::external_body]
pub struct ExJsonValue(serde_json::Value);

/// `Clone` of `serde_json::Value` (derived there, and by hand for its map,
/// field by field): the copy is the same document.
pub assume_specification[ <serde_json::Value as Clone>::clone ](v: &serde_json::Value) -> (r: serde_json::Value)
    ensures
        r == *v,
;

/// What can go wrong in reading an archive.
#[derive(Debug)]
pub enum HrawError<'a> {
    HeaderLoad,
    Call,
    TLoad(&'a str, &'a str, u32),
    Header,
    /// No raw body under the index asked for.
    PathNotFound,
    /// The samples are `unknown` and the header names no decoder.
    DecoderNotFound,
    /// The header's text is not a YAML (or JSON) document.
    HeaderParse,
}

/// The document that `serde_yaml` reads a text as, or `None` where the text
/// is not one.
pub uninterp spec fn yaml_document(text: Seq<char>) -> Option<serde_json::Value>;

/// `serde_yaml::from_str` into a `serde_json::Value`: the document, or `None`
/// where the text is not one. The result depends on the text alone (the
/// document's maps are ordered by key) and is left to the name
/// `yaml_document`.
#[verifier::external_body]
fn parse_header_text(text: &str) -> (r: Option<serde_json::Value>)
    ensures
        r == yaml_document(text@),
{
    serde_yaml::from_str::<serde_json::Value>(text).ok()
}

/// Which of the names in `HEADER_LIST` is used, given which of them are
/// present: the first one present, or `None` when none is.
pub fn first_header(present: &[bool]) -> (r: Option<usize>)
    requires
        present@.len() == HEADER_LIST@.len(),
    ensures
        match r {
            Some(i) => i < present@.len() && present@[i as int] && forall|j: int|
                0 <= j < i ==> !present@[j],
            None => forall|j: int| 0 <= j < present@.len() ==> !present@[j],
        },
{
    let mut i: usize = 0;
    while i < present.len()
        invariant
            i <= present@.len(),
            forall|j: int| 0 <= j < i ==> !present@[j],
        decreases present@.len() - i,
    {
        if present[i] {
            return Some(i);
        }
        i = i + 1;
    }
    None
}

/// The header found under the name `HEADER_LIST[name]`, whose text is
/// `text`: that name and the document the text holds.
pub fn header_value(name: usize, text: &str) -> (r: Result<(String, serde_json::Value), HrawError<'static>>)
    requires
        name < HEADER_LIST@.len(),
    ensures
        match r {
            Ok((n, v)) => n@ == HEADER_LIST@[name as int]@ && yaml_document(text@) == Some(v),
            Err(e) => e is HeaderParse && yaml_document(text@) is None,
        },
{
    match parse_header_text(text) {
        Some(value) => Ok((String::from_str(HEADER_LIST[name]), value)),
        None => Err(HrawError::HeaderParse),
    }
}

/// A raw body named by its path inside the archive, or by its index in the
/// header's `data` list.
#[derive(Debug, Clone)]
pub enum StringNumber {
    Number(usize),
    String(String),
}

impl From<String> for StringNumber {
    fn from(n: String) -> (r: Self) {
        StringNumber::String(n)
    }
}

impl vstd::std_specs::convert::FromSpecImpl<String> for StringNumber {
    open spec fn obeys_from_spec() -> bool {
        true
    }

    open spec fn from_spec(v: String) -> Self {
        StringNumber::String(v)
    }
}

impl<'a> From<&'a str> for StringNumber {
    fn from(n: &'a str) -> (r: Self)
        ensures
            r matches StringNumber::String(s) && s@ == n@,
    {
        StringNumber::String(String::from_str(n))
    }
}

/// A `String` has no spec constructor from a `&str`, so `==` on the result is
/// not claimed; `from` itself states that the text is kept.
impl<'a> vstd::std_specs::convert::FromSpecImpl<&'a str> for StringNumber {
    open spec fn obeys_from_spec() -> bool {
        false
    }

    open spec fn from_spec(v: &'a str) -> Self {
        StringNumber::String(choose|s: String| #![trigger s@] s@ == v@)
    }
}

impl From<usize> for StringNumber {
    fn from(n: usize) -> (r: Self) {
        StringNumber::Number(n)
    }
}

impl vstd::std_specs::convert::FromSpecImpl<usize> for StringNumber {
    open spec fn obeys_from_spec() -> bool {
        true
    }

    open spec fn from_spec(v: usize) -> Self {
        StringNumber::Number(v)
    }
}

/// The language of a decoder script.
#[derive(Debug, Clone, Copy, PartialEq, Eq, Structural)]
pub enum ScriptEnum {
    Lua,
    Py,
    Wasm,
}

/// A script that turns a raw body into samples, for `BitField::unknown`.
#[derive(Debug, Clone)]
pub struct HeaderDecoder {
    pub lang: ScriptEnum,
    pub code: String,
}

/// A decoder as its language and the text of its code.
pub open spec fn decoder_view(d: Option<HeaderDecoder>) -> Option<(ScriptEnum, Seq<char>)> {
    match d {
        Some(d) => Some((d.lang, d.code@)),
        None => None,
    }
}

fn copy_decoder(d: &Option<HeaderDecoder>) -> (r: Option<HeaderDecoder>)
    ensures
        decoder_view(r) == decoder_view(*d),
{
    match d {
        Some(d) => Some(HeaderDecoder { lang: d.lang, code: d.code.clone() }),
        None => None,
    }
}

pub fn default_lang() -> (r: ScriptEnum)
    ensures
        r == ScriptEnum::Lua,
{
    ScriptEnum::Lua
}

pub fn default_bitfield() -> (r: BitField)
    ensures
        r == BitField::le_i32,
{
    BitField::le_i32
}

pub fn default_data() -> (r: Vec<String>)
    ensures
        r.len() == 1,
        r[0]@ == "data.raw"@,
{
    let mut v = Vec::new();
    v.push(String::from_str("data.raw"));
    v
}

/// The header of an archive.
#[derive(Debug, Clone)]
pub struct Header {
    pub width: usize,
    pub height: usize,
    pub total: usize,
    pub stride: usize,
    pub offset: usize,
    pub bitfield: BitField,
    pub data: Vec<String>,
    pub decoder: Option<HeaderDecoder>,
    pub raw: serde_json::Value,
    pub headerpath: String,
}

impl Header {
    pub fn to_size(&self) -> (r: (usize, usize, usize))
        ensures
            r == (self.width, self.height, self.total),
    {
        (self.width, self.height, self.total)
    }

    pub fn to_subpath(&self) -> (r: Vec<String>)
        ensures
            r.deep_view() == self.data.deep_view(),
    {
        self.data.clone()
    }

    pub fn get_subpath(&self, index: usize) -> (r: Result<String, HrawError<'static>>)
        ensures
            index < self.data.len() ==> (r matches Ok(s) && s@ == self.data[index as int]@),
            index >= self.data.len() ==> (r matches Err(HrawError::PathNotFound)),
    {
        if index < self.data.len() {
            Ok(self.data[index].clone())
        } else {
            Err(HrawError::PathNotFound)
        }
    }
}

/// What reading a raw body as `i32` samples comes to: the samples, or, for
/// `BitField::unknown`, the decoder script that has to read it.
#[derive(Debug)]
pub enum Decoding {
    Samples(Vec<i32>),
    Script(HeaderDecoder),
}

/// An opened archive: where it is and its header.
#[derive(Debug)]
pub struct Hraw {
    path: String,
    header: Header,
}

impl Hraw {
    pub closed spec fn spec_path(&self) -> Seq<char> {
        self.path@
    }

    pub closed spec fn spec_header(&self) -> Header {
        self.header
    }

    /// An archive at `path` whose header has been read.
    pub fn from_header(path: String, header: Header) -> (r: Hraw)
        ensures
            r.spec_path() == path@,
            r.spec_header() == header,
    {
        Hraw { path, header }
    }

    /// Completes a header just parsed from the file `filename`: the number of
    /// samples, the stride, the document it was parsed from and its name.
    pub fn value_to_header(filename: &str, parsed: Header, value: serde_json::Value) -> (r: Header)
        requires
            parsed.width * parsed.height <= usize::MAX,
        ensures
            r.total == parsed.width * parsed.height,
            r.stride == parsed.width,
            r.raw == value,
            r.headerpath@ == filename@,
            r.width == parsed.width,
            r.height == parsed.height,
            r.offset == parsed.offset,
            r.bitfield == parsed.bitfield,
            r.data == parsed.data,
            r.decoder == parsed.decoder,
    {
        let mut dst = parsed;
        dst.total = dst.width * dst.height;
        dst.stride = dst.width;
        dst.raw = value;
        dst.headerpath = String::from_str(filename);
        dst
    }

    /// The path of a raw body: the one given, or the one the header lists
    /// under the index given.
    pub fn get_path(&self, value: StringNumber) -> (r: Option<String>)
        ensures
            value matches StringNumber::String(s) ==> r == Some(s),
            value matches StringNumber::Number(n) ==> (if n < self.spec_header().data.len() {
                r matches Some(p) && p@ == self.spec_header().data[n as int]@
            } else {
                r is None
            }),
    {
        match value {
            StringNumber::String(c) => Some(c),
            StringNumber::Number(n) => {
                if n < self.header.data.len() {
                    Some(self.header.data[n].clone())
                } else {
                    None
                }
            },
        }
    }

    pub fn path_str(&self) -> (r: &str)
        ensures
            r@ == self.spec_path(),
    {
        self.path.as_str()
    }

    pub fn header(&self) -> (r: Header)
        ensures
            r.width == self.spec_header().width,
            r.height == self.spec_header().height,
            r.total == self.spec_header().total,
            r.stride == self.spec_header().stride,
            r.offset == self.spec_header().offset,
            r.bitfield == self.spec_header().bitfield,
            r.data.deep_view() == self.spec_header().data.deep_view(),
            decoder_view(r.decoder) == decoder_view(self.spec_header().decoder),
            r.raw == self.spec_header().raw,
            r.headerpath@ == self.spec_header().headerpath@,
    {
        let h = &self.header;
        Header {
            width: h.width,
            height: h.height,
            total: h.total,
            stride: h.stride,
            offset: h.offset,
            bitfield: h.bitfield,
            data: h.data.clone(),
            decoder: copy_decoder(&h.decoder),
            raw: h.raw.clone(),
            headerpath: h.headerpath.clone(),
        }
    }

    /// Reads the raw body `stream` as the header's `total` samples of `i32`;
    /// for `BitField::unknown`, hands back the decoder script instead.
    pub fn decode_i32(&self, stream: &[u8]) -> (r: Result<Decoding, HrawError<'static>>)
        ensures
            self.spec_header().bitfield != BitField::unknown ==> (r matches Ok(Decoding::Samples(v))
                && v@ == spec_to_vec_i32(
                self.spec_header().bitfield,
                stream@,
                self.spec_header().offset as nat,
                self.spec_header().total as nat,
            )),
            self.spec_header().bitfield == BitField::unknown ==> (match self.spec_header().decoder {
                None => r matches Err(HrawError::DecoderNotFound),
                Some(d) => r matches Ok(Decoding::Script(s)) && s.lang == d.lang && s.code@ == d.code@,
            }),
    {
        let h = &self.header;
        if h.bitfield != BitField::unknown {
            Ok(Decoding::Samples(to_vec_i32(h.bitfield, stream, h.offset, h.total)))
        } else {
            match &h.decoder {
                None => Err(HrawError::DecoderNotFound),
                Some(d) => Ok(Decoding::Script(HeaderDecoder { lang: d.lang, code: d.code.clone() })),
            }
        }
    }
}

/// How an archive's listing names an entry: a file first, else a directory,
/// else unknown.
pub fn entry_kind(is_file: bool, is_dir: bool) -> (r: &'static str)
    ensures
        r@ == (if is_file {
            "file"@
        } else if is_dir {
            "dir"@
        } else {
            "unknown"@
        }),
{
    if is_file {
        "file"
    } else if is_dir {
        "dir"
    } else {
        "unknown"
    }
}

/// Enumerating the samples of a raw body.
pub trait HrawEnumerater {
    fn enumerate<U: RawNumber>(&self, stream: Vec<u8>) -> HrawIterator<U>;
}

impl HrawEnumerater for Hraw {
    /// The header's `total` samples of the raw body `stream`, after its
    /// `offset` bytes.
    fn enumerate<U: RawNumber>(&self, stream: Vec<u8>) -> (r: HrawIterator<U>)
        ensures
            r@ == spec_enumerate(
                U::spec_bitfield(),
                stream@,
                self.spec_header().offset as nat,
                self.spec_header().total as nat,
            ),
    {
        HrawIterator::new(stream, self.header.offset, self.header.total)
    }
}

} // verus!
