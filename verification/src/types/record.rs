use crate::common::{LABEL_SEPARATOR, MAX_DOMAIN_ASCII_CHAR_VALUE};
use crate::encoding::{
    be32, copy_range, field, get_be32, get_field, put_be32, put_bytes, put_field, un_be32, unfield,
};
use crate::text::{
    bytes_are_lower, bytes_eq, bytes_le, is_lower, lemma_ascii_bytes, lemma_lower_idempotent,
    lex_le, str_bytes, string_from_utf8,
};
use crate::types::record_name::{
    max_name, name_budget, opt_apex_bytes, record_fault, RecordName,
};
use crate::types::zone_apex_domain::ZoneApexDomain;
use crate::utils::repeat_char;
use vstd::prelude::*;
use vstd::string::*;
use vstd::utf8::*;

verus! {

/// The greatest length of a record's name, in bytes.
pub const RECORD_NAME_BYTES: usize = 255;

/// The greatest length of a record's type, in bytes.
pub const RECORD_TYPE_BYTES: usize = 12;

/// The greatest length of a record's data, in bytes.
pub const RECORD_DATA_BYTES: usize = 2550;

/// The length of what stands before the data in a stored record: the field
/// of the name, the field of the type, and the four bytes of the ttl.
pub const RECORD_HEAD_BYTES: usize = 273;

/// A record of a zone.
#[derive(Debug, Eq, PartialEq)]
pub struct DomainRecord {
    /// The name of the record, relative to the apex domain of its zone.
    pub name: RecordName,
    /// The type of the record, such as `CID`, `A`, `CNAME`, `TXT`, `NC`: at
    /// most 12 bytes, by custom in upper case.
    pub record_type: String,
    /// For how many seconds the record may be cached; zero for not at all.
    pub ttl: u32,
    /// The data of the record, in the form its type asks for: at most 2550
    /// bytes.
    pub data: String,
}

/// A record as plain values: the bytes of its texts, and its ttl.
pub struct RecordView {
    pub name: Seq<u8>,
    pub record_type: Seq<u8>,
    pub ttl: u32,
    pub data: Seq<u8>,
}

/// What may stand in for a record where only some of it is known; what is
/// not given is open.
#[derive(Debug)]
pub struct DomainRecordInput {
    /// The name of the record.
    pub name: Option<String>,
    /// The type of the record.
    pub record_type: Option<String>,
    /// For how many seconds the record may be cached.
    pub ttl: Option<u32>,
    /// The data of the record.
    pub data: Option<String>,
}

/// The bytes of the type `ANY`, which asks a lookup for the records of all
/// types and is the type of no record.
pub open spec fn any_type_bytes() -> Seq<u8> {
    seq![65u8, 78u8, 89u8]
}

/// Whether each text of the record is within its budget of bytes.
pub open spec fn record_encodable(v: RecordView) -> bool {
    &&& v.name.len() <= RECORD_NAME_BYTES
    &&& v.record_type.len() <= RECORD_TYPE_BYTES
    &&& v.data.len() <= RECORD_DATA_BYTES
}

/// Whether the record is one of the zone with the apex domain `apex`: its
/// name is a record name of that domain in lower case, its type and data
/// are texts within their budgets, and its type is not `ANY`.
pub open spec fn record_valid(v: RecordView, apex: Seq<u8>) -> bool {
    &&& record_fault(v.name, apex) is None
    &&& is_lower(v.name)
    &&& record_encodable(v)
    &&& v.record_type != any_type_bytes()
    &&& valid_utf8(v.name)
    &&& valid_utf8(v.record_type)
    &&& valid_utf8(v.data)
}

/// The stored form of a record: the field of its name, the field of its
/// type, the four bytes of its ttl, and its data.
pub open spec fn record_bytes(v: RecordView) -> Seq<u8> {
    field(v.name, RECORD_NAME_BYTES as nat) + field(v.record_type, RECORD_TYPE_BYTES as nat) + be32(
        v.ttl,
    ) + v.data
}

/// The record of the zone `apex` that the bytes `b` are the stored form of,
/// if they are one.
pub open spec fn record_decoding(b: Seq<u8>, apex: Seq<u8>) -> Option<RecordView> {
    if b.len() < RECORD_HEAD_BYTES {
        None
    } else {
        match (
            unfield(b.subrange(0, 256), RECORD_NAME_BYTES as nat),
            unfield(b.subrange(256, 269), RECORD_TYPE_BYTES as nat),
        ) {
            (Some(name), Some(record_type)) => {
                let v = RecordView {
                    name,
                    record_type,
                    ttl: un_be32(b.subrange(269, 273)),
                    data: b.skip(273),
                };
                if record_valid(v, apex) {
                    Some(v)
                } else {
                    None
                }
            },
            _ => None,
        }
    }
}

/// The order of records: by name, then by type, then by ttl, then by data;
/// texts in the lexicographic order of their bytes.
pub open spec fn record_le(a: RecordView, b: RecordView) -> bool {
    if a.name != b.name {
        lex_le(a.name, b.name)
    } else if a.record_type != b.record_type {
        lex_le(a.record_type, b.record_type)
    } else if a.ttl != b.ttl {
        a.ttl < b.ttl
    } else {
        lex_le(a.data, b.data)
    }
}

impl View for DomainRecord {
    type V = RecordView;

    open spec fn view(&self) -> RecordView {
        RecordView {
            name: self.name@,
            record_type: str_bytes(self.record_type@),
            ttl: self.ttl,
            data: str_bytes(self.data@),
        }
    }
}

impl Clone for DomainRecord {
    fn clone(&self) -> (r: Self)
        ensures
            r@ == self@,
    {
        DomainRecord {
            name: self.name.clone(),
            record_type: self.record_type.clone(),
            ttl: self.ttl,
            data: self.data.clone(),
        }
    }
}

impl Default for DomainRecord {
    /// The least record: the name `@`, no type, a ttl of zero, no data.
    fn default() -> (r: Self)
        ensures
            r@ == min_record(),
    {
        let r = DomainRecord {
            name: RecordName::default(),
            record_type: String::new(),
            ttl: Self::DEFAULT_TTL,
            data: String::new(),
        };
        proof {
            lemma_ascii_bytes(r.record_type@);
            assert(r@.record_type =~= Seq::<u8>::empty());
            assert(r@.data =~= Seq::<u8>::empty());
        }
        r
    }
}

impl Clone for DomainRecordInput {
    fn clone(&self) -> (r: Self)
        ensures
            r == *self,
    {
        DomainRecordInput {
            name: match &self.name {
                Some(s) => Some(s.clone()),
                None => None,
            },
            record_type: match &self.record_type {
                Some(s) => Some(s.clone()),
                None => None,
            },
            ttl: self.ttl,
            data: match &self.data {
                Some(s) => Some(s.clone()),
                None => None,
            },
        }
    }
}

impl Default for DomainRecordInput {
    /// Nothing given.
    fn default() -> (r: Self)
        ensures
            r.name is None,
            r.record_type is None,
            r.ttl is None,
            r.data is None,
    {
        DomainRecordInput { name: None, record_type: None, ttl: None, data: None }
    }
}

/// The least record: the name `@`, no type, a ttl of zero, no data.
pub open spec fn min_record() -> RecordView {
    RecordView {
        name: seq![crate::common::APEX_MARK],
        record_type: Seq::<u8>::empty(),
        ttl: 0,
        data: Seq::<u8>::empty(),
    }
}

/// `n` times the letter `z`.
pub open spec fn z_bytes(n: nat) -> Seq<u8> {
    Seq::new(n, |i: int| MAX_DOMAIN_ASCII_CHAR_VALUE)
}

impl DomainRecord {
    pub const FIELD_NAME_BYTE_SIZE: u32 = 255;

    pub const FIELD_RECORD_TYPE_BYTE_SIZE: u32 = 12;

    pub const FIELD_TTL_BYTE_SIZE: u32 = 4;

    pub const FIELD_DATA_BYTE_SIZE: u32 = 2550;

    /// The budget of a record, in bytes.
    pub const MAX_SIZE: u32 = Self::FIELD_NAME_BYTE_SIZE + Self::FIELD_RECORD_TYPE_BYTE_SIZE
        + Self::FIELD_TTL_BYTE_SIZE + Self::FIELD_DATA_BYTE_SIZE;

    pub const DEFAULT_TTL: u32 = 0;

    /// Makes a record of its four parts.
    pub fn new(name: RecordName, record_type: String, ttl: u32, data: String) -> (r: Self)
        ensures
            r.name == name,
            r.record_type == record_type,
            r.ttl == ttl,
            r.data == data,
    {
        Self { name, record_type, ttl, data }
    }

    /// The greatest record name for the apex domain: a record name of that
    /// domain which no record name of the domain comes after.
    pub fn max_record_name_value(apex_domain: Option<ZoneApexDomain>) -> (r: RecordName)
        ensures
            r@ == max_name(name_budget(opt_apex_bytes(apex_domain).len())),
            record_fault(r@, opt_apex_bytes(apex_domain)) is None,
            opt_apex_bytes(apex_domain).len() <= 253 ==> r@.len() + 1 + opt_apex_bytes(
                apex_domain,
            ).len() <= 255,
    {
        RecordName::max_value(apex_domain)
    }

    /// The greatest record type: 12 times the letter `z`.
    pub fn max_record_type_value() -> (r: String)
        ensures
            str_bytes(r@) == z_bytes(RECORD_TYPE_BYTES as nat),
    {
        let r = repeat_char('z', RECORD_TYPE_BYTES);
        proof {
            lemma_ascii_bytes(r@);
            assert(str_bytes(r@) =~= z_bytes(RECORD_TYPE_BYTES as nat));
        }
        r
    }

    /// The greatest data: 2550 times the letter `z`.
    pub fn max_data_value() -> (r: String)
        ensures
            str_bytes(r@) == z_bytes(RECORD_DATA_BYTES as nat),
    {
        let r = repeat_char('z', RECORD_DATA_BYTES);
        proof {
            lemma_ascii_bytes(r@);
            assert(str_bytes(r@) =~= z_bytes(RECORD_DATA_BYTES as nat));
        }
        r
    }

    /// The greatest ttl.
    pub fn max_ttl_value() -> (r: u32)
        ensures
            r == u32::MAX,
    {
        u32::MAX
    }

    /// Whether each text of the record is within its budget of bytes.
    pub fn is_encodable(&self) -> (r: bool)
        ensures
            r == record_encodable(self@),
    {
        self.name.as_str().as_bytes().len() <= RECORD_NAME_BYTES
            && self.record_type.as_str().as_bytes().len() <= RECORD_TYPE_BYTES
            && self.data.as_str().as_bytes().len() <= RECORD_DATA_BYTES
    }

    /// Whether the record is one of the zone with the apex domain
    /// `apex_domain`.
    pub fn is_valid_for(&self, apex_domain: &ZoneApexDomain) -> (r: bool)
        ensures
            r == record_valid(self@, apex_domain@),
    {
        broadcast use encode_utf8_valid_utf8;

        let name = self.name.as_str();
        assert(valid_utf8(str_bytes(name@)));
        assert(valid_utf8(str_bytes(self.record_type@)));
        assert(valid_utf8(str_bytes(self.data@)));
        match RecordName::validate(name, apex_domain) {
            Ok(()) => bytes_are_lower(name.as_bytes()) && self.is_encodable() && !is_any_type(
                self.record_type.as_str().as_bytes(),
            ),
            Err(_) => false,
        }
    }

    /// Whether the record comes before `other`, or equals it, in the order
    /// of records.
    pub fn le(&self, other: &Self) -> (r: bool)
        ensures
            r == record_le(self@, other@),
    {
        let a_name = self.name.as_str().as_bytes();
        let b_name = other.name.as_str().as_bytes();
        if !bytes_eq(a_name, b_name) {
            return bytes_le(a_name, b_name);
        }
        let a_type = self.record_type.as_str().as_bytes();
        let b_type = other.record_type.as_str().as_bytes();
        if !bytes_eq(a_type, b_type) {
            return bytes_le(a_type, b_type);
        }
        if self.ttl != other.ttl {
            return self.ttl < other.ttl;
        }
        bytes_le(self.data.as_str().as_bytes(), other.data.as_str().as_bytes())
    }

    /// The stored form of the record.
    pub fn to_bytes(&self) -> (r: Vec<u8>)
        requires
            record_encodable(self@),
        ensures
            r@ == record_bytes(self@),
    {
        let mut out: Vec<u8> = Vec::new();
        put_field(&mut out, self.name.as_str().as_bytes(), RECORD_NAME_BYTES);
        put_field(&mut out, self.record_type.as_str().as_bytes(), RECORD_TYPE_BYTES);
        put_be32(&mut out, self.ttl);
        put_bytes(&mut out, self.data.as_str().as_bytes());
        proof {
            assert(out@ =~= record_bytes(self@));
        }
        out
    }

    /// The record that `bytes` are the stored form of, if they are one. The
    /// name is held to the rules of the lone dot, which every record name of
    /// an apex domain meets.
    pub fn from_bytes(bytes: &[u8]) -> (r: Option<Self>)
        ensures
            match r {
                Some(record) => record_decoding(bytes@, seq![LABEL_SEPARATOR]) == Some(record@),
                None => record_decoding(bytes@, seq![LABEL_SEPARATOR]) is None,
            },
    {
        let apex = ZoneApexDomain::default();
        decode_record(bytes, &apex)
    }
}

/// Whether `record_type` is the type `ANY`.
pub fn is_any_type(record_type: &[u8]) -> (r: bool)
    ensures
        r == (record_type@ == any_type_bytes()),
{
    if record_type.len() != 3 {
        return false;
    }
    let r = record_type[0] == 65 && record_type[1] == 78 && record_type[2] == 89;
    proof {
        if r {
            assert(record_type@ =~= any_type_bytes());
        }
    }
    r
}

/// The record of the zone `apex_domain` that `bytes` are the stored form
/// of, if they are one.
pub fn decode_record(bytes: &[u8], apex_domain: &ZoneApexDomain) -> (r: Option<DomainRecord>)
    ensures
        match r {
            Some(record) => record_decoding(bytes@, apex_domain@) == Some(record@),
            None => record_decoding(bytes@, apex_domain@) is None,
        },
{
    broadcast use decode_utf8_encode_utf8;

    let n = bytes.len();
    if n < RECORD_HEAD_BYTES {
        return None;
    }
    let name_len = match get_field(bytes, 0, RECORD_NAME_BYTES) {
        Some(len) => len,
        None => {
            return None;
        },
    };
    let type_len = match get_field(bytes, 256, RECORD_TYPE_BYTES) {
        Some(len) => len,
        None => {
            return None;
        },
    };
    let ttl = get_be32(bytes, 269);
    let ghost v = RecordView {
        name: bytes@.subrange(0, name_len as int),
        record_type: bytes@.subrange(256, 256 + type_len),
        ttl,
        data: bytes@.skip(273),
    };
    if n - RECORD_HEAD_BYTES > RECORD_DATA_BYTES {
        return None;
    }
    let name_text = match string_from_utf8(copy_range(bytes, 0, name_len)) {
        Some(s) => s,
        None => {
            return None;
        },
    };
    let type_text = match string_from_utf8(copy_range(bytes, 256, 256 + type_len)) {
        Some(s) => s,
        None => {
            return None;
        },
    };
    let data_text = match string_from_utf8(copy_range(bytes, RECORD_HEAD_BYTES, n)) {
        Some(s) => s,
        None => {
            proof {
                assert(bytes@.subrange(273, n as int) =~= v.data);
            }
            return None;
        },
    };
    proof {
        assert(bytes@.subrange(273, n as int) =~= v.data);
        assert(str_bytes(name_text@) == v.name);
        assert(str_bytes(type_text@) == v.record_type);
        assert(str_bytes(data_text@) == v.data);
    }
    if !bytes_are_lower(name_text.as_str().as_bytes()) {
        return None;
    }
    if is_any_type(type_text.as_str().as_bytes()) {
        return None;
    }
    proof {
        lemma_lower_idempotent(v.name);
    }
    let name = match RecordName::new(name_text, apex_domain) {
        Ok(name) => name,
        Err(_) => {
            return None;
        },
    };
    let record = DomainRecord { name, record_type: type_text, ttl, data: data_text };
    proof {
        assert(record@ =~= v);
    }
    Some(record)
}

} // verus!
