use crate::common::LABEL_SEPARATOR;
use crate::encoding::{copy_range, field, get_field, put_field, unfield};
use crate::text::{
    bytes_are_lower, is_lower, lemma_lower_idempotent, str_bytes, string_from_utf8,
};
use crate::types::zone_apex_domain::{apex_fault, ZoneApexDomain};
use vstd::prelude::*;
use vstd::string::*;
use vstd::utf8::*;

verus! {

/// The greatest length of a zone's name, in bytes.
pub const ZONE_NAME_BYTES: usize = 255;

/// The length of a stored zone: the field of its name.
pub const ZONE_BYTES: usize = 256;

/// A zone: the records that one apex domain is the authority for.
#[derive(Debug, Eq, PartialEq)]
pub struct DomainZone {
    /// The apex domain of the zone.
    pub name: ZoneApexDomain,
}

/// What may stand in for a zone where its name may not be known.
#[derive(Debug)]
pub struct DomainZoneInput {
    /// The apex domain of the zone, such as `mydomain.tld.`.
    pub name: Option<String>,
}

/// Whether `z` is the name of a zone: an apex domain name in lower case.
pub open spec fn zone_valid(z: Seq<u8>) -> bool {
    &&& valid_utf8(z)
    &&& is_lower(z)
    &&& apex_fault(z) is None
}

/// The stored form of a zone with the name `z`: the field of its name.
pub open spec fn zone_bytes(z: Seq<u8>) -> Seq<u8> {
    field(z, ZONE_NAME_BYTES as nat)
}

/// The name of the zone that the bytes `b` are the stored form of, if they
/// are one.
pub open spec fn zone_decoding(b: Seq<u8>) -> Option<Seq<u8>> {
    match unfield(b, ZONE_NAME_BYTES as nat) {
        Some(z) => if zone_valid(z) {
            Some(z)
        } else {
            None
        },
        None => None,
    }
}

impl View for DomainZone {
    type V = Seq<u8>;

    open spec fn view(&self) -> Seq<u8> {
        self.name@
    }
}

impl Clone for DomainZone {
    fn clone(&self) -> (r: Self)
        ensures
            r@ == self@,
    {
        DomainZone { name: self.name.clone() }
    }
}

impl Default for DomainZone {
    /// The zone of the lone dot, which stands below every zone.
    fn default() -> (r: Self)
        ensures
            r@ == seq![LABEL_SEPARATOR],
    {
        DomainZone { name: ZoneApexDomain::default() }
    }
}

impl Clone for DomainZoneInput {
    fn clone(&self) -> (r: Self)
        ensures
            r == *self,
    {
        DomainZoneInput {
            name: match &self.name {
                Some(s) => Some(s.clone()),
                None => None,
            },
        }
    }
}

impl Default for DomainZoneInput {
    /// No name given.
    fn default() -> (r: Self)
        ensures
            r.name is None,
    {
        DomainZoneInput { name: None }
    }
}

impl DomainZone {
    pub const FIELD_NAME_BYTE_SIZE: u32 = 255;

    /// The budget of a zone, in bytes.
    pub const MAX_SIZE: u32 = Self::FIELD_NAME_BYTE_SIZE;

    /// The zone of the apex domain `name`.
    pub fn new(name: ZoneApexDomain) -> (r: Self)
        ensures
            r.name == name,
    {
        Self { name }
    }

    /// The stored form of the zone.
    pub fn to_bytes(&self) -> (r: Vec<u8>)
        ensures
            r@ == zone_bytes(self@),
    {
        let name = self.name.as_str().as_bytes();
        let mut out: Vec<u8> = Vec::new();
        put_field(&mut out, name, ZONE_NAME_BYTES);
        proof {
            assert(out@ =~= zone_bytes(self@));
        }
        out
    }

    /// The zone that `bytes` are the stored form of, if they are one.
    pub fn from_bytes(bytes: &[u8]) -> (r: Option<Self>)
        ensures
            match r {
                Some(zone) => zone_decoding(bytes@) == Some(zone@),
                None => zone_decoding(bytes@) is None,
            },
    {
        broadcast use decode_utf8_encode_utf8;

        if bytes.len() != ZONE_BYTES {
            return None;
        }
        proof {
            assert(bytes@.subrange(0, 256) =~= bytes@);
        }
        let len = match get_field(bytes, 0, ZONE_NAME_BYTES) {
            Some(len) => len,
            None => {
                return None;
            },
        };
        let ghost z = bytes@.subrange(0, len as int);
        let text = match string_from_utf8(copy_range(bytes, 0, len)) {
            Some(s) => s,
            None => {
                return None;
            },
        };
        proof {
            assert(str_bytes(text@) == z);
        }
        if !bytes_are_lower(text.as_str().as_bytes()) {
            return None;
        }
        proof {
            lemma_lower_idempotent(z);
        }
        match ZoneApexDomain::new(text) {
            Ok(name) => Some(DomainZone { name }),
            Err(_) => None,
        }
    }
}

} // verus!
