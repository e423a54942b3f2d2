use crate::encoding::{
    be32, field, lemma_be32_order, lemma_be32_roundtrip, lemma_field_order,
    lemma_field_roundtrip, lemma_lex_le_blocks, lemma_un_be32_exact, lemma_unfield_exact,
    put_bytes, un_be32, unfield,
};
use crate::common::{APEX_MARK, LABEL_SEPARATOR};
use crate::errors::{SearchFault, SearchInputError};
use crate::repositories::setup::RepositorySearchInto;
use crate::text::{bytes_eq, bytes_le, law_lex_order_total, lex_le, str_bytes};
use crate::types::record::{
    decode_record, record_bytes, record_decoding, record_encodable, record_le, record_valid,
    z_bytes, DomainRecord, DomainRecordInput, RecordView, RECORD_DATA_BYTES, RECORD_TYPE_BYTES,
};
use crate::types::record_name::{max_name, name_budget, record_outcome, RecordName};
use crate::types::zone::{
    zone_bytes, zone_decoding, zone_valid, DomainZone, DomainZoneInput, ZONE_BYTES,
};
use crate::types::zone_apex_domain::{
    apex_outcome, law_apex_bytes, lemma_max_domain_name_is_apex, ZoneApexDomain,
};
use crate::utils::max_domain_name_bytes;
use vstd::prelude::*;
use vstd::string::*;

verus! {

/// An entry of the store: a zone and one of its records. The entry is its
/// own key: two entries are one where every part of them is the same.
#[derive(Debug, Eq, PartialEq)]
pub struct DomainZoneEntry(pub DomainZone, pub DomainRecord);

/// An entry as plain values.
pub struct EntryView {
    pub zone: Seq<u8>,
    pub record: RecordView,
}

/// Whether each text of the entry is within its budget of bytes.
pub open spec fn entry_encodable(v: EntryView) -> bool {
    v.zone.len() <= 255 && record_encodable(v.record)
}

/// Whether the entry is one that the store holds: a zone with a valid name
/// and a record of that zone.
pub open spec fn entry_valid(v: EntryView) -> bool {
    zone_valid(v.zone) && record_valid(v.record, v.zone)
}

/// The stored form of an entry: its zone, then its record.
pub open spec fn entry_bytes(v: EntryView) -> Seq<u8> {
    zone_bytes(v.zone) + record_bytes(v.record)
}

/// The entry that the bytes `b` are the stored form of, if they are one.
pub open spec fn entry_decoding(b: Seq<u8>) -> Option<EntryView> {
    if b.len() < ZONE_BYTES {
        None
    } else {
        match zone_decoding(b.take(ZONE_BYTES as int)) {
            Some(zone) => match record_decoding(b.skip(ZONE_BYTES as int), zone) {
                Some(record) => Some(EntryView { zone, record }),
                None => None,
            },
            None => None,
        }
    }
}

/// The order of entries: by the name of the zone, then by the record;
/// texts in the lexicographic order of their bytes.
pub open spec fn entry_le(a: EntryView, b: EntryView) -> bool {
    if a.zone != b.zone {
        lex_le(a.zone, b.zone)
    } else {
        record_le(a.record, b.record)
    }
}

/// Whether `a` comes before `b` and is another entry.
pub open spec fn entry_lt(a: EntryView, b: EntryView) -> bool {
    entry_le(a, b) && a != b
}

impl View for DomainZoneEntry {
    type V = EntryView;

    open spec fn view(&self) -> EntryView {
        EntryView { zone: self.0@, record: self.1@ }
    }
}

impl Clone for DomainZoneEntry {
    fn clone(&self) -> (r: Self)
        ensures
            r@ == self@,
    {
        DomainZoneEntry(self.0.clone(), self.1.clone())
    }
}

impl DomainZoneEntry {
    pub const TUPLE_ZONE_BYTE_SIZE: u32 = DomainZone::MAX_SIZE;

    pub const TUPLE_RECORD_BYTE_SIZE: u32 = DomainRecord::MAX_SIZE;

    /// The budget of an entry, in bytes.
    pub const MAX_SIZE: u32 = Self::TUPLE_ZONE_BYTE_SIZE + Self::TUPLE_RECORD_BYTE_SIZE;

    /// The entry of `record` in `zone`.
    pub fn new(zone: DomainZone, record: DomainRecord) -> (r: Self)
        ensures
            r.0 == zone,
            r.1 == record,
    {
        Self(zone, record)
    }

    /// Whether each text of the entry is within its budget of bytes.
    pub fn is_encodable(&self) -> (r: bool)
        ensures
            r == entry_encodable(self@),
    {
        proof {
            use_type_invariant(&self.0.name);
            law_apex_bytes(self.0@);
        }
        self.1.is_encodable()
    }

    /// Whether the entry is one that the store holds.
    pub fn is_valid(&self) -> (r: bool)
        ensures
            r == entry_valid(self@),
    {
        broadcast use vstd::utf8::encode_utf8_valid_utf8;

        let zone = self.0.name.as_str();
        assert(vstd::utf8::valid_utf8(crate::text::str_bytes(zone@)));
        if zone.as_bytes().len() == 1 {
            proof {
                crate::types::zone_apex_domain::lemma_lone_dot_is_no_name(self.0@);
            }
            return false;
        }
        self.1.is_valid_for(&self.0.name)
    }

    /// Whether the entry comes before `other`, or equals it, in the order
    /// of entries.
    pub fn le(&self, other: &Self) -> (r: bool)
        ensures
            r == entry_le(self@, other@),
    {
        let a = self.0.name.as_str().as_bytes();
        let b = other.0.name.as_str().as_bytes();
        if !bytes_eq(a, b) {
            return bytes_le(a, b);
        }
        self.1.le(&other.1)
    }

    /// The stored form of the entry.
    pub fn to_bytes(&self) -> (r: Vec<u8>)
        requires
            record_encodable(self@.record),
        ensures
            r@ == entry_bytes(self@),
    {
        let mut out = self.0.to_bytes();
        let record = self.1.to_bytes();
        put_bytes(&mut out, record.as_slice());
        out
    }

    /// The entry that `bytes` are the stored form of, if they are one.
    pub fn from_bytes(bytes: &[u8]) -> (r: Option<Self>)
        ensures
            match r {
                Some(entry) => entry_decoding(bytes@) == Some(entry@),
                None => entry_decoding(bytes@) is None,
            },
    {
        let n = bytes.len();
        if n < ZONE_BYTES {
            return None;
        }
        let head = vstd::slice::slice_subrange(bytes, 0, ZONE_BYTES);
        let tail = vstd::slice::slice_subrange(bytes, ZONE_BYTES, n);
        proof {
            assert(head@ =~= bytes@.take(ZONE_BYTES as int));
            assert(tail@ =~= bytes@.skip(ZONE_BYTES as int));
        }
        let zone = match DomainZone::from_bytes(head) {
            Some(zone) => zone,
            None => {
                return None;
            },
        };
        match decode_record(tail, &zone.name) {
            Some(record) => Some(DomainZoneEntry(zone, record)),
            None => None,
        }
    }
}

/// A partial description of an entry: the zone and each part of the record
/// may be given or left open. It stands for the entries that agree with
/// what is given.
#[derive(Debug)]
pub struct DomainZoneEntryInput(pub DomainZoneInput, pub DomainRecordInput);

/// A partial description of an entry as plain values.
pub struct EntryInputView {
    pub zone: Option<Seq<u8>>,
    pub name: Option<Seq<u8>>,
    pub record_type: Option<Seq<u8>>,
    pub ttl: Option<u32>,
    pub data: Option<Seq<u8>>,
}

/// The bytes of a text that may be missing.
pub open spec fn opt_bytes(text: Option<String>) -> Option<Seq<u8>> {
    match text {
        Some(s) => Some(str_bytes(s@)),
        None => None,
    }
}

/// One end of the range that a description stands for. What the
/// description gives is taken as it is, names in lower case; what it leaves
/// open is filled with the least value for the lower end and with the
/// greatest for the upper end. The least values are the lone dot, the name
/// `@`, the empty type, the ttl zero and the empty data; the greatest are
/// the greatest domain name, the greatest record name for the zone, 12
/// times `z`, the greatest ttl and 2550 times `z`. A name that is given
/// has to be valid, and a type and data within their budgets.
pub open spec fn range_end(input: EntryInputView, upper: bool) -> Result<EntryView, SearchFault> {
    let zone_end = match input.zone {
        Some(raw) => apex_outcome(raw),
        None => Ok(
            if upper {
                max_domain_name_bytes()
            } else {
                seq![LABEL_SEPARATOR]
            },
        ),
    };
    match zone_end {
        Err(fault) => Err(SearchFault::Zone(fault)),
        Ok(zone) => {
            let name_end = match input.name {
                Some(raw) => record_outcome(raw, zone),
                None => Ok(
                    if upper {
                        max_name(name_budget(zone.len()))
                    } else {
                        seq![APEX_MARK]
                    },
                ),
            };
            match name_end {
                Err(fault) => Err(SearchFault::Record(fault)),
                Ok(name) => {
                    let record_type = match input.record_type {
                        Some(given) => given,
                        None => if upper {
                            z_bytes(RECORD_TYPE_BYTES as nat)
                        } else {
                            Seq::<u8>::empty()
                        },
                    };
                    let ttl = match input.ttl {
                        Some(given) => given,
                        None => if upper {
                            u32::MAX
                        } else {
                            0
                        },
                    };
                    let data = match input.data {
                        Some(given) => given,
                        None => if upper {
                            z_bytes(RECORD_DATA_BYTES as nat)
                        } else {
                            Seq::<u8>::empty()
                        },
                    };
                    if record_type.len() > RECORD_TYPE_BYTES {
                        Err(
                            SearchFault::RecordTypeTooLong {
                                type_length: record_type.len(),
                                max_type_length: RECORD_TYPE_BYTES as nat,
                            },
                        )
                    } else if data.len() > RECORD_DATA_BYTES {
                        Err(
                            SearchFault::DataTooLong {
                                data_length: data.len(),
                                max_data_length: RECORD_DATA_BYTES as nat,
                            },
                        )
                    } else {
                        Ok(EntryView { zone, record: RecordView { name, record_type, ttl, data } })
                    }
                },
            }
        },
    }
}

impl View for DomainZoneEntryInput {
    type V = EntryInputView;

    open spec fn view(&self) -> EntryInputView {
        EntryInputView {
            zone: opt_bytes(self.0.name),
            name: opt_bytes(self.1.name),
            record_type: opt_bytes(self.1.record_type),
            ttl: self.1.ttl,
            data: opt_bytes(self.1.data),
        }
    }
}

impl Clone for DomainZoneEntryInput {
    fn clone(&self) -> (r: Self)
        ensures
            r == *self,
    {
        DomainZoneEntryInput(self.0.clone(), self.1.clone())
    }
}

impl DomainZoneEntryInput {
    /// The description that gives of the zone what `zone` gives, and of the
    /// record what `record` gives.
    pub fn new(zone: DomainZoneInput, record: DomainRecordInput) -> (r: Self)
        ensures
            r.0 == zone,
            r.1 == record,
    {
        Self(zone, record)
    }

    /// One end of the range that the description stands for: the lower end,
    /// or the upper end where `upper` says so.
    pub fn map_to_range_key(&self, upper: bool) -> (r: Result<DomainZoneEntry, SearchInputError>)
        ensures
            match r {
                Ok(entry) => range_end(self@, upper) == Ok::<EntryView, SearchFault>(entry@)
                    && entry_encodable(entry@),
                Err(e) => range_end(self@, upper) == Err::<EntryView, SearchFault>(e@),
            },
    {
        let apex = match &self.0.name {
            Some(name) => match ZoneApexDomain::new(name.clone()) {
                Ok(apex) => apex,
                Err(e) => {
                    return Err(SearchInputError::Zone(e));
                },
            },
            None => if upper {
                ZoneApexDomain::max_value()
            } else {
                ZoneApexDomain::default()
            },
        };
        let name = match &self.1.name {
            Some(name) => match RecordName::new(name.clone(), &apex) {
                Ok(name) => name,
                Err(e) => {
                    return Err(SearchInputError::Record(e));
                },
            },
            None => if upper {
                DomainRecord::max_record_name_value(Some(apex.clone()))
            } else {
                RecordName::default()
            },
        };
        let record_type = match &self.1.record_type {
            Some(given) => given.clone(),
            None => if upper {
                DomainRecord::max_record_type_value()
            } else {
                String::new()
            },
        };
        let ttl = match self.1.ttl {
            Some(given) => given,
            None => if upper {
                DomainRecord::max_ttl_value()
            } else {
                0
            },
        };
        let data = match &self.1.data {
            Some(given) => given.clone(),
            None => if upper {
                DomainRecord::max_data_value()
            } else {
                String::new()
            },
        };
        proof {
            crate::text::lemma_ascii_bytes(Seq::<char>::empty());
            assert(str_bytes(Seq::<char>::empty()) =~= Seq::<u8>::empty());
        }
        let type_length = record_type.as_str().as_bytes().len();
        if type_length > RECORD_TYPE_BYTES {
            return Err(
                SearchInputError::RecordTypeTooLong {
                    type_length,
                    max_type_length: RECORD_TYPE_BYTES,
                },
            );
        }
        let data_length = data.as_str().as_bytes().len();
        if data_length > RECORD_DATA_BYTES {
            return Err(
                SearchInputError::DataTooLong { data_length, max_data_length: RECORD_DATA_BYTES },
            );
        }
        let entry = DomainZoneEntry(
            DomainZone { name: apex },
            DomainRecord { name, record_type, ttl, data },
        );
        proof {
            assert(entry@ =~= range_end(self@, upper)->Ok_0);
            lemma_range_end_encodable(self@, upper);
        }
        Ok(entry)
    }
}

impl RepositorySearchInto<DomainZoneEntry, SearchInputError> for DomainZoneEntryInput {
    fn map_to_lower_range_key(&self) -> (r: Result<DomainZoneEntry, SearchInputError>)
        ensures
            match r {
                Ok(entry) => range_end(self@, false) == Ok::<EntryView, SearchFault>(entry@)
                    && entry_encodable(entry@),
                Err(e) => range_end(self@, false) == Err::<EntryView, SearchFault>(e@),
            },
    {
        self.map_to_range_key(false)
    }

    fn map_to_upper_range_key(&self) -> (r: Result<DomainZoneEntry, SearchInputError>)
        ensures
            match r {
                Ok(entry) => range_end(self@, true) == Ok::<EntryView, SearchFault>(entry@)
                    && entry_encodable(entry@),
                Err(e) => range_end(self@, true) == Err::<EntryView, SearchFault>(e@),
            },
    {
        self.map_to_range_key(true)
    }
}

/// Each end of a range is within the budgets of the stored form.
pub proof fn lemma_range_end_encodable(input: EntryInputView, upper: bool)
    requires
        range_end(input, upper) is Ok,
    ensures
        entry_encodable(range_end(input, upper)->Ok_0),
{
    let v = range_end(input, upper)->Ok_0;
    lemma_max_domain_name_is_apex();
    assert(1 <= v.zone.len() <= 255);
    if input.name is Some {
        assert(crate::types::record_name::qualified(v.record.name, v.zone).len()
            == v.record.name.len() + 1 + v.zone.len());
    }
}

/// A stored record holds its four parts one behind the other.
pub proof fn lemma_record_bytes_parts(v: RecordView)
    requires
        record_encodable(v),
    ensures
        record_bytes(v).len() == 273 + v.data.len(),
        record_bytes(v).subrange(0, 256) == field(v.name, 255),
        record_bytes(v).subrange(256, 269) == field(v.record_type, 12),
        record_bytes(v).subrange(269, 273) == be32(v.ttl),
        record_bytes(v).skip(273) == v.data,
{
    lemma_field_roundtrip(v.name, 255);
    lemma_field_roundtrip(v.record_type, 12);
    let b = record_bytes(v);
    assert(b.subrange(0, 256) =~= field(v.name, 255));
    assert(b.subrange(256, 269) =~= field(v.record_type, 12));
    assert(b.subrange(269, 273) =~= be32(v.ttl));
    assert(b.skip(273) =~= v.data);
}

/// Decoding the stored form of a record of a zone gives the record back,
/// whether it is read as a record of that zone or on its own.
pub proof fn law_record_roundtrip(v: RecordView, apex: Seq<u8>)
    requires
        apex.len() >= 1,
        record_valid(v, apex),
    ensures
        record_decoding(record_bytes(v), apex) == Some(v),
        record_decoding(record_bytes(v), seq![LABEL_SEPARATOR]) == Some(v),
{
    lemma_record_bytes_parts(v);
    lemma_field_roundtrip(v.name, 255);
    lemma_field_roundtrip(v.record_type, 12);
    lemma_be32_roundtrip(v.ttl);
    crate::types::record_name::law_lone_dot_admits(v.name, apex);
    let r = record_decoding(record_bytes(v), apex);
    assert(r is Some);
    assert(r->0 =~= v);
    let alone = record_decoding(record_bytes(v), seq![LABEL_SEPARATOR]);
    assert(alone is Some);
    assert(alone->0 =~= v);
}

/// Decoding the stored form of a zone with a valid name gives the name back.
pub proof fn law_zone_roundtrip(zone: Seq<u8>)
    requires
        zone_valid(zone),
    ensures
        zone_decoding(zone_bytes(zone)) == Some(zone),
{
    lemma_field_roundtrip(zone, 255);
}

/// Decoding the stored form of a valid entry gives the entry back.
pub proof fn law_entry_roundtrip(v: EntryView)
    requires
        entry_valid(v),
    ensures
        entry_decoding(entry_bytes(v)) == Some(v),
{
    let b = entry_bytes(v);
    lemma_field_roundtrip(v.zone, 255);
    assert(b.take(256) =~= zone_bytes(v.zone));
    assert(b.skip(256) =~= record_bytes(v.record));
    lemma_record_bytes_parts(v.record);
    lemma_field_roundtrip(v.record.name, 255);
    lemma_field_roundtrip(v.record.record_type, 12);
    lemma_be32_roundtrip(v.record.ttl);
    let r = record_decoding(record_bytes(v.record), v.zone);
    assert(r is Some);
    assert(r->0 =~= v.record);
}

/// What decodes to an entry is the stored form of that entry, and the
/// entry is valid.
pub proof fn lemma_entry_decoding_exact(b: Seq<u8>)
    requires
        entry_decoding(b) is Some,
    ensures
        entry_valid(entry_decoding(b)->0),
        entry_encodable(entry_decoding(b)->0),
        entry_bytes(entry_decoding(b)->0) == b,
{
    let v = entry_decoding(b)->0;
    let zb = b.take(256);
    let rb = b.skip(256);
    lemma_unfield_exact(zb, 255);
    lemma_unfield_exact(rb.subrange(0, 256), 255);
    lemma_unfield_exact(rb.subrange(256, 269), 12);
    lemma_un_be32_exact(rb.subrange(269, 273));
    assert(rb =~= rb.subrange(0, 256) + rb.subrange(256, 269) + rb.subrange(269, 273) + rb.skip(
        273,
    ));
    assert(b =~= zb + rb);
}

/// The stored forms of two records are ordered as the records, and differ
/// where the records differ.
pub proof fn lemma_record_bytes_order(x: RecordView, y: RecordView)
    requires
        record_encodable(x),
        record_encodable(y),
    ensures
        lex_le(record_bytes(x), record_bytes(y)) == record_le(x, y),
        (record_bytes(x) == record_bytes(y)) == (x == y),
{
    let nx = field(x.name, 255);
    let ny = field(y.name, 255);
    let tx = field(x.record_type, 12);
    let ty = field(y.record_type, 12);
    let bx = be32(x.ttl);
    let by = be32(y.ttl);
    lemma_field_order(x.name, y.name, 255);
    lemma_field_order(x.record_type, y.record_type, 12);
    lemma_be32_order(x.ttl, y.ttl);
    lemma_be32_roundtrip(x.ttl);
    lemma_be32_roundtrip(y.ttl);
    assert(record_bytes(x) =~= nx + (tx + (bx + x.data)));
    assert(record_bytes(y) =~= ny + (ty + (by + y.data)));
    lemma_lex_le_blocks(nx, tx + (bx + x.data), ny, ty + (by + y.data));
    lemma_lex_le_blocks(tx, bx + x.data, ty, by + y.data);
    lemma_lex_le_blocks(bx, x.data, by, y.data);
    if record_bytes(x) == record_bytes(y) {
        lemma_record_bytes_parts(x);
        lemma_record_bytes_parts(y);
        assert(x =~= y);
    }
}

/// The stored forms of two entries are ordered as the entries, and differ
/// where the entries differ: the order of the store is the order of its
/// entries.
pub proof fn law_entry_bytes_order(x: EntryView, y: EntryView)
    requires
        entry_encodable(x),
        entry_encodable(y),
    ensures
        lex_le(entry_bytes(x), entry_bytes(y)) == entry_le(x, y),
        (entry_bytes(x) == entry_bytes(y)) == (x == y),
{
    lemma_field_order(x.zone, y.zone, 255);
    lemma_record_bytes_order(x.record, y.record);
    lemma_lex_le_blocks(
        zone_bytes(x.zone),
        record_bytes(x.record),
        zone_bytes(y.zone),
        record_bytes(y.record),
    );
    if entry_bytes(x) == entry_bytes(y) {
        lemma_field_roundtrip(x.zone, 255);
        lemma_field_roundtrip(y.zone, 255);
        assert(entry_bytes(x).take(256) =~= zone_bytes(x.zone));
        assert(entry_bytes(y).take(256) =~= zone_bytes(y.zone));
        assert(entry_bytes(x).skip(256) =~= record_bytes(x.record));
        assert(entry_bytes(y).skip(256) =~= record_bytes(y.record));
        assert(x =~= y);
    }
}

/// The order of records is a total order.
pub proof fn law_record_order_total(a: RecordView, b: RecordView, c: RecordView)
    ensures
        record_le(a, a),
        record_le(a, b) || record_le(b, a),
        record_le(a, b) && record_le(b, a) ==> a == b,
        record_le(a, b) && record_le(b, c) ==> record_le(a, c),
{
    law_lex_order_total(a.name, b.name, c.name);
    law_lex_order_total(b.name, a.name, c.name);
    law_lex_order_total(a.record_type, b.record_type, c.record_type);
    law_lex_order_total(b.record_type, a.record_type, c.record_type);
    law_lex_order_total(a.data, b.data, c.data);
    law_lex_order_total(b.data, a.data, c.data);
    if record_le(a, b) && record_le(b, a) {
        assert(a =~= b);
    }
}

/// The order of entries is a total order.
pub proof fn law_entry_order_total(a: EntryView, b: EntryView, c: EntryView)
    ensures
        entry_le(a, a),
        entry_le(a, b) || entry_le(b, a),
        entry_le(a, b) && entry_le(b, a) ==> a == b,
        entry_le(a, b) && entry_le(b, c) ==> entry_le(a, c),
{
    law_lex_order_total(a.zone, b.zone, c.zone);
    law_lex_order_total(b.zone, a.zone, c.zone);
    law_record_order_total(a.record, b.record, c.record);
    if entry_le(a, b) && entry_le(b, a) {
        assert(a =~= b);
    }
}

/// Between entries of two zones the names of the zones decide the order,
/// whatever the records hold; and so they do between their stored forms.
pub proof fn law_zone_decides_order(x: EntryView, y: EntryView)
    requires
        x.zone != y.zone,
    ensures
        entry_le(x, y) == lex_le(x.zone, y.zone),
        entry_encodable(x) && entry_encodable(y) ==> lex_le(entry_bytes(x), entry_bytes(y))
            == lex_le(x.zone, y.zone),
{
    if entry_encodable(x) && entry_encodable(y) {
        law_entry_bytes_order(x, y);
    }
}

} // verus!
