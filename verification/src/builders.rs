//! Building a record part by part.

use crate::types::record::{min_record, DomainRecord, RecordView};
use crate::types::record_name::RecordName;
use crate::text::str_bytes;
use vstd::prelude::*;

verus! {

/// Builds a [`DomainRecord`] part by part. A part that is never set has the
/// value that it has in the least record: the name `@`, no type, a ttl of
/// zero, no data.
pub struct DomainRecordBuilder {
    name: RecordName,
    record_type: String,
    ttl: u32,
    data: String,
}

impl View for DomainRecordBuilder {
    type V = RecordView;

    /// The record that the builder would build.
    closed spec fn view(&self) -> RecordView {
        RecordView {
            name: self.name@,
            record_type: str_bytes(self.record_type@),
            ttl: self.ttl,
            data: str_bytes(self.data@),
        }
    }
}

impl Default for DomainRecordBuilder {
    fn default() -> (r: Self)
        ensures
            r@ == min_record(),
    {
        let record = DomainRecord::default();
        DomainRecordBuilder {
            name: record.name,
            record_type: record.record_type,
            ttl: record.ttl,
            data: record.data,
        }
    }
}

impl DomainRecordBuilder {
    /// A builder with no part set.
    pub fn new() -> (r: Self)
        ensures
            r@ == min_record(),
    {
        Self::default()
    }

    /// Sets the name, in place of the name set before.
    pub fn name(self, name: RecordName) -> (r: Self)
        ensures
            r@ == (RecordView { name: name@, ..self@ }),
    {
        DomainRecordBuilder { name, record_type: self.record_type, ttl: self.ttl, data: self.data }
    }

    /// Sets the type, in place of the type set before.
    pub fn record_type(self, record_type: String) -> (r: Self)
        ensures
            r@ == (RecordView { record_type: str_bytes(record_type@), ..self@ }),
    {
        DomainRecordBuilder { name: self.name, record_type, ttl: self.ttl, data: self.data }
    }

    /// Sets the ttl, in place of the ttl set before.
    pub fn ttl(self, ttl: u32) -> (r: Self)
        ensures
            r@ == (RecordView { ttl, ..self@ }),
    {
        DomainRecordBuilder {
            name: self.name,
            record_type: self.record_type,
            ttl,
            data: self.data,
        }
    }

    /// Sets the data, in place of the data set before.
    pub fn data(self, data: String) -> (r: Self)
        ensures
            r@ == (RecordView { data: str_bytes(data@), ..self@ }),
    {
        DomainRecordBuilder {
            name: self.name,
            record_type: self.record_type,
            ttl: self.ttl,
            data,
        }
    }

    /// The record of the parts that were set.
    pub fn build(self) -> (r: DomainRecord)
        ensures
            r@ == self@,
    {
        DomainRecord {
            name: self.name,
            record_type: self.record_type,
            ttl: self.ttl,
            data: self.data,
        }
    }
}

} // verus!
