use vstd::prelude::*;
use vstd::string::*;

verus! {

/// The record types that a domain record commonly has.
#[derive(Clone, Copy, Debug, PartialEq, Eq, Structural)]
pub enum DomainRecordTypes {
    A,
    AAAA,
    CID,
    CNAME,
    MX,
    NC,
    NS,
    TXT,
}

impl DomainRecordTypes {
    /// The text of the record type, in upper case.
    pub open spec fn text(self) -> Seq<char> {
        match self {
            DomainRecordTypes::A => "A"@,
            DomainRecordTypes::AAAA => "AAAA"@,
            DomainRecordTypes::CID => "CID"@,
            DomainRecordTypes::CNAME => "CNAME"@,
            DomainRecordTypes::MX => "MX"@,
            DomainRecordTypes::NC => "NC"@,
            DomainRecordTypes::NS => "NS"@,
            DomainRecordTypes::TXT => "TXT"@,
        }
    }

    /// The record type as a string.
    pub fn to_string(&self) -> (r: String)
        ensures
            r@ == self.text(),
    {
        match self {
            DomainRecordTypes::A => String::from_str("A"),
            DomainRecordTypes::AAAA => String::from_str("AAAA"),
            DomainRecordTypes::CID => String::from_str("CID"),
            DomainRecordTypes::CNAME => String::from_str("CNAME"),
            DomainRecordTypes::MX => String::from_str("MX"),
            DomainRecordTypes::NC => String::from_str("NC"),
            DomainRecordTypes::NS => String::from_str("NS"),
            DomainRecordTypes::TXT => String::from_str("TXT"),
        }
    }
}

} // verus!
