//! What registry nodes say to one another, and the errors of a request.

use crate::client::principal::PrincipalId;
use vstd::prelude::*;
use vstd::string::*;

verus! {

/// Why a call to another node was rejected.
#[derive(Clone, Copy, Debug, PartialEq, Eq, Structural)]
pub enum RejectionCode {
    NoError,
    SysFatal,
    SysTransient,
    DestinationInvalid,
    CanisterReject,
    CanisterError,
    Unknown,
}

/// Why a request failed.
#[derive(Debug, Eq, PartialEq)]
pub enum CnsError {
    /// No record answers the question.
    NotFound(String),
    /// A call to a node failed, or the node refused what was asked of it.
    CallFailed((RejectionCode, String)),
    /// A record holds data that is not of the form its type asks for.
    MalformedData(String),
    /// The client itself is at fault.
    Internal(String),
}

/// What a [`CnsError`] says, over plain values.
pub enum CnsFault {
    NotFound(Seq<char>),
    CallFailed(RejectionCode, Seq<char>),
    MalformedData(Seq<char>),
    Internal(Seq<char>),
}

impl View for CnsError {
    type V = CnsFault;

    open spec fn view(&self) -> CnsFault {
        match *self {
            CnsError::NotFound(message) => CnsFault::NotFound(message@),
            CnsError::CallFailed((code, message)) => CnsFault::CallFailed(code, message@),
            CnsError::MalformedData(message) => CnsFault::MalformedData(message@),
            CnsError::Internal(message) => CnsFault::Internal(message@),
        }
    }
}

impl Clone for CnsError {
    fn clone(&self) -> (r: Self)
        ensures
            r@ == self@,
    {
        match self {
            CnsError::NotFound(message) => CnsError::NotFound(message.clone()),
            CnsError::CallFailed((code, message)) => CnsError::CallFailed((*code, message.clone())),
            CnsError::MalformedData(message) => CnsError::MalformedData(message.clone()),
            CnsError::Internal(message) => CnsError::Internal(message.clone()),
        }
    }
}

impl RejectionCode {
    /// The name of the code.
    pub open spec fn name(self) -> Seq<char> {
        match self {
            RejectionCode::NoError => "NoError"@,
            RejectionCode::SysFatal => "SysFatal"@,
            RejectionCode::SysTransient => "SysTransient"@,
            RejectionCode::DestinationInvalid => "DestinationInvalid"@,
            RejectionCode::CanisterReject => "CanisterReject"@,
            RejectionCode::CanisterError => "CanisterError"@,
            RejectionCode::Unknown => "Unknown"@,
        }
    }

    /// The name of the code, as a string.
    pub fn to_string(&self) -> (r: String)
        ensures
            r@ == self.name(),
    {
        match self {
            RejectionCode::NoError => String::from_str("NoError"),
            RejectionCode::SysFatal => String::from_str("SysFatal"),
            RejectionCode::SysTransient => String::from_str("SysTransient"),
            RejectionCode::DestinationInvalid => String::from_str("DestinationInvalid"),
            RejectionCode::CanisterReject => String::from_str("CanisterReject"),
            RejectionCode::CanisterError => String::from_str("CanisterError"),
            RejectionCode::Unknown => String::from_str("Unknown"),
        }
    }
}

/// The text of an error: the name of its kind, and in brackets what it
/// carries, each message in double quotes.
pub open spec fn error_text(fault: CnsFault) -> Seq<char> {
    match fault {
        CnsFault::NotFound(message) => "NotFound(\""@ + message + "\")"@,
        CnsFault::CallFailed(code, message) => "CallFailed(("@ + code.name() + ", \""@ + message
            + "\"))"@,
        CnsFault::MalformedData(message) => "MalformedData(\""@ + message + "\")"@,
        CnsFault::Internal(message) => "Internal(\""@ + message + "\")"@,
    }
}

impl CnsError {
    /// The text of the error.
    pub fn to_string(&self) -> (r: String)
        ensures
            r@ == error_text(self@),
    {
        match self {
            CnsError::NotFound(message) => String::from_str("NotFound(\"").concat(
                message.as_str(),
            ).concat("\")"),
            CnsError::CallFailed((code, message)) => String::from_str("CallFailed((").concat(
                code.to_string().as_str(),
            ).concat(", \"").concat(message.as_str()).concat("\"))"),
            CnsError::MalformedData(message) => String::from_str("MalformedData(\"").concat(
                message.as_str(),
            ).concat("\")"),
            CnsError::Internal(message) => String::from_str("Internal(\"").concat(
                message.as_str(),
            ).concat("\")"),
        }
    }
}

/// A record as a node hands it out: the name is a full domain name.
#[derive(Debug, PartialEq, Eq)]
pub struct DomainRecord {
    pub name: String,
    pub record_type: String,
    pub ttl: u32,
    pub data: String,
}

/// A [`DomainRecord`] as plain values.
pub struct WireRecord {
    pub name: Seq<char>,
    pub record_type: Seq<char>,
    pub ttl: u32,
    pub data: Seq<char>,
}

impl View for DomainRecord {
    type V = WireRecord;

    open spec fn view(&self) -> WireRecord {
        WireRecord {
            name: self.name@,
            record_type: self.record_type@,
            ttl: self.ttl,
            data: self.data@,
        }
    }
}

impl Clone for DomainRecord {
    fn clone(&self) -> (r: Self)
        ensures
            r@ == self@,
    {
        DomainRecord {
            name: self.name.clone(),
            record_type: self.record_type.clone(),
            ttl: self.ttl,
            data: self.data.clone(),
        }
    }
}

/// The records as plain values, one for one.
pub open spec fn records_view(records: Seq<DomainRecord>) -> Seq<WireRecord> {
    Seq::new(records.len(), |i: int| records[i]@)
}

/// What a node answers to a lookup.
#[derive(Debug, PartialEq, Eq)]
pub struct DomainLookup {
    pub answers: Vec<DomainRecord>,
    pub additionals: Vec<DomainRecord>,
    pub authorities: Vec<DomainRecord>,
}

/// A [`DomainLookup`] as plain values.
pub struct LookupView {
    pub answers: Seq<WireRecord>,
    pub additionals: Seq<WireRecord>,
    pub authorities: Seq<WireRecord>,
}

impl View for DomainLookup {
    type V = LookupView;

    open spec fn view(&self) -> LookupView {
        LookupView {
            answers: records_view(self.answers@),
            additionals: records_view(self.additionals@),
            authorities: records_view(self.authorities@),
        }
    }
}

/// What a controller of a registration may do.
#[derive(Clone, Copy, Debug, PartialEq, Eq, Structural)]
pub enum RegistrationControllerRole {
    Registrar,
    Registrant,
    Technical,
    Administrative,
}

/// A controller of a registration, and its roles.
#[derive(Debug, PartialEq, Eq)]
pub struct RegistrationController {
    pub controller_id: PrincipalId,
    pub roles: Vec<RegistrationControllerRole>,
}

/// A [`RegistrationController`] as plain values.
pub struct ControllerView {
    pub controller_id: Seq<u8>,
    pub roles: Seq<RegistrationControllerRole>,
}

impl View for RegistrationController {
    type V = ControllerView;

    open spec fn view(&self) -> ControllerView {
        ControllerView { controller_id: self.controller_id@, roles: self.roles@ }
    }
}

/// What is to be registered for a name: who controls it, and its records.
#[derive(Debug, PartialEq, Eq)]
pub struct RegistrationRecords {
    pub controllers: Vec<RegistrationController>,
    pub records: Option<Vec<DomainRecord>>,
}

/// A [`RegistrationRecords`] as plain values.
pub struct RegistrationView {
    pub controllers: Seq<ControllerView>,
    pub records: Option<Seq<WireRecord>>,
}

impl View for RegistrationRecords {
    type V = RegistrationView;

    open spec fn view(&self) -> RegistrationView {
        RegistrationView {
            controllers: Seq::new(self.controllers@.len(), |i: int| self.controllers@[i]@),
            records: match self.records {
                Some(records) => Some(records_view(records@)),
                None => None,
            },
        }
    }
}

/// What a node answers to a registration.
#[derive(Debug, PartialEq, Eq)]
pub struct RegisterResult {
    pub success: bool,
    pub message: Option<String>,
}

/// A [`RegisterResult`] as plain values.
pub struct RegisterResultView {
    pub success: bool,
    pub message: Option<Seq<char>>,
}

impl View for RegisterResult {
    type V = RegisterResultView;

    open spec fn view(&self) -> RegisterResultView {
        RegisterResultView {
            success: self.success,
            message: match self.message {
                Some(message) => Some(message@),
                None => None,
            },
        }
    }
}

} // verus!
