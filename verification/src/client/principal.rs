//! The identifier of a node or of any other target: up to 29 bytes, with a
//! text form that the `candid` crate parses and prints.

use vstd::prelude::*;

verus! {

/// The greatest length of an identifier, in bytes.
pub const MAX_PRINCIPAL_BYTES: usize = 29;

/// The bytes that `Principal::from_text` of `candid` reads out of a text,
/// where it accepts the text.
pub uninterp spec fn principal_of_text(text: Seq<char>) -> Option<Seq<u8>>;

/// The text that `Principal::to_text` of `candid` gives for the bytes of an
/// identifier.
pub uninterp spec fn text_of_principal(bytes: Seq<u8>) -> Seq<char>;

/// `Principal::from_text` of `candid`. The claim: it depends on the text
/// alone, and an identifier that it reads has at most 29 bytes.
#[verifier::external_body]
pub(crate) fn parse_principal(text: &str) -> (r: Option<Vec<u8>>)
    ensures
        match r {
            Some(bytes) => principal_of_text(text@) == Some(bytes@) && bytes@.len()
                <= MAX_PRINCIPAL_BYTES,
            None => principal_of_text(text@) is None,
        },
{
    match candid::Principal::from_text(text) {
        Ok(principal) => Some(principal.as_slice().to_vec()),
        Err(_) => None,
    }
}

/// `Principal::to_text` of `candid`, on the identifier that
/// `Principal::from_slice` makes of the bytes. The claim: the text depends
/// on the bytes alone. `from_slice` panics on more than 29 bytes, so these
/// are left out.
#[verifier::external_body]
pub(crate) fn print_principal(bytes: &[u8]) -> (r: String)
    requires
        bytes@.len() <= MAX_PRINCIPAL_BYTES,
    ensures
        r@ == text_of_principal(bytes@),
{
    candid::Principal::from_slice(bytes).to_text()
}

/// The identifier of a node or of any other target of a name.
#[derive(Debug, PartialEq, Eq)]
pub struct PrincipalId {
    bytes: Vec<u8>,
}

impl View for PrincipalId {
    type V = Seq<u8>;

    closed spec fn view(&self) -> Seq<u8> {
        self.bytes@
    }
}

impl Clone for PrincipalId {
    fn clone(&self) -> (r: Self)
        ensures
            r@ == self@,
    {
        proof {
            use_type_invariant(self);
        }
        PrincipalId { bytes: self.bytes.clone() }
    }
}

impl PrincipalId {
    /// What holds of every identifier: it has at most 29 bytes.
    #[verifier::type_invariant]
    pub open spec fn well_formed(&self) -> bool {
        self@.len() <= MAX_PRINCIPAL_BYTES
    }

    /// The identifier with the bytes `bytes`, where they are at most 29.
    pub fn from_slice(bytes: &[u8]) -> (r: Option<Self>)
        ensures
            r is Some <==> bytes@.len() <= MAX_PRINCIPAL_BYTES,
            r matches Some(id) ==> id@ == bytes@,
    {
        if bytes.len() > MAX_PRINCIPAL_BYTES {
            return None;
        }
        Some(PrincipalId { bytes: vstd::slice::slice_to_vec(bytes) })
    }

    /// The bytes of the identifier.
    pub fn as_slice(&self) -> (r: &[u8])
        ensures
            r@ == self@,
            r@.len() <= MAX_PRINCIPAL_BYTES,
    {
        proof {
            use_type_invariant(self);
        }
        self.bytes.as_slice()
    }

    /// The identifier that the text stands for, where it stands for one.
    pub fn from_text(text: &str) -> (r: Option<Self>)
        ensures
            match r {
                Some(id) => principal_of_text(text@) == Some(id@),
                None => principal_of_text(text@) is None,
            },
    {
        match parse_principal(text) {
            Some(bytes) => Some(PrincipalId { bytes }),
            None => None,
        }
    }

    /// The text form of the identifier.
    pub fn to_text(&self) -> (r: String)
        ensures
            r@ == text_of_principal(self@),
    {
        print_principal(self.as_slice())
    }
}

} // verus!
