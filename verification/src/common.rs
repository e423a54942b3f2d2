use vstd::prelude::*;

verus! {

/// The maximum length of a domain name, in bytes.
pub const MAX_DOMAIN_NAME_LENGTH: usize = 255;

/// The maximum length of a label in a domain name, in bytes.
pub const MAX_DOMAIN_LABEL_LENGTH: usize = 63;

/// The greatest byte accepted in a domain name, the letter `z`.
pub const MAX_DOMAIN_ASCII_CHAR_VALUE: u8 = 122;

/// The separator between the labels of a name.
pub const LABEL_SEPARATOR: u8 = 46;

/// The hyphen, accepted inside a label but not at either end of it.
pub const HYPHEN: u8 = 45;

/// The underscore, accepted only as the first byte of a record name.
pub const UNDERSCORE: u8 = 95;

/// The byte of the record name that stands for the apex itself, `@`.
pub const APEX_MARK: u8 = 64;

} // verus!
