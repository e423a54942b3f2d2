//! The typed errors of name construction, and what each one stands for.

use crate::text::str_bytes;
use vstd::prelude::*;

verus! {

/// Why a text is not an apex domain name.
#[derive(Debug, Eq, PartialEq)]
pub enum ZoneApexDomainError {
    /// The domain name is empty.
    NonEmptyDomain,
    /// The domain name has an empty label.
    NonEmptyLabel,
    /// The domain name is longer than a name may be.
    DomainTooLong {
        /// The length of the name, in bytes.
        domain_name_length: usize,
        /// The greatest length a name may have.
        max_domain_name_length: usize,
    },
    /// A label of the domain name is longer than a label may be.
    DomainLabelTooLong {
        /// The length of the label, in bytes.
        label_length: usize,
        /// The greatest length a label may have.
        max_label_length: usize,
    },
    /// The domain name does not end with a dot.
    MissingEndWithDot,
    /// A label of the domain name starts or ends with a hyphen.
    MisplacedHyphen,
    /// A label holds something else than letters, digits and hyphens.
    InvalidDomainNameLabel {
        /// The label that was refused.
        label: String,
    },
}

/// What a [`ZoneApexDomainError`] says, over plain values.
pub enum ApexFault {
    NonEmptyDomain,
    NonEmptyLabel,
    DomainTooLong { domain_name_length: nat, max_domain_name_length: nat },
    DomainLabelTooLong { label_length: nat, max_label_length: nat },
    MissingEndWithDot,
    MisplacedHyphen,
    InvalidDomainNameLabel { label: Seq<u8> },
}

impl View for ZoneApexDomainError {
    type V = ApexFault;

    open spec fn view(&self) -> ApexFault {
        match *self {
            ZoneApexDomainError::NonEmptyDomain => ApexFault::NonEmptyDomain,
            ZoneApexDomainError::NonEmptyLabel => ApexFault::NonEmptyLabel,
            ZoneApexDomainError::DomainTooLong { domain_name_length, max_domain_name_length } => {
                ApexFault::DomainTooLong {
                    domain_name_length: domain_name_length as nat,
                    max_domain_name_length: max_domain_name_length as nat,
                }
            },
            ZoneApexDomainError::DomainLabelTooLong { label_length, max_label_length } => {
                ApexFault::DomainLabelTooLong {
                    label_length: label_length as nat,
                    max_label_length: max_label_length as nat,
                }
            },
            ZoneApexDomainError::MissingEndWithDot => ApexFault::MissingEndWithDot,
            ZoneApexDomainError::MisplacedHyphen => ApexFault::MisplacedHyphen,
            ZoneApexDomainError::InvalidDomainNameLabel { label } => {
                ApexFault::InvalidDomainNameLabel { label: str_bytes(label@) }
            },
        }
    }
}

impl Clone for ZoneApexDomainError {
    fn clone(&self) -> (r: Self)
        ensures
            r@ == self@,
    {
        match self {
            ZoneApexDomainError::NonEmptyDomain => ZoneApexDomainError::NonEmptyDomain,
            ZoneApexDomainError::NonEmptyLabel => ZoneApexDomainError::NonEmptyLabel,
            ZoneApexDomainError::DomainTooLong { domain_name_length, max_domain_name_length } => {
                ZoneApexDomainError::DomainTooLong {
                    domain_name_length: *domain_name_length,
                    max_domain_name_length: *max_domain_name_length,
                }
            },
            ZoneApexDomainError::DomainLabelTooLong { label_length, max_label_length } => {
                ZoneApexDomainError::DomainLabelTooLong {
                    label_length: *label_length,
                    max_label_length: *max_label_length,
                }
            },
            ZoneApexDomainError::MissingEndWithDot => ZoneApexDomainError::MissingEndWithDot,
            ZoneApexDomainError::MisplacedHyphen => ZoneApexDomainError::MisplacedHyphen,
            ZoneApexDomainError::InvalidDomainNameLabel { label } => {
                ZoneApexDomainError::InvalidDomainNameLabel { label: label.clone() }
            },
        }
    }
}

/// Why a text is not a record name of a given apex domain.
#[derive(Debug, Eq, PartialEq)]
pub enum RecordNameError {
    /// The record name is empty.
    NonEmptyName,
    /// The record name has an empty label.
    NonEmptyLabel,
    /// The record name ends with a dot.
    InvalidEndWithDot,
    /// The record name, qualified by its apex domain, is longer than a name
    /// may be.
    NameTooLong {
        /// The length of the qualified name, in bytes.
        name_length: usize,
        /// The greatest length a qualified name may have.
        max_name_length: usize,
    },
    /// A label of the record name is longer than a label may be.
    LabelTooLong {
        /// The length of the label, in bytes.
        label_length: usize,
        /// The greatest length a label may have.
        max_label_length: usize,
    },
    /// A label of the record name starts or ends with a hyphen.
    MisplacedHyphen,
    /// An underscore stands elsewhere than at the start of the name.
    MisplacedUnderscore,
    /// A label holds something else than letters, digits, hyphens and
    /// underscores.
    InvalidNameLabel {
        /// The label that was refused.
        label: String,
    },
}

/// What a [`RecordNameError`] says, over plain values.
pub enum NameFault {
    NonEmptyName,
    NonEmptyLabel,
    InvalidEndWithDot,
    NameTooLong { name_length: nat, max_name_length: nat },
    LabelTooLong { label_length: nat, max_label_length: nat },
    MisplacedHyphen,
    MisplacedUnderscore,
    InvalidNameLabel { label: Seq<u8> },
}

impl View for RecordNameError {
    type V = NameFault;

    open spec fn view(&self) -> NameFault {
        match *self {
            RecordNameError::NonEmptyName => NameFault::NonEmptyName,
            RecordNameError::NonEmptyLabel => NameFault::NonEmptyLabel,
            RecordNameError::InvalidEndWithDot => NameFault::InvalidEndWithDot,
            RecordNameError::NameTooLong { name_length, max_name_length } => {
                NameFault::NameTooLong {
                    name_length: name_length as nat,
                    max_name_length: max_name_length as nat,
                }
            },
            RecordNameError::LabelTooLong { label_length, max_label_length } => {
                NameFault::LabelTooLong {
                    label_length: label_length as nat,
                    max_label_length: max_label_length as nat,
                }
            },
            RecordNameError::MisplacedHyphen => NameFault::MisplacedHyphen,
            RecordNameError::MisplacedUnderscore => NameFault::MisplacedUnderscore,
            RecordNameError::InvalidNameLabel { label } => {
                NameFault::InvalidNameLabel { label: str_bytes(label@) }
            },
        }
    }
}

impl Clone for RecordNameError {
    fn clone(&self) -> (r: Self)
        ensures
            r@ == self@,
    {
        match self {
            RecordNameError::NonEmptyName => RecordNameError::NonEmptyName,
            RecordNameError::NonEmptyLabel => RecordNameError::NonEmptyLabel,
            RecordNameError::InvalidEndWithDot => RecordNameError::InvalidEndWithDot,
            RecordNameError::NameTooLong { name_length, max_name_length } => {
                RecordNameError::NameTooLong {
                    name_length: *name_length,
                    max_name_length: *max_name_length,
                }
            },
            RecordNameError::LabelTooLong { label_length, max_label_length } => {
                RecordNameError::LabelTooLong {
                    label_length: *label_length,
                    max_label_length: *max_label_length,
                }
            },
            RecordNameError::MisplacedHyphen => RecordNameError::MisplacedHyphen,
            RecordNameError::MisplacedUnderscore => RecordNameError::MisplacedUnderscore,
            RecordNameError::InvalidNameLabel { label } => RecordNameError::InvalidNameLabel {
                label: label.clone(),
            },
        }
    }
}

/// Why a partial description of an entry names no end of a range.
#[derive(Debug, Eq, PartialEq)]
pub enum SearchInputError {
    /// The name of the zone is no apex domain name.
    Zone(ZoneApexDomainError),
    /// The name of the record is no record name of the zone.
    Record(RecordNameError),
    /// The type of the record is longer than a type may be.
    RecordTypeTooLong {
        /// The length of the type, in bytes.
        type_length: usize,
        /// The greatest length a type may have.
        max_type_length: usize,
    },
    /// The data of the record is longer than data may be.
    DataTooLong {
        /// The length of the data, in bytes.
        data_length: usize,
        /// The greatest length data may have.
        max_data_length: usize,
    },
}

/// What a [`SearchInputError`] says, over plain values.
pub enum SearchFault {
    Zone(ApexFault),
    Record(NameFault),
    RecordTypeTooLong { type_length: nat, max_type_length: nat },
    DataTooLong { data_length: nat, max_data_length: nat },
}

impl View for SearchInputError {
    type V = SearchFault;

    open spec fn view(&self) -> SearchFault {
        match *self {
            SearchInputError::Zone(e) => SearchFault::Zone(e@),
            SearchInputError::Record(e) => SearchFault::Record(e@),
            SearchInputError::RecordTypeTooLong { type_length, max_type_length } => {
                SearchFault::RecordTypeTooLong {
                    type_length: type_length as nat,
                    max_type_length: max_type_length as nat,
                }
            },
            SearchInputError::DataTooLong { data_length, max_data_length } => {
                SearchFault::DataTooLong {
                    data_length: data_length as nat,
                    max_data_length: max_data_length as nat,
                }
            },
        }
    }
}

impl Clone for SearchInputError {
    fn clone(&self) -> (r: Self)
        ensures
            r@ == self@,
    {
        match self {
            SearchInputError::Zone(e) => SearchInputError::Zone(e.clone()),
            SearchInputError::Record(e) => SearchInputError::Record(e.clone()),
            SearchInputError::RecordTypeTooLong { type_length, max_type_length } => {
                SearchInputError::RecordTypeTooLong {
                    type_length: *type_length,
                    max_type_length: *max_type_length,
                }
            },
            SearchInputError::DataTooLong { data_length, max_data_length } => {
                SearchInputError::DataTooLong {
                    data_length: *data_length,
                    max_data_length: *max_data_length,
                }
            },
        }
    }
}

} // verus!
