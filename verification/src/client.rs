//! The client side of the registry: how a name is resolved and registered
//! by way of the node that its zone is delegated to.

pub mod config;
pub mod principal;
pub mod protocol;
pub mod types;

pub use config::{ClientInit, CnsConfig};
pub use principal::PrincipalId;
pub use protocol::{
    advance, get_principal_id_from_records, principal_id_from_parse, step, CnsAction, CnsEvent,
    CnsReply, CnsRequest, CnsState, ReverseTarget,
};
pub use types::{
    CnsError, DomainLookup, DomainRecord, RegisterResult, RegistrationController,
    RegistrationControllerRole, RegistrationRecords, RejectionCode,
};
