//! The value types of the registry.

pub mod record;
pub mod record_name;
pub mod record_type;
pub mod zone;
pub mod zone_apex_domain;
pub mod zone_entry;

pub use record::{DomainRecord, DomainRecordInput};
pub use record_name::RecordName;
pub use record_type::DomainRecordTypes;
pub use zone::{DomainZone, DomainZoneInput};
pub use zone_apex_domain::ZoneApexDomain;
pub use zone_entry::{DomainZoneEntry, DomainZoneEntryInput};
