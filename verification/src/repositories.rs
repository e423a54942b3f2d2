//! The store of zone entries.

pub mod setup;
pub mod store;
pub mod zone;

pub use setup::{Repository, RepositorySearch, RepositorySearchInto};
pub use zone::DomainZoneRepository;
