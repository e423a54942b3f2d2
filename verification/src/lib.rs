//! A hierarchical name registry: a byte-budgeted grammar for zone and record
//! names, an ordered store of zone entries, and the delegation protocol that
//! resolves and registers names across registry nodes.

pub mod builders;
pub mod client;
pub mod common;
pub mod encoding;
pub mod errors;
pub mod grammar;
pub mod repositories;
pub mod text;
pub mod types;
pub mod utils;
