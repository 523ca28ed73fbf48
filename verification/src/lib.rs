//! Decision layer of a DNS forwarder: which upstream nameservers answer a
//! query, how they are discovered from the host's leases, and how the outcome
//! of a lookup is classified.

pub mod address;
pub mod availability;
pub mod dedup;
pub mod discovery;
pub mod dnssec;
pub mod endpoint;
pub mod grammar;
pub mod handler;
pub mod lookup;
pub mod parse;
pub mod registry;
pub mod routing;
pub mod text;
pub mod upstream;
