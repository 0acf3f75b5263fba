//! DNS resolution for a mail-transfer agent: resolver configuration, a
//! resolver slot that can be swapped at runtime, address-family merging, an
//! in-memory test backend, and the caching, admission-controlled MX
//! resolution engine.
pub mod error;
pub mod domain;
pub mod records;
pub mod mx;
pub mod mx_laws;
pub mod address;
pub mod config;
pub mod test_backend;
