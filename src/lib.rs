//! Access-token lifecycle for user accounts: a durable token store, a
//! volatile session cache kept coherent with it, and the issue, revoke and
//! authorize operations that tie the two together.

pub mod token;
pub mod store;
pub mod cache;
pub mod accounts;
pub mod lifecycle;
pub mod laws;
pub mod profile;
pub mod metrics;
