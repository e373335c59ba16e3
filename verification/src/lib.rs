//! Connection and query-execution core of a multi-engine SQL client: saved
//! connection configurations, live pool bookkeeping, credential-store
//! policy, connection-string construction, cross-engine value
//! normalization, and schema introspection, with the behaviour of each
//! operation stated in its contract.

pub mod connection;
pub mod credentials;
pub mod schema;
pub mod text;
pub mod types;
pub mod values;
