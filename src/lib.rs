//! Decision logic of a directory-protocol (LDAP) proxy: client sessions,
//! backend sessions, backend failover and the search-result cache.
pub mod backend;
pub mod cache;
pub mod connector;
pub mod message;
pub mod policy;
pub mod proxy;
pub mod text;
