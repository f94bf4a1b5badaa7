//! Concord: a peer-to-peer chat server reached over Tor.
//!
//! The library holds the wire format of the concord protocol and of the
//! records kept in the local store, the decisions taken on each request,
//! and the registry of long-poll listeners.

pub mod ser;
pub mod config;
pub mod error;
pub mod encoding;
pub mod types;
pub mod protocol;
pub mod event;
pub mod store;
pub mod db;
pub mod kv;
pub mod ds;
pub mod assoc;
pub mod persistence;
pub mod context;
pub mod sys;
pub mod handlers;
pub mod auth;
pub mod net;
pub mod webroot;
