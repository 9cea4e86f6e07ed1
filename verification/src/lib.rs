//! Lifecycle broker for "keeps": isolated execution contexts backed by a
//! trusted-execution-environment technology. Clients discover the supported
//! execution backends ("contracts"), claim one to instantiate a keep, and
//! later query or tear down that keep.
//!
//! The crate holds the verified core: the fixed contract catalog, the keep
//! registry with claim/list/get/delete semantics, the request router with its
//! response-encoding contract, and the pure decisions behind socket-origin
//! resolution. Network plumbing lives outside this crate.

pub mod backend;
pub mod contract;
pub mod registry;
pub mod cbor;
pub mod ident;
pub mod router;
pub mod listen;
