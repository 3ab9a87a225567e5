//! Guest-side protocol layer for programs that run inside a sandboxed module
//! and talk to their host through integers and byte spans only.
//!
//! The crate holds the tagged value format, the derivation of storage keys,
//! the decisions taken around each host round trip, and the packing of
//! arguments for calls into other programs.

pub mod endian;
pub mod errors;
pub mod host;
pub mod marshal;
pub mod program;
pub mod store;
pub mod types;
