//! A server-side object model and request-dispatch layer for a D-Bus-style
//! inter-process messaging protocol: a hierarchical registry of addressable
//! nodes, per-interface descriptors with a deduplicating cache, an
//! introspection document generator, the standard property-access
//! sub-protocol, and the message-to-handler dispatch algorithm.
//!
//! Wire encoding and the transport connection itself are out of scope:
//! messages are modeled as plain values, and transport interaction
//! (path registration, sending) is driven through explicit state machines
//! whose decisions are verified here while the I/O lives with the embedder.

pub mod strutil;
pub mod namemap;
pub mod messages;
pub mod leaves;
pub mod iface;
pub mod cache;
pub mod handler;
pub mod objpath;
pub mod tree;
pub mod registration;
pub mod server;
