//! Subscription-aware forwarding between message transports.
//!
//! The crate keeps a cache of which subscribers want which topics, reads that
//! cache from a static subscription document, and decides for every message
//! that arrives on one transport endpoint whether and how it is re-emitted on
//! another. Transports themselves are not part of the crate: every function
//! here works on plain values and hands back the action to perform.

pub mod cache;
pub mod document;
pub mod endpoint;
pub mod events;
pub mod json;
pub mod laws;
pub mod message;
pub mod plugin;
pub mod queue;
pub mod retry;
pub mod router;
pub mod static_file;
pub mod status;
pub mod subscription;
pub mod uri;
