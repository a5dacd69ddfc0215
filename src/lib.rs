//! A multi-user line-oriented chat relay: message rendering, display-name
//! validation, the presence registry and the per-connection session state
//! machine, plus a small key-value responder.
pub mod kv;
pub mod message;
pub mod name;
pub mod registry;
pub mod session;
