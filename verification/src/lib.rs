//! Short links with deterministic keys: key derivation from the URL text,
//! the stored entry and what each resolution does to it, and the decisions
//! that give the listener its TLS identity.

pub mod encoding;
pub mod error;
pub mod handlers;
pub mod lifecycle;
pub mod record;
pub mod store;
pub mod transport;
pub mod util;
