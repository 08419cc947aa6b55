//! A dependency declaration, resolution and locking engine for declarative
//! configuration sources: it discovers typed dependency declarations in a
//! parsed syntax tree, resolves each to a reproducible identifier, and
//! maintains a deterministic, ordered lock store.

pub mod deps;
pub mod error;
pub mod laws;
pub mod lock;
pub mod nix;
pub mod strutil;
pub mod util;
