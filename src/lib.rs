//! Session registry and relay dispatcher of a small UDP game server.
//!
//! The server admits players under unique names, gives each one an
//! identifier, relays movement and action records between them, and keeps
//! the authoritative life total of every player.

pub mod protocol;
pub mod registry;
pub mod relay;
pub mod guarantees;
