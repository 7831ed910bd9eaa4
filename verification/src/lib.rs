//! Event-sourcing core for a community moderation backend.
//!
//! Member profiles (social-credit balance, role tags, metadata) form a
//! projection that is only ever changed by typed commands: each command is
//! validated against the current projection, appended to an append-only
//! event log, and then applied.  The contracts in this crate pin down the
//! validation rules, the effect of each event, and the guarantee that a
//! rejected command leaves both the log and the projection untouched.

pub mod events;
pub mod ids;
pub mod laws;
pub mod numtext;
pub mod processor;
pub mod profile;
pub mod roles;
pub mod schema;
pub mod store;
