//! Tag-based subscription and routing engine for relaying chat messages
//! from source channels into distribution channels.
//!
//! A tag groups source channels under an owner (a user, or the shared public
//! owner); distribution channels subscribe to tags, and a message posted in a
//! source channel is relayed to every channel subscribed to a tag holding it.

pub mod api;
pub mod command;
pub mod help;
pub mod laws;
pub mod owner;
pub mod profile;
pub mod routing;
pub mod rows;
pub mod store;
pub mod text;
