//! Listeners that react to events on the servers.

pub mod auto_reply;
