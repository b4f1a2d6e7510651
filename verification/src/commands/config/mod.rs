//! Configuration of a server.

pub mod delete_all_messages;
pub mod reaction;
