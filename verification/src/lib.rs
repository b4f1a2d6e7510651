//! The command and listener logic of the Lalafell Discord bot, with its contracts.

pub mod commands;
pub mod clock;
pub mod derive;
pub mod env;
pub mod listeners;
pub mod model;
pub mod reply;
pub mod tasks;
pub mod text;
