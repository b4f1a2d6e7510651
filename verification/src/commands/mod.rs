//! The commands of the bot.

pub mod bot;
pub mod config;
pub mod fflogs;
pub mod poll;
pub mod queue_tag;
pub mod registry;
pub mod search;
pub mod tag;
pub mod timeout;
pub mod update_tag;
