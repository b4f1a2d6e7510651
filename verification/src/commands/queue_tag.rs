//! `!queuetag`: queue a member to be tagged as a character later.
use vstd::prelude::*;
use std::sync::Arc;
use crate::env::BotEnv;
use crate::reply::{outcome, permission_refusal, CommandResult};
use crate::text::push_str;

verus! {

/// How `!queuetag` is used.
pub const USAGE: &'static str = "!queuetag <who> <server> <character>";

/// The parameters of `!queuetag`.
pub struct Params {
    /// The member to tag.
    pub who: u64,
    /// The character's server.
    pub server: String,
    /// The character's first and last name.
    pub name: [String; 2],
}

/// A queued tag, to be stored.
pub struct NewTagQueue {
    pub user_id: u64,
    pub server_id: u64,
    pub server: String,
    pub character: String,
}

/// `!queuetag`.
pub struct QueueTagCommand;

impl QueueTagCommand {
    /// The command; it needs nothing of the environment.
    pub fn new(_env: Arc<BotEnv>) -> QueueTagCommand {
        QueueTagCommand
    }

    /// Runs `!queuetag` on server `guild`: only members who may manage roles can use it, and
    /// it queues the member to be tagged as the named character.
    pub fn run(&self, can_manage_roles: bool, guild: u64, params: &Params) -> (res: Result<
        NewTagQueue,
        CommandResult,
    >)
        ensures
            !can_manage_roles ==> (res matches Err(r) && outcome(r) == permission_refusal(
                "You don't have enough permissions to use this command."@,
            )),
            can_manage_roles ==> (res matches Ok(q) && q.user_id == params.who && q.server_id
                == guild && q.server@ == params.server@ && q.character@ == params.name[0]@
                + " "@ + params.name[1]@),
    {
        if !can_manage_roles {
            return Err(
                crate::reply::refuse_permission(
                    "You don't have enough permissions to use this command.",
                ),
            );
        }
        let mut character = String::new();
        push_str(&mut character, params.name[0].as_str());
        push_str(&mut character, " ");
        push_str(&mut character, params.name[1].as_str());
        Ok(
            NewTagQueue {
                user_id: params.who,
                server_id: guild,
                server: params.server.clone(),
                character,
            },
        )
    }
}

} // verus!
