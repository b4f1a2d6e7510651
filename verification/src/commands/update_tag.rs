//! `!updatetag`: tag a member again as the character they are tagged as.
use vstd::prelude::*;
use std::sync::Arc;
use crate::env::BotEnv;
use crate::model::{mention_user, user_mention};
use crate::reply::{done, outcome, permission_refusal, refusal, CommandFailure, CommandResult, Outcome};
use crate::text::push_str;

verus! {

/// The parameters of `!updatetag`.
pub struct Params {
    /// The member whose tag to update; the author where none is given.
    pub who: Option<u64>,
}

/// A stored tag.
pub struct Tag {
    pub user_id: u64,
    pub server_id: u64,
    pub character_id: u64,
}

/// `!updatetag`.
pub struct UpdateTagCommand {
    pub env: Arc<BotEnv>,
}

impl UpdateTagCommand {
    /// The command, with the environment it tags in.
    pub fn new(env: Arc<BotEnv>) -> (c: UpdateTagCommand)
        ensures
            c.env == env,
    {
        UpdateTagCommand { env }
    }

    /// Whose tag to update: the author's own, or, for an author who may manage roles, the
    /// member named.
    pub fn target(&self, author: u64, params: &Params, can_manage_roles: bool) -> (res: Result<
        u64,
        CommandResult,
    >)
        ensures
            match params.who {
                None => res == Ok::<u64, CommandResult>(author),
                Some(w) => if can_manage_roles {
                    res == Ok::<u64, CommandResult>(w)
                } else {
                    res matches Err(r) && outcome(r) == permission_refusal(
                        "You don't have enough permissions to update other people's tags."@,
                    )
                },
            },
    {
        match params.who {
            None => Ok(author),
            Some(w) => {
                if !can_manage_roles {
                    return Err(
                        crate::reply::refuse_permission(
                            "You don't have enough permissions to update other people's tags.",
                        ),
                    );
                }
                Ok(w)
            },
        }
    }

    /// The answer when member `id` has no tag, `author` being who asked.
    pub fn missing_tag(&self, id: u64, author: u64) -> (r: CommandResult)
        ensures
            outcome(r) == if id == author {
                refusal("You are not set up with a tag. Use `!autotag` to tag yourself."@)
            } else {
                refusal(user_mention(id) + " is not set up with a tag."@)
            },
    {
        if id == author {
            crate::reply::refuse("You are not set up with a tag. Use `!autotag` to tag yourself.")
        } else {
            let mut m = mention_user(id);
            push_str(&mut m, " is not set up with a tag.");
            crate::reply::refuse_with(m)
        }
    }

    /// The answer once the tag was updated: the update's own message is shown to the user,
    /// its error logged.
    pub fn finish(&self, update: Result<Option<String>, String>) -> (r: CommandResult)
        ensures
            outcome(r) == match update {
                Ok(Some(m)) => refusal(m@),
                Err(e) => Outcome::Internal(e@),
                Ok(None) => done(),
            },
    {
        match update {
            Ok(Some(m)) => crate::reply::refuse_with(m),
            Err(e) => Err(CommandFailure::Internal(e)),
            Ok(None) => crate::reply::success(),
        }
    }
}

} // verus!
