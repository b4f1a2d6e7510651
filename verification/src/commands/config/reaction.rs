//! Removing a reaction role of a server.
use vstd::prelude::*;
use crate::reply::{done, outcome, refusal, CommandResult};

verus! {

/// The parameters of the removal.
pub struct Params {
    /// The ID of the reaction role to remove.
    pub id: i32,
}

/// What to delete: the reaction role with this id, if it belongs to this server.
pub struct DeleteRequest {
    pub id: i32,
    pub server_id: u64,
}

/// Removes a reaction role.
pub struct RemoveCommand;

impl RemoveCommand {
    /// What to delete on server `guild`.
    pub fn request(&self, guild: u64, params: &Params) -> (d: DeleteRequest)
        ensures
            d.id == params.id,
            d.server_id == guild,
    {
        DeleteRequest { id: params.id, server_id: guild }
    }

    /// The answer, given how many were deleted.
    pub fn run(&self, affected: usize) -> (r: CommandResult)
        ensures
            outcome(r) == if affected > 0 {
                done()
            } else {
                refusal("No reactions were deleted."@)
            },
    {
        if affected > 0 {
            crate::reply::success()
        } else {
            crate::reply::refuse("No reactions were deleted.")
        }
    }
}

} // verus!
