//! `!search`: the members that match a set of filters.
use vstd::prelude::*;
use std::sync::Arc;
use crate::clock::{date_text, format_date};
use crate::env::BotEnv;
use crate::model::{mention_user, user_mention};
use crate::reply::{
    answer, outcome, permission_refusal, refusal, CommandResult, Outcome,
};
use crate::text::{join, join_strings, push_str, views};

verus! {

/// How `!search` is used.
pub const USAGE: &'static str = "!search <filters>";

/// The parameters of `!search`.
pub struct Params {
    pub filter_strings: Vec<String>,
}

/// How `!search` writes when a member joined: month name, day padded to two places with a
/// space, year, hours and minutes.
pub const JOIN_DATE_FORMAT: &'static str = "%B %e, %Y %H:%M";

/// A member that matched the filters.
pub struct MemberMatch {
    pub user_id: u64,
    /// When the member joined, where known: seconds since the Unix epoch, and the offset
    /// east of UTC, in seconds, at which Discord gave that time.
    pub joined_at: Option<(i64, i32)>,
}

/// The line that lists a member: its mention and when it joined, written with
/// `JOIN_DATE_FORMAT` at the offset Discord gave.
pub open spec fn match_line(m: MemberMatch) -> Seq<char> {
    let joined = match m.joined_at {
        Some((t, offset)) => match date_text(t, offset, JOIN_DATE_FORMAT@) {
            Some(d) => d,
            None => "unknown"@,
        },
        None => "unknown"@,
    };
    user_mention(m.user_id) + " - "@ + joined
}

/// The answer of `!search`.
pub open spec fn search_answer(can_manage_roles: bool, filters_valid: bool, matches: Seq<MemberMatch>) -> Outcome {
    if !can_manage_roles {
        permission_refusal("You don't have enough permissions to use this command."@)
    } else if !filters_valid {
        refusal("Invalid filter."@)
    } else {
        answer(join(matches.map_values(|m: MemberMatch| match_line(m)), "\n"@))
    }
}

/// `!search`.
pub struct SearchCommand;

impl SearchCommand {
    /// The command; it needs nothing of the environment.
    pub fn new(_env: Arc<BotEnv>) -> SearchCommand {
        SearchCommand
    }

    /// The line that lists a member.
    pub fn line(m: &MemberMatch) -> (s: String)
        ensures
            s@ == match_line(*m),
    {
        let mut s = mention_user(m.user_id);
        push_str(&mut s, " - ");
        let joined = match m.joined_at {
            Some((t, offset)) => match format_date(t, offset, JOIN_DATE_FORMAT) {
                Some(d) => d,
                None => "unknown".to_owned(),
            },
            None => "unknown".to_owned(),
        };
        push_str(&mut s, joined.as_str());
        s
    }

    /// Answers `!search`: only members who may manage roles can use it, every filter must
    /// be valid, and the answer lists the members that match every filter, one per line.
    pub fn run(&self, can_manage_roles: bool, filters_valid: bool, matches: &Vec<MemberMatch>) -> (r:
        CommandResult)
        ensures
            outcome(r) == search_answer(can_manage_roles, filters_valid, matches@),
    {
        if !can_manage_roles {
            return crate::reply::refuse_permission(
                "You don't have enough permissions to use this command.",
            );
        }
        if !filters_valid {
            return crate::reply::refuse("Invalid filter.");
        }
        let mut lines: Vec<String> = Vec::new();
        let ghost all = matches@.map_values(|m: MemberMatch| match_line(m));
        let mut i: usize = 0;
        while i < matches.len()
            invariant
                i <= matches@.len(),
                all == matches@.map_values(|m: MemberMatch| match_line(m)),
                views(lines@) == all.take(i as int),
            decreases matches@.len() - i,
        {
            let line = SearchCommand::line(&matches[i]);
            let ghost before = views(lines@);
            lines.push(line);
            assert(views(lines@) == before.push(line@));
            assert(all.take(i + 1) == all.take(i as int).push(all[i as int]));
            i = i + 1;
        }
        assert(all.take(matches@.len() as int) == all);
        crate::reply::success_with(join_strings(&lines, "\n"))
    }
}

} // verus!
