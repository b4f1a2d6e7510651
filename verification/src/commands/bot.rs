//! `!bot`: administration of the bot itself, for now its presences (what it is shown as
//! playing or listening to).
use vstd::prelude::*;
use std::sync::Arc;
use crate::env::BotEnv;
use crate::reply::{
    answer, done, outcome, permission_refusal, refusal, CommandFailure, CommandResult, Outcome,
};
use crate::text::{int_text, join, push_i64, push_str, same_text, views, join_strings};

verus! {

/// The parameters of `!bot`.
pub struct Params {
    /// The subcommand.
    pub subcommand: String,
    /// Any arguments.
    pub args: Vec<String>,
}

/// What a presence shows the bot doing.
#[derive(PartialEq, Eq, Structural, Clone, Copy, Debug)]
pub enum PresenceKind {
    Playing,
    Listening,
}

impl PresenceKind {
    /// The number a kind is stored as: its place among the kinds.
    pub open spec fn number(self) -> i16 {
        match self {
            PresenceKind::Playing => 0,
            PresenceKind::Listening => 1,
        }
    }

    /// The number this kind is stored as.
    pub fn to_i16(self) -> (n: i16)
        ensures
            n == self.number(),
    {
        match self {
            PresenceKind::Playing => 0,
            PresenceKind::Listening => 1,
        }
    }

    /// The kind stored as `n`, where there is one.
    pub fn from_i16(n: i16) -> (k: Option<PresenceKind>)
        ensures
            match k {
                Some(kind) => kind.number() == n,
                None => n != 0 && n != 1,
            },
    {
        if n == 0 {
            Some(PresenceKind::Playing)
        } else if n == 1 {
            Some(PresenceKind::Listening)
        } else {
            None
        }
    }

    /// The kind's name as a listing shows it.
    pub open spec fn text(self) -> Seq<char> {
        match self {
            PresenceKind::Playing => "playing"@,
            PresenceKind::Listening => "listening"@,
        }
    }

    /// The kind's name.
    pub fn name(self) -> (s: String)
        ensures
            s@ == self.text(),
    {
        match self {
            PresenceKind::Playing => "playing".to_owned(),
            PresenceKind::Listening => "listening".to_owned(),
        }
    }

    /// The kind named by a command argument: `playing` or `listening`.
    pub open spec fn named(arg: Seq<char>) -> Option<PresenceKind> {
        if arg == "playing"@ {
            Some(PresenceKind::Playing)
        } else if arg == "listening"@ {
            Some(PresenceKind::Listening)
        } else {
            None
        }
    }

    /// The kind named by a command argument.
    pub fn parse(arg: &str) -> (k: Option<PresenceKind>)
        ensures
            k == PresenceKind::named(arg@),
    {
        if same_text(arg, "playing") {
            Some(PresenceKind::Playing)
        } else if same_text(arg, "listening") {
            Some(PresenceKind::Listening)
        } else {
            None
        }
    }
}

/// Kinds are stored as distinct numbers, so reading back the number a kind is stored as
/// gives that kind.
pub proof fn lemma_presence_kind_roundtrip(a: PresenceKind, b: PresenceKind)
    ensures
        a.number() == b.number() ==> a == b,
        a.number() == 0 || a.number() == 1,
{
}

/// A stored presence.
pub struct Presence {
    pub id: i32,
    pub kind: i16,
    pub content: String,
}

/// A presence to store.
pub struct NewPresence {
    pub kind: i16,
    pub content: String,
}

/// What `!bot` asks to be done, once its arguments are understood.
pub enum BotAction {
    /// List the stored presences.
    ListPresences,
    /// Store a new presence.
    AddPresence(NewPresence),
    /// Delete the stored presence with this id.
    RemovePresence(i32),
    /// Show the bot doing this now.
    ChangePresence(PresenceKind, String),
    /// Show the bot doing one of the stored presences, picked at random.
    RandomPresence,
}

/// A `!bot` action as values.
pub enum ActionValue {
    ListPresences,
    AddPresence(i16, Seq<char>),
    RemovePresence(i32),
    ChangePresence(PresenceKind, Seq<char>),
    RandomPresence,
}

impl View for BotAction {
    type V = ActionValue;

    open spec fn view(&self) -> ActionValue {
        match self {
            BotAction::ListPresences => ActionValue::ListPresences,
            BotAction::AddPresence(p) => ActionValue::AddPresence(p.kind, p.content@),
            BotAction::RemovePresence(id) => ActionValue::RemovePresence(*id),
            BotAction::ChangePresence(k, s) => ActionValue::ChangePresence(*k, s@),
            BotAction::RandomPresence => ActionValue::RandomPresence,
        }
    }
}

/// What `!bot` does with its arguments: an action, or an answer at once.
pub enum Decision {
    Act(ActionValue),
    Answer(Outcome),
}

/// The view of an action-or-answer.
pub open spec fn decision(r: Result<BotAction, CommandResult>) -> Decision {
    match r {
        Ok(a) => Decision::Act(a@),
        Err(c) => Decision::Answer(outcome(c)),
    }
}

/// The arguments after the first, joined with spaces.
pub open spec fn rest_text(args: Seq<Seq<char>>) -> Seq<char> {
    join(args.drop_first(), " "@)
}

/// What `!bot presence change` does with its arguments.
pub open spec fn change_decision(args: Seq<Seq<char>>) -> Decision {
    if args.len() == 0 {
        Decision::Answer(refusal("!bot presence change [playing/listening] [content]"@))
    } else {
        match PresenceKind::named(args[0]) {
            Some(k) => Decision::Act(ActionValue::ChangePresence(k, rest_text(args))),
            None => Decision::Answer(refusal("Invalid presence type."@)),
        }
    }
}

/// What `!bot presence add` does with its arguments.
pub open spec fn add_decision(args: Seq<Seq<char>>) -> Decision {
    if args.len() < 2 {
        Decision::Answer(refusal("!bot presences add [playing/listening] [content]"@))
    } else {
        match PresenceKind::named(args[0]) {
            Some(k) => Decision::Act(ActionValue::AddPresence(k.number(), rest_text(args))),
            None => Decision::Answer(refusal("Invalid presence kind."@)),
        }
    }
}

/// What `!bot presence remove` does with its arguments.
pub open spec fn remove_decision(args: Seq<Seq<char>>) -> Decision {
    if args.len() == 0 {
        Decision::Answer(refusal("!bot presences remove [id]"@))
    } else {
        match crate::text::parse_i32(args[0]) {
            Some(id) => Decision::Act(ActionValue::RemovePresence(id)),
            None => Decision::Answer(refusal("Invalid ID."@)),
        }
    }
}

/// What `!bot presence` does with its arguments.
pub open spec fn presence_decision(args: Seq<Seq<char>>) -> Decision {
    if args.len() == 0 {
        Decision::Act(ActionValue::ListPresences)
    } else {
        let sub = args[0];
        let rest = args.drop_first();
        if sub == "add"@ || sub == "create"@ {
            add_decision(rest)
        } else if sub == "remove"@ || sub == "delete"@ {
            remove_decision(rest)
        } else if sub == "change"@ || sub == "set"@ {
            change_decision(rest)
        } else if sub == "random"@ {
            Decision::Act(ActionValue::RandomPresence)
        } else {
            Decision::Answer(refusal("Invalid subcommand"@))
        }
    }
}

/// The line that lists a presence.
pub open spec fn presence_line(p: Presence) -> Seq<char> {
    let kind = if p.kind == 0 {
        PresenceKind::Playing.text()
    } else if p.kind == 1 {
        PresenceKind::Listening.text()
    } else {
        "<invalid type>"@
    };
    int_text(p.id as int) + ". "@ + kind + " "@ + p.content@
}

/// `!bot`.
pub struct BotCommand;

fn tail(args: &Vec<String>) -> (rest: Vec<String>)
    requires
        args@.len() > 0,
    ensures
        views(rest@) == views(args@).drop_first(),
{
    let mut rest: Vec<String> = Vec::new();
    let mut i: usize = 1;
    while i < args.len()
        invariant
            1 <= i <= args@.len(),
            views(rest@) == views(args@).subrange(1, i as int),
        decreases args@.len() - i,
    {
        let ghost before = views(rest@);
        rest.push(args[i].clone());
        assert(views(rest@) == before.push(args@[i as int]@));
        assert(views(args@).subrange(1, i + 1) == views(args@).subrange(1, i as int).push(
            args@[i as int]@,
        ));
        i = i + 1;
    }
    assert(views(args@).subrange(1, args@.len() as int) == views(args@).drop_first());
    rest
}

impl BotCommand {
    /// The command; it needs nothing of the environment.
    pub fn new(_env: Arc<BotEnv>) -> BotCommand {
        BotCommand
    }

    /// Runs `!bot` for an author who is or is not an administrator, with the parameters as
    /// they were read: only administrators may use it, and `presence` (or `presences`) is its
    /// one subcommand.
    pub fn run(&self, is_admin: bool, params: Result<Params, CommandFailure>) -> (res: Result<
        BotAction,
        CommandResult,
    >)
        ensures
            !is_admin ==> decision(res) == Decision::Answer(
                permission_refusal("You don't have enough permissions to use this command."@),
            ),
            is_admin ==> match params {
                Err(e) => res matches Err(Err(e2)) && e2 == e,
                Ok(p) => if p.subcommand@ == "presence"@ || p.subcommand@ == "presences"@ {
                    decision(res) == presence_decision(views(p.args@))
                } else {
                    decision(res) == Decision::Answer(refusal("Invalid subcommand."@))
                },
            },
    {
        if !is_admin {
            return Err(
                crate::reply::refuse_permission(
                    "You don't have enough permissions to use this command.",
                ),
            );
        }
        let params = match params {
            Ok(p) => p,
            Err(e) => return Err(Err(e)),
        };
        if same_text(params.subcommand.as_str(), "presence") || same_text(
            params.subcommand.as_str(),
            "presences",
        ) {
            self.presence(&params.args)
        } else {
            Err(crate::reply::refuse("Invalid subcommand."))
        }
    }

    /// `!bot presence` with its arguments.
    pub fn presence(&self, args: &Vec<String>) -> (res: Result<BotAction, CommandResult>)
        ensures
            decision(res) == presence_decision(views(args@)),
    {
        if args.len() == 0 {
            return Ok(BotAction::ListPresences);
        }
        let sub = args[0].as_str();
        let rest = tail(args);
        assert(views(args@)[0] == args@[0]@);
        if same_text(sub, "add") || same_text(sub, "create") {
            self.add_presence(&rest)
        } else if same_text(sub, "remove") || same_text(sub, "delete") {
            self.remove_presence(&rest)
        } else if same_text(sub, "change") || same_text(sub, "set") {
            self.change_presence(&rest)
        } else if same_text(sub, "random") {
            Ok(BotAction::RandomPresence)
        } else {
            Err(crate::reply::refuse("Invalid subcommand"))
        }
    }

    /// The listing of the stored presences, one line each: id, kind and content.
    pub fn list_all_presences(&self, presences: &Vec<Presence>) -> (r: CommandResult)
        ensures
            outcome(r) == answer(
                join(presences@.map_values(|p: Presence| presence_line(p)), "\n"@),
            ),
    {
        let mut lines: Vec<String> = Vec::new();
        let mut i: usize = 0;
        while i < presences.len()
            invariant
                i <= presences@.len(),
                views(lines@) == presences@.map_values(|p: Presence| presence_line(p)).take(
                    i as int,
                ),
            decreases presences@.len() - i,
        {
            let p = &presences[i];
            let mut line = String::new();
            push_i64(&mut line, p.id as i64);
            push_str(&mut line, ". ");
            match PresenceKind::from_i16(p.kind) {
                Some(k) => {
                    let n = k.name();
                    push_str(&mut line, n.as_str());
                },
                None => push_str(&mut line, "<invalid type>"),
            }
            push_str(&mut line, " ");
            push_str(&mut line, p.content.as_str());
            let ghost before = views(lines@);
            lines.push(line);
            assert(views(lines@) == before.push(line@));
            assert(line@ == presence_line(presences@[i as int]));
            assert(presences@.map_values(|p: Presence| presence_line(p)).take(i + 1)
                == presences@.map_values(|p: Presence| presence_line(p)).take(i as int).push(
                presence_line(presences@[i as int]),
            ));
            i = i + 1;
        }
        assert(presences@.map_values(|p: Presence| presence_line(p)).take(presences@.len() as int)
            == presences@.map_values(|p: Presence| presence_line(p)));
        let text = join_strings(&lines, "\n");
        crate::reply::success_with(text)
    }

    /// `!bot presence change` with its arguments: the kind, then the text.
    pub fn change_presence(&self, args: &Vec<String>) -> (res: Result<BotAction, CommandResult>)
        ensures
            decision(res) == change_decision(views(args@)),
    {
        if args.len() == 0 {
            return Err(crate::reply::refuse("!bot presence change [playing/listening] [content]"));
        }
        let rest = tail(args);
        let name = join_strings(&rest, " ");
        assert(views(args@)[0] == args@[0]@);
        match PresenceKind::parse(args[0].as_str()) {
            Some(k) => Ok(BotAction::ChangePresence(k, name)),
            None => Err(crate::reply::refuse("Invalid presence type.")),
        }
    }

    /// The answer of `!bot presence random`, given whether a stored presence was found.
    pub fn random_presence(&self, found: bool) -> (r: CommandResult)
        ensures
            outcome(r) == if found {
                done()
            } else {
                refusal("No presences."@)
            },
    {
        if found {
            crate::reply::success()
        } else {
            crate::reply::refuse("No presences.")
        }
    }

    /// `!bot presence remove` with its arguments: the id of the presence.
    pub fn remove_presence(&self, args: &Vec<String>) -> (res: Result<BotAction, CommandResult>)
        ensures
            decision(res) == remove_decision(views(args@)),
    {
        if args.len() == 0 {
            return Err(crate::reply::refuse("!bot presences remove [id]"));
        }
        assert(views(args@)[0] == args@[0]@);
        match crate::text::parse_i32_text(args[0].as_str()) {
            Some(id) => Ok(BotAction::RemovePresence(id)),
            None => Err(crate::reply::refuse("Invalid ID.")),
        }
    }

    /// The answer of `!bot presence remove`, given how many presences were deleted.
    pub fn removed(&self, affected: usize) -> (r: CommandResult)
        ensures
            outcome(r) == if affected > 0 {
                done()
            } else {
                refusal("No presence with that ID were found."@)
            },
    {
        if affected > 0 {
            crate::reply::success()
        } else {
            crate::reply::refuse("No presence with that ID were found.")
        }
    }

    /// `!bot presence add` with its arguments: the kind, then the text.
    pub fn add_presence(&self, args: &Vec<String>) -> (res: Result<BotAction, CommandResult>)
        ensures
            decision(res) == add_decision(views(args@)),
    {
        if args.len() < 2 {
            return Err(crate::reply::refuse("!bot presences add [playing/listening] [content]"));
        }
        let rest = tail(args);
        let content = join_strings(&rest, " ");
        assert(views(args@)[0] == args@[0]@);
        match PresenceKind::parse(args[0].as_str()) {
            Some(k) => Ok(BotAction::AddPresence(NewPresence { kind: k.to_i16(), content })),
            None => Err(crate::reply::refuse("Invalid presence kind.")),
        }
    }
}

} // verus!
