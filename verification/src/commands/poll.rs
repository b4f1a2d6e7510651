//! `!poll`: a poll whose options members vote on with numbered reactions.
use vstd::prelude::*;
use std::sync::Arc;
use crate::env::BotEnv;
use crate::reply::{
    outcome, refusal, CommandFailure, CommandResult, Embed, EmbedValue, Outcome, Reply, ReplyValue,
};
use crate::text::{
    join, join_strings, nat_text, push_char, push_str, push_u64, split, split_on, split_words,
    views, words,
};

verus! {

/// How `!poll` is used.
pub const USAGE: &'static str = "!poll <poll text>\n<option>\n<option>...";

/// The combining keycap that turns a digit into a number emoji.
pub open spec fn keycap() -> char {
    '\u{20e3}'
}

/// The reaction members vote for option `i` (counted from zero) with.
pub open spec fn option_reaction(i: nat) -> Seq<char> {
    nat_text(i + 1).push(keycap())
}

/// The line that shows option `i` (counted from zero).
pub open spec fn option_line(i: nat, option: Seq<char>) -> Seq<char> {
    option_reaction(i) + " \u{2013} "@ + option
}

/// The lines that show the options.
pub open spec fn option_lines(options: Seq<Seq<char>>) -> Seq<Seq<char>> {
    Seq::new(options.len(), |i: int| option_line(i as nat, options[i]))
}

/// The words of the first line after the command's name.
pub open spec fn poll_words(content: Seq<char>) -> Seq<Seq<char>> {
    let first = words(split(content, '\n')[0]);
    if first.len() == 0 {
        first
    } else {
        first.drop_first()
    }
}

/// The refusal shown when a poll lacks its text or options.
pub open spec fn usage_refusal() -> Outcome {
    Outcome::External(
        ReplyValue::Embed(
            EmbedValue {
                title: Some("Not enough parameters."@),
                description: Some(USAGE@),
                url: None,
                fields: Seq::empty(),
                footer: None,
            },
        ),
    )
}

/// A poll that was asked for.
pub struct PollRequest {
    /// The poll's text: the words after `!poll` on the first line.
    pub text: String,
    /// The options: the lines after the first.
    pub options: Vec<String>,
}

/// `!poll`.
pub struct PollCommand;

impl PollCommand {
    /// The command; it needs nothing of the environment.
    pub fn new(_env: Arc<BotEnv>) -> PollCommand {
        PollCommand
    }

    /// Reads a `!poll` message: its first line holds the command and the poll's text, each
    /// further line an option. There must be a text and two to nine options.
    pub fn run(&self, content: &str) -> (res: Result<PollRequest, CommandResult>)
        ensures
            ({
                let lines = split(content@, '\n');
                let params = poll_words(content@);
                let options = lines.drop_first();
                if params.len() == 0 || options.len() < 2 {
                    res matches Err(r) && outcome(r) == usage_refusal()
                } else if options.len() > 9 {
                    res matches Err(r) && outcome(r) == refusal(
                        "No more than nine poll options can be specified."@,
                    )
                } else {
                    res matches Ok(p) && p.text@ == join(params, " "@) && views(p.options@)
                        == options
                }
            }),
    {
        let lines = split_on(content, '\n');
        proof {
            crate::text::lemma_split_nonempty(content@, '\n');
        }
        assert(views(lines@)[0] == lines@[0]@);
        let first = split_words(lines[0].as_str());
        let mut params: Vec<String> = Vec::new();
        let mut i: usize = 1;
        while i < first.len()
            invariant
                1 <= i,
                i <= first@.len() || first@.len() == 0,
                views(params@) == views(first@).subrange(1, i as int) || first@.len() == 0,
                first@.len() == 0 ==> params@.len() == 0,
            decreases first@.len() - i,
        {
            let ghost before = views(params@);
            params.push(first[i].clone());
            assert(views(params@) == before.push(first@[i as int]@));
            assert(views(first@).subrange(1, i + 1) == views(first@).subrange(1, i as int).push(
                first@[i as int]@,
            ));
            i = i + 1;
        }
        proof {
            if first@.len() > 0 {
                assert(views(first@).subrange(1, first@.len() as int) == views(first@).drop_first());
            } else {
                assert(views(params@) == poll_words(content@));
            }
        }
        let mut options: Vec<String> = Vec::new();
        let mut j: usize = 1;
        while j < lines.len()
            invariant
                1 <= j <= lines@.len(),
                views(options@) == views(lines@).subrange(1, j as int),
            decreases lines@.len() - j,
        {
            let ghost before = views(options@);
            options.push(lines[j].clone());
            assert(views(options@) == before.push(lines@[j as int]@));
            assert(views(lines@).subrange(1, j + 1) == views(lines@).subrange(1, j as int).push(
                lines@[j as int]@,
            ));
            j = j + 1;
        }
        assert(views(lines@).subrange(1, lines@.len() as int) == views(lines@).drop_first());
        if params.len() == 0 || options.len() < 2 {
            let embed = crate::reply::titled_embed("Not enough parameters.", USAGE);
            return Err(Err(CommandFailure::External(Reply::Embed(embed))));
        }
        if options.len() > 9 {
            return Err(crate::reply::refuse("No more than nine poll options can be specified."));
        }
        let text = join_strings(&params, " ");
        Ok(PollRequest { text, options })
    }
}

/// The name a poll shows as its author: the member's nickname or name, or `someone` where it
/// could not be found.
pub fn author_or_someone(name: Option<String>) -> (s: String)
    ensures
        s@ == match name {
            Some(n) => n@,
            None => "someone"@,
        },
{
    match name {
        Some(n) => n,
        None => "someone".to_owned(),
    }
}

/// A poll.
pub struct Poll {
    pub author: String,
    pub text: String,
    pub options: Vec<String>,
}

impl Poll {
    /// A poll by `author`.
    pub fn new(author: String, text: &str, options: &Vec<String>) -> (p: Poll)
        ensures
            p.author@ == author@,
            p.text@ == text@,
            views(p.options@) == views(options@),
    {
        let mut opts: Vec<String> = Vec::new();
        let mut i: usize = 0;
        while i < options.len()
            invariant
                i <= options@.len(),
                views(opts@) == views(options@).take(i as int),
            decreases options@.len() - i,
        {
            let ghost before = views(opts@);
            opts.push(options[i].clone());
            assert(views(opts@) == before.push(options@[i as int]@));
            assert(views(options@).take(i + 1) == views(options@).take(i as int).push(
                options@[i as int]@,
            ));
            i = i + 1;
        }
        assert(views(options@).take(options@.len() as int) == views(options@));
        Poll { author, text: text.to_owned(), options: opts }
    }

    /// The reaction for option `i`, counted from zero.
    pub fn reaction(i: usize) -> (s: String)
        requires
            i < usize::MAX,
        ensures
            s@ == option_reaction(i as nat),
    {
        let mut s = String::new();
        push_u64(&mut s, (i + 1) as u64);
        push_char(&mut s, '\u{20e3}');
        s
    }

    /// The reactions members vote with, one per option, in order.
    pub fn reactions(&self) -> (r: Vec<String>)
        ensures
            views(r@) == Seq::new(self.options@.len(), |i: int| option_reaction(i as nat)),
    {
        let mut r: Vec<String> = Vec::new();
        let mut i: usize = 0;
        while i < self.options.len()
            invariant
                i <= self.options@.len(),
                views(r@) == Seq::new(i as nat, |k: int| option_reaction(k as nat)),
            decreases self.options@.len() - i,
        {
            let s = Poll::reaction(i);
            let ghost before = views(r@);
            r.push(s);
            assert(views(r@) == before.push(s@));
            assert(views(r@) == Seq::new((i + 1) as nat, |k: int| option_reaction(k as nat)));
            i = i + 1;
        }
        r
    }

    /// The message that shows the poll: by whom, its text, then one numbered line per option.
    pub fn create_embed(&self) -> (e: Embed)
        ensures
            e@ == (EmbedValue {
                title: Some("Poll by "@ + self.author@),
                description: Some(
                    self.text@ + "\n"@ + join(option_lines(views(self.options@)), "\n"@),
                ),
                url: None,
                fields: Seq::empty(),
                footer: Some("Loading poll ID..."@),
            }),
    {
        let mut lines: Vec<String> = Vec::new();
        let ghost opts = views(self.options@);
        let mut i: usize = 0;
        while i < self.options.len()
            invariant
                i <= self.options@.len(),
                opts == views(self.options@),
                views(lines@) == option_lines(opts).take(i as int),
            decreases self.options@.len() - i,
        {
            let mut line = Poll::reaction(i);
            push_str(&mut line, " \u{2013} ");
            push_str(&mut line, self.options[i].as_str());
            let ghost before = views(lines@);
            lines.push(line);
            assert(views(lines@) == before.push(line@));
            assert(option_lines(opts).take(i + 1) == option_lines(opts).take(i as int).push(
                option_line(i as nat, opts[i as int]),
            ));
            i = i + 1;
        }
        assert(option_lines(opts).take(self.options@.len() as int) == option_lines(opts));
        let options = join_strings(&lines, "\n");
        let mut title = String::new();
        push_str(&mut title, "Poll by ");
        push_str(&mut title, self.author.as_str());
        let mut desc = self.text.clone();
        push_str(&mut desc, "\n");
        push_str(&mut desc, options.as_str());
        let e = Embed {
            title: Some(title),
            description: Some(desc),
            url: None,
            fields: Vec::new(),
            footer: Some("Loading poll ID...".to_owned()),
        };
        assert(e@.fields == Seq::<crate::reply::FieldValue>::empty());
        e
    }
}

} // verus!
