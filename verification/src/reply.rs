//! What a command answers: success, possibly with a message, or a failure that is
//! either shown to the user (external) or logged (internal).
use vstd::prelude::*;

verus! {

/// One field of an embed.
pub struct EmbedField {
    pub name: String,
    pub value: String,
    pub inline: bool,
}

/// A rich message.
pub struct Embed {
    pub title: Option<String>,
    pub description: Option<String>,
    pub url: Option<String>,
    pub fields: Vec<EmbedField>,
    pub footer: Option<String>,
}

/// A message that a command sends back.
pub enum Reply {
    Text(String),
    Embed(Embed),
}

/// A command that went through, with the message it answers, if any.
pub struct CommandSuccess {
    pub message: Option<Reply>,
}

/// A command that did not go through.
pub enum CommandFailure {
    /// Something went wrong on the bot's side; the text is for the log.
    Internal(String),
    /// The user did something wrong; the reply tells them what.
    External(Reply),
}

/// The answer of a command.
pub type CommandResult = Result<CommandSuccess, CommandFailure>;

/// An embed field as values.
pub struct FieldValue {
    pub name: Seq<char>,
    pub value: Seq<char>,
    pub inline: bool,
}

/// An embed as values.
pub struct EmbedValue {
    pub title: Option<Seq<char>>,
    pub description: Option<Seq<char>>,
    pub url: Option<Seq<char>>,
    pub fields: Seq<FieldValue>,
    pub footer: Option<Seq<char>>,
}

/// A reply as values.
pub enum ReplyValue {
    Text(Seq<char>),
    Embed(EmbedValue),
}

/// A command's answer as values.
pub enum Outcome {
    Success(Option<ReplyValue>),
    Internal(Seq<char>),
    External(ReplyValue),
}

/// The characters of an optional string.
pub open spec fn opt_text(o: Option<String>) -> Option<Seq<char>> {
    match o {
        Some(s) => Some(s@),
        None => None,
    }
}

impl View for EmbedField {
    type V = FieldValue;

    open spec fn view(&self) -> FieldValue {
        FieldValue { name: self.name@, value: self.value@, inline: self.inline }
    }
}

impl View for Embed {
    type V = EmbedValue;

    open spec fn view(&self) -> EmbedValue {
        EmbedValue {
            title: opt_text(self.title),
            description: opt_text(self.description),
            url: opt_text(self.url),
            fields: self.fields@.map_values(|f: EmbedField| f@),
            footer: opt_text(self.footer),
        }
    }
}

impl View for Reply {
    type V = ReplyValue;

    open spec fn view(&self) -> ReplyValue {
        match self {
            Reply::Text(s) => ReplyValue::Text(s@),
            Reply::Embed(e) => ReplyValue::Embed(e@),
        }
    }
}

/// The value of a command's answer.
pub open spec fn outcome(r: CommandResult) -> Outcome {
    match r {
        Ok(s) => match s.message {
            Some(m) => Outcome::Success(Some(m@)),
            None => Outcome::Success(None),
        },
        Err(CommandFailure::Internal(e)) => Outcome::Internal(e@),
        Err(CommandFailure::External(m)) => Outcome::External(m@),
    }
}

/// A failure that tells the user `msg`.
pub open spec fn refusal(msg: Seq<char>) -> Outcome {
    Outcome::External(ReplyValue::Text(msg))
}

/// A success that says nothing.
pub open spec fn done() -> Outcome {
    Outcome::Success(None)
}

/// A success that answers `msg`.
pub open spec fn answer(msg: Seq<char>) -> Outcome {
    Outcome::Success(Some(ReplyValue::Text(msg)))
}

/// A success with no message.
pub fn success() -> (r: CommandResult)
    ensures
        outcome(r) == done(),
{
    Ok(CommandSuccess { message: None })
}

/// A success that answers `msg`.
pub fn success_with(msg: String) -> (r: CommandResult)
    ensures
        outcome(r) == answer(msg@),
{
    Ok(CommandSuccess { message: Some(Reply::Text(msg)) })
}

/// A failure that tells the user `msg`.
pub fn refuse(msg: &str) -> (r: CommandResult)
    ensures
        outcome(r) == refusal(msg@),
{
    Err(CommandFailure::External(Reply::Text(msg.to_owned())))
}

/// A failure that tells the user `msg`.
pub fn refuse_with(msg: String) -> (r: CommandResult)
    ensures
        outcome(r) == refusal(msg@),
{
    Err(CommandFailure::External(Reply::Text(msg)))
}

/// A failure on the bot's side, described by `msg`.
pub fn internal(msg: &str) -> (r: CommandResult)
    ensures
        outcome(r) == Outcome::Internal(msg@),
{
    Err(CommandFailure::Internal(msg.to_owned()))
}

/// An embed with the given title and description and nothing else.
pub fn titled_embed(title: &str, description: &str) -> (e: Embed)
    ensures
        e@ == (EmbedValue {
            title: Some(title@),
            description: Some(description@),
            url: None,
            fields: Seq::empty(),
            footer: None,
        }),
{
    let e = Embed {
        title: Some(title.to_owned()),
        description: Some(description.to_owned()),
        url: None,
        fields: Vec::new(),
        footer: None,
    };
    assert(e@.fields == Seq::<FieldValue>::empty());
    e
}

/// The refusal shown when the author may not use a command.
pub open spec fn permission_refusal(description: Seq<char>) -> Outcome {
    Outcome::External(
        ReplyValue::Embed(
            EmbedValue {
                title: Some("Not enough permissions."@),
                description: Some(description),
                url: None,
                fields: Seq::empty(),
                footer: None,
            },
        ),
    )
}

/// Refuses the command because its author lacks a permission; `description` says which.
pub fn refuse_permission(description: &str) -> (r: CommandResult)
    ensures
        outcome(r) == permission_refusal(description@),
{
    Err(CommandFailure::External(Reply::Embed(titled_embed("Not enough permissions.", description))))
}

} // verus!
