//! The commands the bot answers to, under each of their names.
use vstd::prelude::*;
use crate::text::same_text;

verus! {

/// What a message must start with to be a command.
pub const PREFIX: &'static str = "!";

/// A command of the bot.
#[derive(PartialEq, Eq, Structural, Clone, Copy, Debug)]
pub enum CommandKind {
    /// `!archive`
    Archive,
    /// `!autotag`
    AutoTag,
    /// `!blob`
    Blob,
    /// `!bot`
    Bot,
    /// `!configure`
    Configure,
    /// `!ephemeralmessage`
    EphemeralMessage,
    /// `!fflogs`
    FfLogs,
    /// `!imagedump`
    ImageDump,
    /// `!mention`
    Mention,
    /// `!ping`
    Ping,
    /// `!poll`
    Poll,
    /// `!pollresults`
    PollResults,
    /// `!queuetag`
    QueueTag,
    /// `!race`
    Race,
    /// `!randomreaction`
    RandomReaction,
    /// `!referencecount`
    ReferenceCount,
    /// `!reload`
    ReloadConfig,
    /// `!report`
    Report,
    /// `!search`
    Search,
    /// `!tag`
    Tag,
    /// `!temporaryrole`
    TemporaryRole,
    /// `!timeout`
    Timeout,
    /// `!untimeout`
    Untimeout,
    /// `!updatetag`
    UpdateTag,
    /// `!updatetags`
    UpdateTags,
    /// `!verify`
    Verify,
    /// `!version`
    Version,
    /// `!viewtag`
    ViewTag,
}

/// Every name a command answers to, with the command, in the order they are registered.
pub open spec fn command_table() -> Seq<(Seq<char>, CommandKind)> {
    seq![
        ("archive"@, CommandKind::Archive),
        ("autotag"@, CommandKind::AutoTag),
        ("blob"@, CommandKind::Blob),
        ("bot"@, CommandKind::Bot),
        ("configure"@, CommandKind::Configure),
        ("config"@, CommandKind::Configure),
        ("ephemeralmessage"@, CommandKind::EphemeralMessage),
        ("ephemeral"@, CommandKind::EphemeralMessage),
        ("fflogs"@, CommandKind::FfLogs),
        ("imagedump"@, CommandKind::ImageDump),
        ("dump"@, CommandKind::ImageDump),
        ("mention"@, CommandKind::Mention),
        ("ping"@, CommandKind::Ping),
        ("poll"@, CommandKind::Poll),
        ("pollresults"@, CommandKind::PollResults),
        ("queuetag"@, CommandKind::QueueTag),
        ("race"@, CommandKind::Race),
        ("randomreaction"@, CommandKind::RandomReaction),
        ("reaction"@, CommandKind::RandomReaction),
        ("referencecount"@, CommandKind::ReferenceCount),
        ("reload"@, CommandKind::ReloadConfig),
        ("reloadconfig"@, CommandKind::ReloadConfig),
        ("report"@, CommandKind::Report),
        ("search"@, CommandKind::Search),
        ("tag"@, CommandKind::Tag),
        ("temporaryrole"@, CommandKind::TemporaryRole),
        ("temprole"@, CommandKind::TemporaryRole),
        ("timeout"@, CommandKind::Timeout),
        ("untimeout"@, CommandKind::Untimeout),
        ("updatetag"@, CommandKind::UpdateTag),
        ("updatetags"@, CommandKind::UpdateTags),
        ("verify"@, CommandKind::Verify),
        ("version"@, CommandKind::Version),
        ("viewtag"@, CommandKind::ViewTag),
    ]
}

/// The command that answers to `name`, where one does.
pub open spec fn command_named(name: Seq<char>) -> Option<CommandKind> {
    if exists|i: int| 0 <= i < command_table().len() && (#[trigger] command_table()[i]).0 == name {
        Some(command_table()[choose|i: int| 0 <= i < command_table().len() && (#[trigger] command_table()[i]).0 == name].1)
    } else {
        None
    }
}

/// Every name a command answers to, with the command, in the order they are registered.
pub fn aliases() -> (v: Vec<(String, CommandKind)>)
    ensures
        v@.len() == command_table().len(),
        forall|i: int| 0 <= i < v@.len() ==> (#[trigger] v@[i]).0@ == command_table()[i].0 && v@[i].1 == command_table()[i].1,
{
    let mut v: Vec<(String, CommandKind)> = Vec::new();
    v.push(("archive".to_owned(), CommandKind::Archive));
    v.push(("autotag".to_owned(), CommandKind::AutoTag));
    v.push(("blob".to_owned(), CommandKind::Blob));
    v.push(("bot".to_owned(), CommandKind::Bot));
    v.push(("configure".to_owned(), CommandKind::Configure));
    v.push(("config".to_owned(), CommandKind::Configure));
    v.push(("ephemeralmessage".to_owned(), CommandKind::EphemeralMessage));
    v.push(("ephemeral".to_owned(), CommandKind::EphemeralMessage));
    v.push(("fflogs".to_owned(), CommandKind::FfLogs));
    v.push(("imagedump".to_owned(), CommandKind::ImageDump));
    v.push(("dump".to_owned(), CommandKind::ImageDump));
    v.push(("mention".to_owned(), CommandKind::Mention));
    v.push(("ping".to_owned(), CommandKind::Ping));
    v.push(("poll".to_owned(), CommandKind::Poll));
    v.push(("pollresults".to_owned(), CommandKind::PollResults));
    v.push(("queuetag".to_owned(), CommandKind::QueueTag));
    v.push(("race".to_owned(), CommandKind::Race));
    v.push(("randomreaction".to_owned(), CommandKind::RandomReaction));
    v.push(("reaction".to_owned(), CommandKind::RandomReaction));
    v.push(("referencecount".to_owned(), CommandKind::ReferenceCount));
    v.push(("reload".to_owned(), CommandKind::ReloadConfig));
    v.push(("reloadconfig".to_owned(), CommandKind::ReloadConfig));
    v.push(("report".to_owned(), CommandKind::Report));
    v.push(("search".to_owned(), CommandKind::Search));
    v.push(("tag".to_owned(), CommandKind::Tag));
    v.push(("temporaryrole".to_owned(), CommandKind::TemporaryRole));
    v.push(("temprole".to_owned(), CommandKind::TemporaryRole));
    v.push(("timeout".to_owned(), CommandKind::Timeout));
    v.push(("untimeout".to_owned(), CommandKind::Untimeout));
    v.push(("updatetag".to_owned(), CommandKind::UpdateTag));
    v.push(("updatetags".to_owned(), CommandKind::UpdateTags));
    v.push(("verify".to_owned(), CommandKind::Verify));
    v.push(("version".to_owned(), CommandKind::Version));
    v.push(("viewtag".to_owned(), CommandKind::ViewTag));
    v
}

/// The command that answers to `name`, where one does.
pub fn command_for(name: &str) -> (k: Option<CommandKind>)
    ensures
        k == command_named(name@),
        name@ == "archive"@ ==> k == Some(CommandKind::Archive),
        name@ == "autotag"@ ==> k == Some(CommandKind::AutoTag),
        name@ == "blob"@ ==> k == Some(CommandKind::Blob),
        name@ == "bot"@ ==> k == Some(CommandKind::Bot),
        name@ == "configure"@ ==> k == Some(CommandKind::Configure),
        name@ == "config"@ ==> k == Some(CommandKind::Configure),
        name@ == "ephemeralmessage"@ ==> k == Some(CommandKind::EphemeralMessage),
        name@ == "ephemeral"@ ==> k == Some(CommandKind::EphemeralMessage),
        name@ == "fflogs"@ ==> k == Some(CommandKind::FfLogs),
        name@ == "imagedump"@ ==> k == Some(CommandKind::ImageDump),
        name@ == "dump"@ ==> k == Some(CommandKind::ImageDump),
        name@ == "mention"@ ==> k == Some(CommandKind::Mention),
        name@ == "ping"@ ==> k == Some(CommandKind::Ping),
        name@ == "poll"@ ==> k == Some(CommandKind::Poll),
        name@ == "pollresults"@ ==> k == Some(CommandKind::PollResults),
        name@ == "queuetag"@ ==> k == Some(CommandKind::QueueTag),
        name@ == "race"@ ==> k == Some(CommandKind::Race),
        name@ == "randomreaction"@ ==> k == Some(CommandKind::RandomReaction),
        name@ == "reaction"@ ==> k == Some(CommandKind::RandomReaction),
        name@ == "referencecount"@ ==> k == Some(CommandKind::ReferenceCount),
        name@ == "reload"@ ==> k == Some(CommandKind::ReloadConfig),
        name@ == "reloadconfig"@ ==> k == Some(CommandKind::ReloadConfig),
        name@ == "report"@ ==> k == Some(CommandKind::Report),
        name@ == "search"@ ==> k == Some(CommandKind::Search),
        name@ == "tag"@ ==> k == Some(CommandKind::Tag),
        name@ == "temporaryrole"@ ==> k == Some(CommandKind::TemporaryRole),
        name@ == "temprole"@ ==> k == Some(CommandKind::TemporaryRole),
        name@ == "timeout"@ ==> k == Some(CommandKind::Timeout),
        name@ == "untimeout"@ ==> k == Some(CommandKind::Untimeout),
        name@ == "updatetag"@ ==> k == Some(CommandKind::UpdateTag),
        name@ == "updatetags"@ ==> k == Some(CommandKind::UpdateTags),
        name@ == "verify"@ ==> k == Some(CommandKind::Verify),
        name@ == "version"@ ==> k == Some(CommandKind::Version),
        name@ == "viewtag"@ ==> k == Some(CommandKind::ViewTag),
{
    proof {
        lemma_each_name_answers();
    }
    let table = aliases();
    let mut i: usize = 0;
    while i < table.len()
        invariant
            i <= table@.len(),
            table@.len() == command_table().len(),
            forall|j: int| 0 <= j < table@.len() ==> (#[trigger] table@[j]).0@ == command_table()[j].0 && table@[j].1 == command_table()[j].1,
            forall|j: int| 0 <= j < i ==> (#[trigger] command_table()[j]).0 != name@,
        decreases table@.len() - i,
    {
        if same_text(table[i].0.as_str(), name) {
            proof {
                lemma_names_distinct();
                let c = choose|c: int| 0 <= c < command_table().len() && (#[trigger] command_table()[c]).0 == name@;
                if c != i {
                    if c < i {
                        assert(command_table()[c].0 != command_table()[i as int].0);
                    } else {
                        assert(command_table()[i as int].0 != command_table()[c].0);
                    }
                }
            }
            return Some(table[i].1);
        }
        assert(command_table()[i as int].0 != name@);
        i = i + 1;
    }
    None
}

/// Tells the registered names apart by their length, first and last character: the
/// position of the name among the registered ones, or -1.
spec fn name_index(s: Seq<char>) -> int {
    if s.len() == 7 && s[0] == 'a' && s.last() == 'e' {
        0
    } else if s.len() == 7 && s[0] == 'a' && s.last() == 'g' {
        1
    } else if s.len() == 4 && s[0] == 'b' && s.last() == 'b' {
        2
    } else if s.len() == 3 && s[0] == 'b' && s.last() == 't' {
        3
    } else if s.len() == 9 && s[0] == 'c' && s.last() == 'e' {
        4
    } else if s.len() == 6 && s[0] == 'c' && s.last() == 'g' {
        5
    } else if s.len() == 16 && s[0] == 'e' && s.last() == 'e' {
        6
    } else if s.len() == 9 && s[0] == 'e' && s.last() == 'l' {
        7
    } else if s.len() == 6 && s[0] == 'f' && s.last() == 's' {
        8
    } else if s.len() == 9 && s[0] == 'i' && s.last() == 'p' {
        9
    } else if s.len() == 4 && s[0] == 'd' && s.last() == 'p' {
        10
    } else if s.len() == 7 && s[0] == 'm' && s.last() == 'n' {
        11
    } else if s.len() == 4 && s[0] == 'p' && s.last() == 'g' {
        12
    } else if s.len() == 4 && s[0] == 'p' && s.last() == 'l' {
        13
    } else if s.len() == 11 && s[0] == 'p' && s.last() == 's' {
        14
    } else if s.len() == 8 && s[0] == 'q' && s.last() == 'g' {
        15
    } else if s.len() == 4 && s[0] == 'r' && s.last() == 'e' {
        16
    } else if s.len() == 14 && s[0] == 'r' && s.last() == 'n' {
        17
    } else if s.len() == 8 && s[0] == 'r' && s.last() == 'n' {
        18
    } else if s.len() == 14 && s[0] == 'r' && s.last() == 't' {
        19
    } else if s.len() == 6 && s[0] == 'r' && s.last() == 'd' {
        20
    } else if s.len() == 12 && s[0] == 'r' && s.last() == 'g' {
        21
    } else if s.len() == 6 && s[0] == 'r' && s.last() == 't' {
        22
    } else if s.len() == 6 && s[0] == 's' && s.last() == 'h' {
        23
    } else if s.len() == 3 && s[0] == 't' && s.last() == 'g' {
        24
    } else if s.len() == 13 && s[0] == 't' && s.last() == 'e' {
        25
    } else if s.len() == 8 && s[0] == 't' && s.last() == 'e' {
        26
    } else if s.len() == 7 && s[0] == 't' && s.last() == 't' {
        27
    } else if s.len() == 9 && s[0] == 'u' && s.last() == 't' {
        28
    } else if s.len() == 9 && s[0] == 'u' && s.last() == 'g' {
        29
    } else if s.len() == 10 && s[0] == 'u' && s.last() == 's' {
        30
    } else if s.len() == 6 && s[0] == 'v' && s.last() == 'y' {
        31
    } else if s.len() == 7 && s[0] == 'v' && s.last() == 'n' {
        32
    } else if s.len() == 7 && s[0] == 'v' && s.last() == 'g' {
        33
    } else {
        -1
    }
}

proof fn lemma_name_index(i: int)
    requires
        0 <= i < command_table().len(),
    ensures
        name_index(command_table()[i].0) == i,
{
    reveal_strlit("archive");
    reveal_strlit("autotag");
    reveal_strlit("blob");
    reveal_strlit("bot");
    reveal_strlit("configure");
    reveal_strlit("config");
    reveal_strlit("ephemeralmessage");
    reveal_strlit("ephemeral");
    reveal_strlit("fflogs");
    reveal_strlit("imagedump");
    reveal_strlit("dump");
    reveal_strlit("mention");
    reveal_strlit("ping");
    reveal_strlit("poll");
    reveal_strlit("pollresults");
    reveal_strlit("queuetag");
    reveal_strlit("race");
    reveal_strlit("randomreaction");
    reveal_strlit("reaction");
    reveal_strlit("referencecount");
    reveal_strlit("reload");
    reveal_strlit("reloadconfig");
    reveal_strlit("report");
    reveal_strlit("search");
    reveal_strlit("tag");
    reveal_strlit("temporaryrole");
    reveal_strlit("temprole");
    reveal_strlit("timeout");
    reveal_strlit("untimeout");
    reveal_strlit("updatetag");
    reveal_strlit("updatetags");
    reveal_strlit("verify");
    reveal_strlit("version");
    reveal_strlit("viewtag");
    if i == 0 {
    } else if i == 1 {
    } else if i == 2 {
    } else if i == 3 {
    } else if i == 4 {
    } else if i == 5 {
    } else if i == 6 {
    } else if i == 7 {
    } else if i == 8 {
    } else if i == 9 {
    } else if i == 10 {
    } else if i == 11 {
    } else if i == 12 {
    } else if i == 13 {
    } else if i == 14 {
    } else if i == 15 {
    } else if i == 16 {
    } else if i == 17 {
    } else if i == 18 {
    } else if i == 19 {
    } else if i == 20 {
    } else if i == 21 {
    } else if i == 22 {
    } else if i == 23 {
    } else if i == 24 {
    } else if i == 25 {
    } else if i == 26 {
    } else if i == 27 {
    } else if i == 28 {
    } else if i == 29 {
    } else if i == 30 {
    } else if i == 31 {
    } else if i == 32 {
    } else if i == 33 {
    }
}

/// Each registered name answers to the command it is registered to.
pub proof fn lemma_each_name_answers()
    ensures
        command_named("archive"@) == Some(CommandKind::Archive),
        command_named("autotag"@) == Some(CommandKind::AutoTag),
        command_named("blob"@) == Some(CommandKind::Blob),
        command_named("bot"@) == Some(CommandKind::Bot),
        command_named("configure"@) == Some(CommandKind::Configure),
        command_named("config"@) == Some(CommandKind::Configure),
        command_named("ephemeralmessage"@) == Some(CommandKind::EphemeralMessage),
        command_named("ephemeral"@) == Some(CommandKind::EphemeralMessage),
        command_named("fflogs"@) == Some(CommandKind::FfLogs),
        command_named("imagedump"@) == Some(CommandKind::ImageDump),
        command_named("dump"@) == Some(CommandKind::ImageDump),
        command_named("mention"@) == Some(CommandKind::Mention),
        command_named("ping"@) == Some(CommandKind::Ping),
        command_named("poll"@) == Some(CommandKind::Poll),
        command_named("pollresults"@) == Some(CommandKind::PollResults),
        command_named("queuetag"@) == Some(CommandKind::QueueTag),
        command_named("race"@) == Some(CommandKind::Race),
        command_named("randomreaction"@) == Some(CommandKind::RandomReaction),
        command_named("reaction"@) == Some(CommandKind::RandomReaction),
        command_named("referencecount"@) == Some(CommandKind::ReferenceCount),
        command_named("reload"@) == Some(CommandKind::ReloadConfig),
        command_named("reloadconfig"@) == Some(CommandKind::ReloadConfig),
        command_named("report"@) == Some(CommandKind::Report),
        command_named("search"@) == Some(CommandKind::Search),
        command_named("tag"@) == Some(CommandKind::Tag),
        command_named("temporaryrole"@) == Some(CommandKind::TemporaryRole),
        command_named("temprole"@) == Some(CommandKind::TemporaryRole),
        command_named("timeout"@) == Some(CommandKind::Timeout),
        command_named("untimeout"@) == Some(CommandKind::Untimeout),
        command_named("updatetag"@) == Some(CommandKind::UpdateTag),
        command_named("updatetags"@) == Some(CommandKind::UpdateTags),
        command_named("verify"@) == Some(CommandKind::Verify),
        command_named("version"@) == Some(CommandKind::Version),
        command_named("viewtag"@) == Some(CommandKind::ViewTag),
{
    lemma_names_distinct();
    assert forall|i: int| 0 <= i < command_table().len() implies command_named(#[trigger] command_table()[i].0) == Some(command_table()[i].1) by {
        let c = choose|c: int| 0 <= c < command_table().len() && (#[trigger] command_table()[c]).0 == command_table()[i].0;
        if c < i {
            assert(command_table()[c].0 != command_table()[i].0);
        } else if c > i {
            assert(command_table()[i].0 != command_table()[c].0);
        }
    }
    assert(command_named(command_table()[0].0) == Some(command_table()[0].1));
    assert(command_named(command_table()[1].0) == Some(command_table()[1].1));
    assert(command_named(command_table()[2].0) == Some(command_table()[2].1));
    assert(command_named(command_table()[3].0) == Some(command_table()[3].1));
    assert(command_named(command_table()[4].0) == Some(command_table()[4].1));
    assert(command_named(command_table()[5].0) == Some(command_table()[5].1));
    assert(command_named(command_table()[6].0) == Some(command_table()[6].1));
    assert(command_named(command_table()[7].0) == Some(command_table()[7].1));
    assert(command_named(command_table()[8].0) == Some(command_table()[8].1));
    assert(command_named(command_table()[9].0) == Some(command_table()[9].1));
    assert(command_named(command_table()[10].0) == Some(command_table()[10].1));
    assert(command_named(command_table()[11].0) == Some(command_table()[11].1));
    assert(command_named(command_table()[12].0) == Some(command_table()[12].1));
    assert(command_named(command_table()[13].0) == Some(command_table()[13].1));
    assert(command_named(command_table()[14].0) == Some(command_table()[14].1));
    assert(command_named(command_table()[15].0) == Some(command_table()[15].1));
    assert(command_named(command_table()[16].0) == Some(command_table()[16].1));
    assert(command_named(command_table()[17].0) == Some(command_table()[17].1));
    assert(command_named(command_table()[18].0) == Some(command_table()[18].1));
    assert(command_named(command_table()[19].0) == Some(command_table()[19].1));
    assert(command_named(command_table()[20].0) == Some(command_table()[20].1));
    assert(command_named(command_table()[21].0) == Some(command_table()[21].1));
    assert(command_named(command_table()[22].0) == Some(command_table()[22].1));
    assert(command_named(command_table()[23].0) == Some(command_table()[23].1));
    assert(command_named(command_table()[24].0) == Some(command_table()[24].1));
    assert(command_named(command_table()[25].0) == Some(command_table()[25].1));
    assert(command_named(command_table()[26].0) == Some(command_table()[26].1));
    assert(command_named(command_table()[27].0) == Some(command_table()[27].1));
    assert(command_named(command_table()[28].0) == Some(command_table()[28].1));
    assert(command_named(command_table()[29].0) == Some(command_table()[29].1));
    assert(command_named(command_table()[30].0) == Some(command_table()[30].1));
    assert(command_named(command_table()[31].0) == Some(command_table()[31].1));
    assert(command_named(command_table()[32].0) == Some(command_table()[32].1));
    assert(command_named(command_table()[33].0) == Some(command_table()[33].1));
}

/// No two commands share a name, and no command is registered twice under one name: each
/// name answers to exactly one command.
pub proof fn lemma_names_distinct()
    ensures
        forall|i: int, j: int|
            0 <= i < j < command_table().len() ==> (#[trigger] command_table()[i]).0 != (#[trigger] command_table()[j]).0,
{
    assert forall|i: int, j: int| 0 <= i < j < command_table().len() implies (#[trigger] command_table()[i]).0 != (#[trigger] command_table()[j]).0 by {
        lemma_name_index(i);
        lemma_name_index(j);
    }
}

} // verus!
