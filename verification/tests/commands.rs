use std::sync::Arc;

use lalafell_bot::commands::bot::{BotAction, BotCommand, Params as BotParams, Presence, PresenceKind};
use lalafell_bot::commands::config::{delete_all_messages, reaction};
use lalafell_bot::commands::fflogs::{
    CharacterRef, FfLogsCommand, Params as FfParams, ParseSummary, SpecSummary,
};
use lalafell_bot::commands::poll::{author_or_someone, Poll, PollCommand};
use lalafell_bot::commands::queue_tag::{Params as QueueParams, QueueTagCommand};
use lalafell_bot::commands::registry::{aliases, command_for, CommandKind};
use lalafell_bot::commands::search::{MemberMatch, SearchCommand};
use lalafell_bot::commands::timeout::{
    channels_to_deny, set_up_timeouts, timeout_overwrite, ChannelOverwrites, OverwriteKind,
    TimeoutRole, ALL_PERMISSIONS, DENY_PERMISSIONS, ROLE_PERMISSIONS,
};
use lalafell_bot::commands::update_tag::{Params as UpdateParams, UpdateTagCommand};
use lalafell_bot::env::BotEnv;
use lalafell_bot::model::Role;
use lalafell_bot::reply::{CommandFailure, CommandResult, Embed, Reply};

fn env(role: Option<&str>) -> BotEnv {
    BotEnv { timed_out_role: role.map(|r| r.to_string()), role_groups: Vec::new(), fflogs_api_key: "key".to_string() }
}

fn args(v: &[&str]) -> Vec<String> {
    v.iter().map(|s| s.to_string()).collect()
}

fn refused_with(r: &CommandResult) -> Option<String> {
    match r {
        Err(CommandFailure::External(Reply::Text(t))) => Some(t.clone()),
        _ => None,
    }
}

fn refused_embed(r: &CommandResult) -> Option<&Embed> {
    match r {
        Err(CommandFailure::External(Reply::Embed(e))) => Some(e),
        _ => None,
    }
}

fn answered_with(r: &CommandResult) -> Option<String> {
    match r {
        Ok(s) => match &s.message {
            Some(Reply::Text(t)) => Some(t.clone()),
            _ => None,
        },
        _ => None,
    }
}

fn is_plain_success(r: &CommandResult) -> bool {
    matches!(r, Ok(s) if s.message.is_none())
}

fn refusal_of(r: Result<BotAction, CommandResult>) -> String {
    match r {
        Err(c) => refused_with(&c).expect("a refusal"),
        Ok(_) => panic!("expected a refusal"),
    }
}

#[test]
fn bot_requires_an_administrator() {
    let p = BotParams { subcommand: "presence".to_string(), args: Vec::new() };
    match BotCommand.run(false, Ok(p)) {
        Err(c) => {
            let e = refused_embed(&c).expect("an embed");
            assert_eq!(e.title.as_deref(), Some("Not enough permissions."));
            assert_eq!(e.description.as_deref(), Some("You don't have enough permissions to use this command."));
        },
        Ok(_) => panic!(),
    }
    let p = BotParams { subcommand: "nope".to_string(), args: Vec::new() };
    assert_eq!(refusal_of(BotCommand.run(true, Ok(p))), "Invalid subcommand.");
    match BotCommand.run(true, Err(CommandFailure::Internal("help".to_string()))) {
        Err(Err(CommandFailure::Internal(m))) => assert_eq!(m, "help"),
        _ => panic!(),
    }
}

#[test]
fn bot_presence_subcommands() {
    let run = |a: &[&str]| BotCommand.run(true, Ok(BotParams { subcommand: "presences".to_string(), args: args(a) }));
    assert!(matches!(run(&[]), Ok(BotAction::ListPresences)));
    assert!(matches!(run(&["random"]), Ok(BotAction::RandomPresence)));
    assert_eq!(refusal_of(run(&["bogus"])), "Invalid subcommand");
    match run(&["add", "playing", "with", "fire"]) {
        Ok(BotAction::AddPresence(p)) => {
            assert_eq!(p.kind, 0);
            assert_eq!(p.content, "with fire");
        },
        _ => panic!(),
    }
    match run(&["create", "listening", "music"]) {
        Ok(BotAction::AddPresence(p)) => assert_eq!((p.kind, p.content.as_str()), (1, "music")),
        _ => panic!(),
    }
    assert_eq!(refusal_of(run(&["add", "playing"])), "!bot presences add [playing/listening] [content]");
    assert_eq!(refusal_of(run(&["add", "watching", "tv"])), "Invalid presence kind.");
    assert!(matches!(run(&["remove", "12"]), Ok(BotAction::RemovePresence(12))));
    assert!(matches!(run(&["delete", "-3"]), Ok(BotAction::RemovePresence(-3))));
    assert_eq!(refusal_of(run(&["remove"])), "!bot presences remove [id]");
    assert_eq!(refusal_of(run(&["remove", "twelve"])), "Invalid ID.");
    match run(&["set", "listening", "to", "the", "rain"]) {
        Ok(BotAction::ChangePresence(k, n)) => {
            assert_eq!(k, PresenceKind::Listening);
            assert_eq!(n, "to the rain");
        },
        _ => panic!(),
    }
    match run(&["change", "playing"]) {
        Ok(BotAction::ChangePresence(k, n)) => {
            assert_eq!(k, PresenceKind::Playing);
            assert_eq!(n, "");
        },
        _ => panic!(),
    }
    assert_eq!(refusal_of(run(&["change"])), "!bot presence change [playing/listening] [content]");
    assert_eq!(refusal_of(run(&["change", "dancing", "x"])), "Invalid presence type.");
}

#[test]
fn bot_lists_presences() {
    let ps = vec![
        Presence { id: 1, kind: 0, content: "with fire".to_string() },
        Presence { id: 12, kind: 1, content: "the rain".to_string() },
        Presence { id: -4, kind: 7, content: "?".to_string() },
    ];
    let r = BotCommand.list_all_presences(&ps);
    assert_eq!(
        answered_with(&r).unwrap(),
        "1. playing with fire\n12. listening the rain\n-4. <invalid type> ?"
    );
    assert_eq!(answered_with(&BotCommand.list_all_presences(&Vec::new())).unwrap(), "");
}

#[test]
fn listed_ids_can_be_removed() {
    let ps = vec![Presence { id: 2147483647, kind: 0, content: "x".to_string() }];
    let listing = answered_with(&BotCommand.list_all_presences(&ps)).unwrap();
    let id = listing.split('.').next().unwrap().to_string();
    assert!(matches!(BotCommand.remove_presence(&vec![id]), Ok(BotAction::RemovePresence(2147483647))));
}

#[test]
fn presence_kinds_round_trip() {
    for k in [PresenceKind::Playing, PresenceKind::Listening].iter() {
        assert_eq!(PresenceKind::from_i16(k.to_i16()), Some(*k));
    }
    assert_eq!(PresenceKind::from_i16(2), None);
    assert_eq!(PresenceKind::Listening.name(), "listening");
}

#[test]
fn bot_presence_answers() {
    assert!(is_plain_success(&BotCommand.random_presence(true)));
    assert_eq!(refused_with(&BotCommand.random_presence(false)).unwrap(), "No presences.");
    assert!(is_plain_success(&BotCommand.removed(1)));
    assert_eq!(refused_with(&BotCommand.removed(0)).unwrap(), "No presence with that ID were found.");
}

#[test]
fn poll_needs_text_and_two_to_nine_options() {
    let c = PollCommand::new(Arc::new(env(None)));
    let e = refused_embed(&match c.run("!poll\na\nb") { Err(r) => r, Ok(_) => panic!() }).map(|e| (e.title.clone(), e.description.clone())).unwrap();
    assert_eq!(e, (Some("Not enough parameters.".to_string()), Some("!poll <poll text>\n<option>\n<option>...".to_string())));
    assert!(matches!(c.run("!poll Lunch?\nyes"), Err(_)));
    let ten = "!poll Pick\n1\n2\n3\n4\n5\n6\n7\n8\n9\n10";
    match c.run(ten) {
        Err(r) => assert_eq!(refused_with(&r).unwrap(), "No more than nine poll options can be specified."),
        Ok(_) => panic!(),
    }
    match c.run("!poll  Where   to eat?\nPizza\nSushi") {
        Ok(p) => {
            assert_eq!(p.text, "Where to eat?");
            assert_eq!(p.options, args(&["Pizza", "Sushi"]));
        },
        Err(_) => panic!(),
    }
    match c.run("!poll a\n\n") {
        Ok(p) => assert_eq!(p.options, args(&["", ""])),
        Err(_) => panic!(),
    }
}

#[test]
fn poll_embed_and_reactions() {
    assert_eq!(author_or_someone(None), "someone");
    assert_eq!(author_or_someone(Some("Lala".to_string())), "Lala");
    let p = Poll::new("Lala".to_string(), "Where to eat?", &args(&["Pizza", "Sushi", "Ramen"]));
    let e = p.create_embed();
    assert_eq!(e.title.as_deref(), Some("Poll by Lala"));
    assert_eq!(e.description.as_deref(), Some("Where to eat?\n1\u{20e3} \u{2013} Pizza\n2\u{20e3} \u{2013} Sushi\n3\u{20e3} \u{2013} Ramen"));
    assert_eq!(e.footer.as_deref(), Some("Loading poll ID..."));
    assert!(e.fields.is_empty() && e.url.is_none());
    assert_eq!(p.reactions(), args(&["1\u{20e3}", "2\u{20e3}", "3\u{20e3}"]));
    assert_eq!(Poll::reaction(9), "10\u{20e3}");
}

#[test]
fn search_lists_matching_members() {
    let c = SearchCommand::new(Arc::new(env(None)));
    let ms = vec![
        MemberMatch { user_id: 1, joined_at: Some((0, 0)) },
        MemberMatch { user_id: 22, joined_at: None },
        MemberMatch { user_id: 3, joined_at: Some((1_500_000_000, 0)) },
    ];
    assert_eq!(
        answered_with(&c.run(true, true, &ms)).unwrap(),
        "<@1> - January  1, 1970 00:00\n<@22> - unknown\n<@3> - July 14, 2017 02:40"
    );
    assert_eq!(refused_with(&c.run(true, false, &ms)).unwrap(), "Invalid filter.");
    let refused = c.run(false, true, &ms);
    let e = refused_embed(&refused).unwrap();
    assert_eq!(e.title.as_deref(), Some("Not enough permissions."));
    assert_eq!(SearchCommand::line(&MemberMatch { user_id: 5, joined_at: Some((i64::MAX, 0)) }), "<@5> - unknown");
    // A join time is written at the offset Discord gave it in.
    assert_eq!(SearchCommand::line(&MemberMatch { user_id: 5, joined_at: Some((0, 2 * 3600)) }), "<@5> - January  1, 1970 02:00");
    assert_eq!(SearchCommand::line(&MemberMatch { user_id: 5, joined_at: Some((1_500_000_000, -5 * 3600)) }), "<@5> - July 13, 2017 21:40");
    assert_eq!(SearchCommand::line(&MemberMatch { user_id: 5, joined_at: Some((0, 86_400)) }), "<@5> - unknown");
}

fn spec(name: &str, line: Option<&str>, character: Option<(&str, u64)>) -> SpecSummary {
    SpecSummary {
        spec: name.to_string(),
        first_character: character.map(|(n, id)| CharacterRef { name: n.to_string(), id }),
        best_line: line.map(|l| l.to_string()),
    }
}

#[test]
fn fflogs_checks_the_first_parse() {
    match FfLogsCommand::check_parses(&Vec::new()) {
        Err(r) => assert_eq!(answered_with(&r).unwrap(), "No parses found."),
        Ok(_) => panic!(),
    }
    let no_spec = vec![ParseSummary { name: "Titan".to_string(), specs: Vec::new() }];
    match FfLogsCommand::check_parses(&no_spec) {
        Err(r) => assert_eq!(refused_with(&r).unwrap(), "Somehow there was no first spec."),
        Ok(_) => panic!(),
    }
    let no_data = vec![ParseSummary { name: "Titan".to_string(), specs: vec![spec("Bard", None, None)] }];
    match FfLogsCommand::check_parses(&no_data) {
        Err(r) => assert_eq!(refused_with(&r).unwrap(), "Somehow there was no first data."),
        Ok(_) => panic!(),
    }
    let ok = vec![ParseSummary { name: "Titan".to_string(), specs: vec![spec("Bard", Some("l"), Some(("Lala Fell", 77)))] }];
    let no_data_later = vec![
        ParseSummary { name: "Titan".to_string(), specs: vec![spec("Bard", None, Some(("Lala Fell", 77)))] },
        ParseSummary { name: "Ifrit".to_string(), specs: Vec::new() },
    ];
    assert!(FfLogsCommand::check_parses(&no_data_later).is_ok());
    match FfLogsCommand::check_parses(&ok) {
        Ok(f) => {
            assert_eq!(f.spec, "Bard");
            assert_eq!((f.character.name.as_str(), f.character.id), ("Lala Fell", 77));
        },
        Err(_) => panic!(),
    }
}

#[test]
fn fflogs_shows_the_parses_of_the_job() {
    let parses = vec![
        ParseSummary { name: "Titan".to_string(), specs: vec![spec("RedMage", Some("titan line"), Some(("Lala Fell", 77))), spec("Bard", Some("bard line"), None)] },
        ParseSummary { name: "Garuda".to_string(), specs: vec![spec("Bard", Some("garuda bard"), None)] },
        ParseSummary { name: "Ifrit".to_string(), specs: vec![spec("redmage", None, None), spec("RedMage", Some("second"), None)] },
        ParseSummary { name: "Shiva".to_string(), specs: vec![spec("REDMAGE", Some("shiva line"), None)] },
    ];
    let first = FfLogsCommand::check_parses(&parses).ok().unwrap();
    let r = FfLogsCommand::run("Red Mage", "Gilgamesh", &first, &parses);
    let e = match &r {
        Ok(s) => match &s.message {
            Some(Reply::Embed(e)) => e,
            _ => panic!(),
        },
        _ => panic!(),
    };
    assert_eq!(e.title.as_deref(), Some("Lala Fell"));
    assert_eq!(e.url.as_deref(), Some("https://www.fflogs.com/character/id/77"));
    let fields: Vec<(String, String, bool)> = e.fields.iter().map(|f| (f.name.clone(), f.value.clone(), f.inline)).collect();
    assert_eq!(fields, vec![
        ("Job".to_string(), "Red Mage".to_string(), true),
        ("Server".to_string(), "Gilgamesh".to_string(), true),
        ("Titan".to_string(), "titan line".to_string(), false),
        ("Shiva".to_string(), "shiva line".to_string(), false),
    ]);
    let r = FfLogsCommand::run("Black Mage", "Gilgamesh", &first, &parses);
    assert_eq!(answered_with(&r).unwrap(), "No parses for that job.");
}

#[test]
fn fflogs_params_name_the_character() {
    let p = FfParams { server: "Gilgamesh".to_string(), first_name: "Lala".to_string(), last_name: "Fell".to_string(), job: None };
    assert_eq!(p.character_name(), "Lala Fell");
    assert_eq!(FfLogsCommand::new(Arc::new(env(None))).api_key, "key");
}

#[test]
fn timeout_permissions() {
    assert_eq!(ROLE_PERMISSIONS, (1 << 10) | (1 << 16) | (1 << 20));
    assert_eq!(DENY_PERMISSIONS, 0x7fe6_f87f);
    assert_eq!(DENY_PERMISSIONS & ROLE_PERMISSIONS, 0);
    assert_eq!(DENY_PERMISSIONS | ROLE_PERMISSIONS, ALL_PERMISSIONS);
    let o = timeout_overwrite(5);
    assert_eq!(o.kind, OverwriteKind::Role(5));
    assert_eq!((o.allow, o.deny), (0, DENY_PERMISSIONS));
}

#[test]
fn timeout_role_is_found_or_created() {
    let roles = vec![Role { id: 1, name: "Mods".to_string() }, Role { id: 2, name: "timed OUT".to_string() }];
    assert!(matches!(set_up_timeouts(&env(Some("Timed Out")), &roles), Ok(TimeoutRole::Existing(2))));
    match set_up_timeouts(&env(Some("Muted")), &roles) {
        Ok(TimeoutRole::Create(n)) => assert_eq!(n, "Muted"),
        _ => panic!(),
    }
    match set_up_timeouts(&env(None), &roles) {
        Err(e) => assert_eq!(e, "no timed-out role name"),
        _ => panic!(),
    }
}

#[test]
fn timeout_overwrites_go_where_missing() {
    let chans = vec![
        ChannelOverwrites { id: 10, overwrites: vec![OverwriteKind::Role(5)] },
        ChannelOverwrites { id: 11, overwrites: vec![OverwriteKind::Member(5), OverwriteKind::Role(6)] },
        ChannelOverwrites { id: 12, overwrites: Vec::new() },
    ];
    assert_eq!(channels_to_deny(&chans, 5), vec![11, 12]);
    assert_eq!(channels_to_deny(&chans, 6), vec![10, 12]);
}

#[test]
fn a_second_timeout_set_up_changes_nothing() {
    let mut chans = vec![
        ChannelOverwrites { id: 10, overwrites: vec![OverwriteKind::Role(5)] },
        ChannelOverwrites { id: 11, overwrites: vec![OverwriteKind::Member(7)] },
        ChannelOverwrites { id: 12, overwrites: Vec::new() },
    ];
    let mut roles = vec![Role { id: 1, name: "Mods".to_string() }];
    // The first set-up creates the role and denies it on the channels that lack it.
    assert!(matches!(set_up_timeouts(&env(Some("Timed Out")), &roles), Ok(TimeoutRole::Create(_))));
    roles.push(Role { id: 5, name: "Timed Out".to_string() });
    let first = channels_to_deny(&chans, 5);
    assert_eq!(first, vec![11, 12]);
    for c in chans.iter_mut() {
        if first.contains(&c.id) {
            c.overwrites.push(timeout_overwrite(5).kind);
        }
    }
    // The second finds the role and has no channel left to deny.
    assert!(matches!(set_up_timeouts(&env(Some("Timed Out")), &roles), Ok(TimeoutRole::Existing(5))));
    assert_eq!(channels_to_deny(&chans, 5), Vec::<u64>::new());
}

#[test]
fn queue_tag() {
    let p = QueueParams { who: 3, server: "Gilgamesh".to_string(), name: ["Lala".to_string(), "Fell".to_string()] };
    match QueueTagCommand::new(Arc::new(env(None))).run(true, 9, &p) {
        Ok(q) => {
            assert_eq!((q.user_id, q.server_id), (3, 9));
            assert_eq!((q.server.as_str(), q.character.as_str()), ("Gilgamesh", "Lala Fell"));
        },
        Err(_) => panic!(),
    }
    match QueueTagCommand::new(Arc::new(env(None))).run(false, 9, &p) {
        Err(r) => assert!(refused_embed(&r).is_some()),
        Ok(_) => panic!(),
    }
}

#[test]
fn update_tag() {
    let c = UpdateTagCommand::new(Arc::new(env(None)));
    assert!(matches!(c.target(1, &UpdateParams { who: None }, false), Ok(1)));
    assert!(matches!(c.target(1, &UpdateParams { who: Some(2) }, true), Ok(2)));
    match c.target(1, &UpdateParams { who: Some(2) }, false) {
        Err(r) => assert_eq!(refused_embed(&r).unwrap().description.as_deref(), Some("You don't have enough permissions to update other people's tags.")),
        Ok(_) => panic!(),
    }
    assert_eq!(refused_with(&c.missing_tag(1, 1)).unwrap(), "You are not set up with a tag. Use `!autotag` to tag yourself.");
    assert_eq!(refused_with(&c.missing_tag(2, 1)).unwrap(), "<@2> is not set up with a tag.");
    assert_eq!(refused_with(&c.finish(Ok(Some("nope".to_string())))).unwrap(), "nope");
    assert!(matches!(c.finish(Err("db".to_string())), Err(CommandFailure::Internal(m)) if m == "db"));
    assert!(is_plain_success(&c.finish(Ok(None))));
}

#[test]
fn config_removals() {
    let c = delete_all_messages::RemoveCommand;
    let d = c.request(9, &delete_all_messages::Params { id: 4 });
    assert_eq!((d.id, d.server_id), (4, 9));
    assert!(is_plain_success(&c.run(1)));
    assert_eq!(refused_with(&c.run(0)).unwrap(), "No delete all messages were deleted.");
    let c = reaction::RemoveCommand;
    let d = c.request(8, &reaction::Params { id: 2 });
    assert_eq!((d.id, d.server_id), (2, 8));
    assert!(is_plain_success(&c.run(3)));
    assert_eq!(refused_with(&c.run(0)).unwrap(), "No reactions were deleted.");
}

#[test]
fn command_names() {
    assert_eq!(command_for("config"), Some(CommandKind::Configure));
    assert_eq!(command_for("configure"), Some(CommandKind::Configure));
    assert_eq!(command_for("temprole"), Some(CommandKind::TemporaryRole));
    assert_eq!(command_for("updatetags"), Some(CommandKind::UpdateTags));
    assert_eq!(command_for("Poll"), None);
    assert_eq!(command_for(""), None);
    let all = aliases();
    assert_eq!(all.len(), 34);
    let mut names: Vec<&String> = all.iter().map(|(n, _)| n).collect();
    names.sort();
    names.dedup();
    assert_eq!(names.len(), 34);
    for (n, k) in all.iter() {
        assert_eq!(command_for(n), Some(*k));
    }
}

#[test]
fn fflogs_error_answers() {
    assert_eq!(refused_with(&FfLogsCommand::invalid_server()).unwrap(), "Invalid server.");
    assert_eq!(refused_with(&FfLogsCommand::api_error(400, "bad name")).unwrap(), "FF Logs didn't like that (400): bad name");
}
