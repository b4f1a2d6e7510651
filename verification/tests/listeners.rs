use lalafell_bot::derive::{find_env_field, impl_bot_command, skips_method, write_handler_line, FieldShape};
use lalafell_bot::listeners::auto_reply::{AutoReply, AutoReplyListener, FilterVerdict, SendLog};

fn reply(id: i32, delay: i32, message: &str) -> AutoReply {
    AutoReply { id, channel_id: 100 + id as u64, message: message.to_string(), delay }
}

#[test]
fn send_log_remembers_the_last_send() {
    let mut log = SendLog::new();
    assert_eq!(log.get((1, 2)), None);
    log.set((1, 2), 50);
    log.set((1, 3), 60);
    log.set((1, 2), 70);
    assert_eq!(log.get((1, 2)), Some(70));
    assert_eq!(log.get((1, 3)), Some(60));
    assert_eq!(log.get((2, 2)), None);
}

#[test]
fn replies_are_sent_with_the_mention_filled_in() {
    let mut l = AutoReplyListener::new();
    let r = reply(1, 60, "Welcome {mention}! Read the rules, {mention}.");
    let out = l.consider_reply(&r, &FilterVerdict::Unfiltered, 7, "<@7>", 1_000, 1_001).unwrap();
    assert_eq!(out.channel_id, 101);
    assert_eq!(out.description, "Welcome <@7>! Read the rules, <@7>.");
    assert_eq!(l.last_sends.get((7, 1)), Some(1_001));
}

#[test]
fn no_reply_again_within_the_delay() {
    let mut l = AutoReplyListener::new();
    let r = reply(1, 60, "hi");
    assert!(l.consider_reply(&r, &FilterVerdict::Matched, 7, "<@7>", 1_000, 1_000).is_some());
    assert!(l.consider_reply(&r, &FilterVerdict::Matched, 7, "<@7>", 1_030, 1_030).is_none());
    assert!(l.consider_reply(&r, &FilterVerdict::Matched, 7, "<@7>", 1_060, 1_060).is_none());
    assert!(l.consider_reply(&r, &FilterVerdict::Matched, 8, "<@8>", 1_060, 1_060).is_some());
    assert!(l.consider_reply(&r, &FilterVerdict::Invalid, 7, "<@7>", 1_061, 1_061).is_some());
    assert_eq!(l.last_sends.get((7, 1)), Some(1_061));
}

#[test]
fn a_default_listener_has_sent_nothing() {
    let mut l = AutoReplyListener::default();
    assert_eq!(l.last_sends.get((1, 1)), None);
    assert!(l.consider_reply(&reply(1, 10, "x"), &FilterVerdict::Unfiltered, 1, "<@1>", 11, 11).is_some());
}

#[test]
fn rejected_replies_are_not_sent_nor_remembered() {
    let mut l = AutoReplyListener::new();
    let r = reply(1, 0, "hi");
    assert!(l.consider_reply(&r, &FilterVerdict::Rejected, 7, "<@7>", 1_000, 1_000).is_none());
    assert_eq!(l.last_sends.get((7, 1)), None);
}

#[test]
fn replies_not_due_are_remembered_at_zero() {
    let mut l = AutoReplyListener::new();
    let r = reply(1, 100, "hi");
    assert!(l.consider_reply(&r, &FilterVerdict::Unfiltered, 7, "<@7>", 50, 50).is_none());
    assert_eq!(l.last_sends.get((7, 1)), Some(0));
    assert!(l.consider_reply(&r, &FilterVerdict::Unfiltered, 7, "<@7>", 101, 101).is_some());
}

#[test]
fn receive_sends_the_due_replies_in_order() {
    let mut l = AutoReplyListener::new();
    let replies = vec![reply(1, 0, "a {mention}"), reply(2, 0, "b"), reply(3, 0, "c")];
    let verdicts = vec![FilterVerdict::Unfiltered, FilterVerdict::Rejected, FilterVerdict::Matched];
    let out = l.receive(&replies, &verdicts, 7, "<@7>");
    let got: Vec<(u64, String)> = out.into_iter().map(|o| (o.channel_id, o.description)).collect();
    assert_eq!(got, vec![(101, "a <@7>".to_string()), (103, "c".to_string())]);
    let long = vec![reply(4, 3_600, "d")];
    assert_eq!(l.receive(&long, &vec![FilterVerdict::Unfiltered], 7, "<@7>").len(), 1);
    assert_eq!(l.receive(&long, &vec![FilterVerdict::Unfiltered], 7, "<@7>").len(), 0);
}

fn field(ident: Option<&str>, ty: Option<&str>) -> FieldShape {
    FieldShape { ident: ident.map(|s| s.to_string()), type_path: ty.map(|s| s.to_string()) }
}

#[test]
fn derive_stores_the_environment_in_its_field() {
    let fields = vec![field(Some("count"), Some("u64")), field(Some("env"), Some("Arc < BotEnv >")), field(Some("other"), Some("Arc < BotEnv >"))];
    assert_eq!(find_env_field(&fields), Some(1));
    assert_eq!(
        impl_bot_command("UpdateTagCommand", &fields),
        "impl crate::commands::BotCommand for UpdateTagCommand {\n  #[cfg_attr(feature = \"cargo-clippy\", allow(redundant_field_names))]\n  fn new(env: Arc<crate::bot::BotEnv>) -> Self {\n    UpdateTagCommand { env: env }\n  }\n}\n"
    );
    assert_eq!(
        impl_bot_command("PingCommand", &vec![field(Some("x"), None)]),
        "impl crate::commands::BotCommand for PingCommand {\n  fn new(_: Arc<crate::bot::BotEnv>) -> Self {\n    PingCommand\n  }\n}\n"
    );
    assert_eq!(find_env_field(&vec![field(None, Some("Arc<BotEnv>"))]), None);
}

#[test]
fn handler_lines() {
    let args = vec![None, Some("Context".to_string()), Some("Vec < GuildId >".to_string())];
    assert_eq!(write_handler_line("cache_ready", &args), "handler!(cache_ready, param1: Context, param2: Vec < GuildId >);");
    assert_eq!(write_handler_line("x", &vec![None]), "handler!(x, );");
    assert!(skips_method(&vec!["# [doc]".to_string(), "# [cfg (not (feature = \"cache\"))]".to_string()]));
    assert!(!skips_method(&vec!["# [ cfg ( feature = \"cache\" ) ]".to_string()]));
}

#[test]
fn handler_lines_of_a_source_file() {
    let src = r#"
        pub struct Unrelated;
        pub trait Other { fn skipped(&self, x: u8); }
        pub trait EventHandler {
            fn cache_ready(&self, _ctx: Context, _guilds: Vec<GuildId>) {}
            #[cfg(not(feature = "cache"))]
            fn channel_update(&self, _ctx: Context, _new_data: Channel) {}
            type Assoc;
            #[cfg(feature = "cache")]
            fn channel_update(&self, _ctx: Context, _old: Option<Channel>, _new: Channel) {}
        }
    "#;
    let lines = lalafell_bot::derive::handler_lines(src).unwrap();
    assert_eq!(lines, vec![
        "handler!(cache_ready, param1: Context, param2: Vec < GuildId >);".to_string(),
        "handler!(channel_update, param1: Context, param2: Option < Channel >, param3: Channel);".to_string(),
    ]);
    assert!(lalafell_bot::derive::handler_lines("fn (").is_none());
}
