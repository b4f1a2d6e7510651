use lalafell_bot::commands::tag::{
    AutotagUser, CharacterHit, Limbo, RoleChoice, SearchOutcome, Tagger, VerificationCheck,
};
use lalafell_bot::model::{find_role_named, mention_or_id, mention_user, Role};

fn role(id: u64, name: &str) -> Role {
    Role { id, name: name.to_string() }
}

fn user(user_id: u64, server_id: u64, character_id: u64, verified: bool) -> AutotagUser {
    AutotagUser {
        user_id,
        server_id,
        character_id,
        character: "Lala Fell".to_string(),
        server: "Gilgamesh".to_string(),
        verified,
    }
}

fn ids(v: &[Role]) -> Vec<u64> {
    v.iter().map(|r| r.id).collect()
}

#[test]
fn mention_of_a_user() {
    assert_eq!(mention_user(42), "<@42>");
}

#[test]
fn role_lookup_ignores_case_and_takes_the_first() {
    let roles = vec![role(1, "Lalafell"), role(2, "MIQO'TE"), role(3, "miqo'te")];
    assert_eq!(find_role_named(&roles, "miqo'te"), Some(1));
    assert_eq!(find_role_named(&roles, "LALAFELL"), Some(0));
    assert_eq!(find_role_named(&roles, "Roegadyn"), None);
}

#[test]
fn verified_members_cannot_switch_characters() {
    let users = vec![user(1, 9, 100, false), user(2, 9, 200, true)];
    match Tagger::check_verification(&users, 2, 9, 300, false) {
        VerificationCheck::Blocked(m) => assert_eq!(
            m,
            "<@2> is verified as Lala Fell on Gilgamesh, so they cannot switch to another account."
        ),
        _ => panic!("expected a block"),
    }
    assert!(matches!(
        Tagger::check_verification(&users, 2, 9, 300, true),
        VerificationCheck::Allowed { verified: true }
    ));
    assert!(matches!(
        Tagger::check_verification(&users, 2, 9, 200, false),
        VerificationCheck::Allowed { verified: true }
    ));
    assert!(matches!(
        Tagger::check_verification(&users, 1, 9, 300, false),
        VerificationCheck::Allowed { verified: false }
    ));
    assert!(matches!(
        Tagger::check_verification(&users, 2, 8, 300, false),
        VerificationCheck::Allowed { verified: false }
    ));
}

#[test]
fn search_tag_outcomes() {
    let not_found = "Could not find any character by the name Lala Fell on Gilgamesh.";
    match Tagger::search_tag(None, "Gilgamesh", "Lala Fell") {
        Ok(SearchOutcome::Reply(m)) => assert_eq!(m, not_found),
        _ => panic!(),
    }
    let hit = CharacterHit { id: Some(7), name: Some("LALA fell".to_string()) };
    assert!(matches!(Tagger::search_tag(Some(&hit), "Gilgamesh", "Lala Fell"), Ok(SearchOutcome::Tag(7))));
    let other = CharacterHit { id: Some(7), name: Some("Lala Fel".to_string()) };
    match Tagger::search_tag(Some(&other), "Gilgamesh", "Lala Fell") {
        Ok(SearchOutcome::Reply(m)) => assert_eq!(m, not_found),
        _ => panic!(),
    }
    let no_id = CharacterHit { id: None, name: Some("Lala Fell".to_string()) };
    match Tagger::search_tag(Some(&no_id), "Gilgamesh", "Lala Fell") {
        Err(e) => assert_eq!(e, "character ID was not a u64"),
        _ => panic!(),
    }
    let no_name = CharacterHit { id: Some(1), name: None };
    match Tagger::search_tag(Some(&no_name), "Gilgamesh", "Lala Fell") {
        Err(e) => assert_eq!(e, "character name was not a string"),
        _ => panic!(),
    }
}

#[test]
fn roles_are_found_or_created_lowercase() {
    let roles = vec![role(1, "Lalafell"), role(2, "Female")];
    match Tagger::find_or_create_role(&roles, "FEMALE") {
        RoleChoice::Existing(r) => assert_eq!((r.id, r.name.as_str()), (2, "Female")),
        _ => panic!(),
    }
    match Tagger::find_or_create_role(&roles, "Gilgamesh") {
        RoleChoice::Create(n) => assert_eq!(n, "gilgamesh"),
        _ => panic!(),
    }
    assert_eq!(Tagger::role_names("Lalafell", "Female", "Gilgamesh", true), vec!["Lalafell", "Female", "Gilgamesh", "verified"]);
    assert_eq!(Tagger::role_names("Lalafell", "Female", "Gilgamesh", false), vec!["Lalafell", "Female", "Gilgamesh"]);
}

#[test]
fn limbo_forgets_roles_the_server_shows() {
    let mut limbo = Limbo::new();
    limbo.record(&vec![role(10, "gilgamesh"), role(11, "verified"), role(12, "female")]);
    assert_eq!(ids(&limbo.roles), vec![10, 11, 12]);
    limbo.prune(&vec![role(1, "Lalafell"), role(11, "verified"), role(10, "gilgamesh")]);
    assert_eq!(ids(&limbo.roles), vec![12]);
    limbo.prune(&vec![role(12, "female"), role(12, "female")]);
    assert!(limbo.roles.is_empty());
}

#[test]
fn limbo_prune_takes_one_role_per_server_role() {
    let mut limbo = Limbo { roles: vec![role(5, "a"), role(5, "b"), role(6, "c")] };
    limbo.prune(&vec![role(5, "a")]);
    assert_eq!(ids(&limbo.roles), vec![5, 6]);
    assert_eq!(limbo.roles[0].name, "b");
}

fn groups() -> Vec<Vec<String>> {
    vec![
        vec!["Lalafell".to_string(), "Miqo'te".to_string()],
        vec!["Male".to_string(), "Female".to_string()],
        vec!["Gilgamesh".to_string(), "Balmung".to_string()],
    ]
}

#[test]
fn tag_replaces_group_roles_and_keeps_the_rest() {
    let server = vec![
        role(1, "lalafell"),
        role(2, "MIQO'TE"),
        role(3, "female"),
        role(4, "Balmung"),
        role(5, "Moderator"),
        role(6, "Artist"),
    ];
    let add = vec![role(1, "lalafell"), role(3, "female"), role(20, "gilgamesh")];
    let member = vec![2, 4, 5, 99];
    let u = Tagger::tag(&add, &server, &member, &groups(), &Some("Someone".to_string()), "Lala Fell");
    assert_eq!(u.roles, vec![1, 3, 5, 20]);
    assert!(u.change_roles);
    assert!(u.change_nick);
}

#[test]
fn tagging_again_changes_nothing() {
    let server = vec![role(1, "lalafell"), role(3, "female"), role(5, "Moderator"), role(20, "gilgamesh")];
    let add = vec![role(1, "lalafell"), role(3, "female"), role(20, "gilgamesh")];
    let first = Tagger::tag(&add, &server, &vec![5, 7], &groups(), &None, "Lala Fell");
    assert_eq!(first.roles, vec![1, 3, 5, 20]);
    let second = Tagger::tag(&add, &server, &first.roles, &groups(), &Some("Lala Fell".to_string()), "Lala Fell");
    assert_eq!(second.roles, first.roles);
    assert!(!second.change_roles);
    assert!(!second.change_nick);
    let same_set_other_order = vec![20, 5, 3, 1, 1];
    let third = Tagger::tag(&add, &server, &same_set_other_order, &groups(), &None, "");
    assert!(!third.change_roles);
    assert!(!third.change_nick);
}

#[test]
fn users_are_named_by_mention_or_id() {
    assert_eq!(mention_or_id("<@123>"), Some(123));
    assert_eq!(mention_or_id("<@!456>"), Some(456));
    assert_eq!(mention_or_id("789"), Some(789));
    assert_eq!(mention_or_id("<@abc>"), None);
    assert_eq!(mention_or_id("someone"), None);
    assert_eq!(mention_or_id("<@é"), None);
    assert_eq!(mention_or_id("<@12é"), None);
    assert_eq!(mention_or_id("é"), None);
    assert_eq!(mention_or_id(""), None);
    // The last character of a mention is dropped unread, and a `+` may lead the digits.
    assert_eq!(mention_or_id("<@!114941315417899012>"), Some(114941315417899012));
    assert_eq!(mention_or_id("<@1149413154aa17899012"), None);
    assert_eq!(mention_or_id("<@42x"), Some(42));
    assert_eq!(mention_or_id("<@+7>"), Some(7));
    assert_eq!(mention_or_id("<@>"), None);
}

#[test]
fn a_tag_prepares_choices_and_completes_with_created_roles() {
    let mut limbo = Limbo::new();
    limbo.record(&vec![role(30, "gilgamesh"), role(1, "lalafell")]);
    let server = vec![role(1, "Lalafell"), role(5, "Moderator")];
    let prep = Tagger::prepare(&mut limbo, &server, "Lalafell", "Female", "Gilgamesh", true);
    // The server shows role 1 now, so limbo keeps only the role it does not show.
    assert_eq!(ids(&limbo.roles), vec![30]);
    assert_eq!(ids(&prep.roles), vec![1, 5, 30]);
    assert_eq!(prep.choices.len(), 4);
    assert!(matches!(&prep.choices[0], RoleChoice::Existing(r) if r.id == 1));
    assert!(matches!(&prep.choices[1], RoleChoice::Create(n) if n == "female"));
    assert!(matches!(&prep.choices[2], RoleChoice::Create(n) if n == "gilgamesh"));
    assert!(matches!(&prep.choices[3], RoleChoice::Create(n) if n == "verified"));
    let created = vec![role(40, "female"), role(41, "gilgamesh"), role(42, "verified")];
    let u = Tagger::complete(&mut limbo, &prep, &created, &vec![5, 9], &groups(), &None, "Lala Fell");
    assert_eq!(ids(&limbo.roles), vec![30, 40, 41, 42]);
    assert_eq!(u.roles, vec![1, 5, 40, 41, 42]);
    assert!(u.change_roles);
    assert!(u.change_nick);
}

#[test]
fn a_tag_records_the_character() {
    let mut users = vec![user(1, 8, 4, true), user(1, 9, 4, true), user(2, 9, 6, false)];
    Tagger::record_tag(&mut users, 1, 9, 5, "Alice Smith", "Adamantoise");
    assert_eq!(users.len(), 3);
    assert_eq!((users[0].server_id, users[0].character_id), (8, 4));
    assert_eq!((users[1].user_id, users[1].server_id, users[1].character_id), (1, 9, 5));
    assert_eq!((users[1].character.as_str(), users[1].server.as_str()), ("Alice Smith", "Adamantoise"));
    assert!(users[1].verified);
    assert_eq!(users[2].character_id, 6);
    Tagger::record_tag(&mut users, 3, 9, 7, "Bob", "Balmung");
    assert_eq!(users.len(), 4);
    assert_eq!((users[3].user_id, users[3].server_id, users[3].character_id), (3, 9, 7));
    assert_eq!((users[3].character.as_str(), users[3].server.as_str()), ("Bob", "Balmung"));
    assert!(!users[3].verified);
}

#[test]
fn the_tag_example_of_a_lalafell() {
    let mut users: Vec<AutotagUser> = Vec::new();
    assert!(matches!(Tagger::check_verification(&users, 1, 9, 5, false), VerificationCheck::Allowed { verified: false }));
    Tagger::record_tag(&mut users, 1, 9, 5, "Alice Smith", "Adamantoise");
    let mut limbo = Limbo::new();
    let server = vec![role(10, "Lalafell"), role(11, "Female"), role(12, "Adamantoise"), role(20, "Hyur"), role(30, "Mod")];
    let prep = Tagger::prepare(&mut limbo, &server, "Lalafell", "Female", "Adamantoise", false);
    assert!(prep.choices.iter().all(|c| matches!(c, RoleChoice::Existing(_))));
    let groups = vec![
        vec!["Lalafell".to_string(), "Hyur".to_string()],
        vec!["Male".to_string(), "Female".to_string()],
    ];
    let u = Tagger::complete(&mut limbo, &prep, &Vec::new(), &vec![20, 30], &groups, &None, "Alice Smith");
    assert_eq!(u.roles, vec![10, 11, 12, 30]);
    assert!(u.change_roles);
    assert!(u.change_nick);
    assert_eq!(users.len(), 1);
    assert_eq!((users[0].user_id, users[0].server_id, users[0].character_id), (1, 9, 5));
    assert_eq!((users[0].character.as_str(), users[0].server.as_str()), ("Alice Smith", "Adamantoise"));
}

#[test]
fn pruning_keeps_the_roles_the_server_does_not_list() {
    let mut limbo = Limbo::new();
    limbo.record(&vec![role(4, "a"), role(7, "b"), role(9, "c"), role(2, "d")]);
    limbo.prune(&vec![role(9, "c"), role(100, "x"), role(4, "a")]);
    assert_eq!(ids(&limbo.roles), vec![7, 2]);
}
