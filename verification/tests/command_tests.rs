use digireport::chatbot::Action;
use digireport::command::{answer, descriptions, parse_command, Command};
use digireport::context::{Context, Me};
use digireport::controller::index_body;
use digireport::gitlab::GitlabUser;
use digireport::text::{eq_folded, parse_u8};

#[test]
fn parse_known_commands() {
    assert_eq!(parse_command("/help"), Some(Command::Help));
    assert_eq!(parse_command("/start"), Some(Command::Start));
    assert_eq!(parse_command("/repositories"), Some(Command::Repositories));
    assert_eq!(
        parse_command("/username alice"),
        Some(Command::Username("alice".to_string()))
    );
    assert_eq!(
        parse_command("/inittoken tok-9"),
        Some(Command::InitToken("tok-9".to_string()))
    );
    assert_eq!(
        parse_command("/usernameandage bob 23"),
        Some(Command::UsernameAndAge { username: "bob".to_string(), age: 23 })
    );
}

#[test]
fn parse_is_case_insensitive_on_the_name() {
    assert_eq!(parse_command("/HELP"), Some(Command::Help));
    assert_eq!(
        parse_command("/UserNameAndAge ann 200"),
        Some(Command::UsernameAndAge { username: "ann".to_string(), age: 200 })
    );
}

#[test]
fn parse_rejects_what_it_should() {
    assert_eq!(parse_command("no prefix"), None);
    assert_eq!(parse_command(""), None);
    assert_eq!(parse_command("/unknown"), None);
    // missing, non-numeric and too-large ages
    assert_eq!(parse_command("/usernameandage bob"), None);
    assert_eq!(parse_command("/usernameandage bob x"), None);
    assert_eq!(parse_command("/usernameandage bob 256"), None);
    assert_eq!(parse_command("/usernameandage bob "), None);
}

#[test]
fn parse_u8_edges() {
    assert_eq!(parse_u8("0"), Some(0));
    assert_eq!(parse_u8("255"), Some(255));
    assert_eq!(parse_u8("007"), Some(7));
    assert_eq!(parse_u8("256"), None);
    assert_eq!(parse_u8(""), None);
    assert_eq!(parse_u8("12a"), None);
}

#[test]
fn eq_folded_compares_ascii_case_insensitively() {
    assert!(eq_folded("RePo", "repo"));
    assert!(eq_folded("", ""));
    assert!(!eq_folded("repo", "repos"));
    assert!(!eq_folded("repa", "repo"));
}

fn reply_text(act: Action) -> String {
    match act {
        Action::Reply { text } => text,
        other => panic!("expected a reply, got {:?}", other),
    }
}

#[test]
fn answer_replies_per_command() {
    let mut user = GitlabUser::new("tok".to_string());
    assert_eq!(reply_text(answer(Command::Help, &mut user)), descriptions());
    assert_eq!(
        reply_text(answer(Command::Username("ann".to_string()), &mut user)),
        "Your username is @ann."
    );
    assert_eq!(
        reply_text(answer(
            Command::UsernameAndAge { username: "bob".to_string(), age: 23 },
            &mut user
        )),
        "Your username is @bob and age is 23."
    );
    assert_eq!(reply_text(answer(Command::Start, &mut user)), "text");
}

#[test]
fn answer_init_token_replaces_the_token() {
    let mut user = GitlabUser::new("old".to_string());
    let act = answer(Command::InitToken("new".to_string()), &mut user);
    assert_eq!(reply_text(act), "token set");
    assert_eq!(user.token(), "new");
}

#[test]
fn answer_repositories_asks_for_a_fetch() {
    let mut user = GitlabUser::new("tok".to_string());
    match answer(Command::Repositories, &mut user) {
        Action::FetchRepositories { user: u } => assert_eq!(u.token(), "tok"),
        other => panic!("expected a fetch, got {:?}", other),
    }
}

#[test]
fn health_body_names_the_bot() {
    let mut ctx = Context::new();
    assert_eq!(index_body(&ctx), "Hello world! \"\"");
    ctx.set_bot(Me {
        id: 9,
        is_bot: true,
        first_name: "digi".to_string(),
        username: Some("digibot".to_string()),
        can_join_groups: false,
        can_read_all_group_messages: false,
        supports_inline_queries: false,
    });
    assert_eq!(index_body(&ctx), "Hello world! \"digibot\"");
}
