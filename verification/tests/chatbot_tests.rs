use digireport::chatbot::{
    general, gitlab_token, handle_message, normalize_background, qa_reply, receive_full_name,
    repositories_reply, start, Action, Message, QaAnswer, State,
};
use digireport::context::{ChatId, Context, UserId};
use digireport::gitlab::Repository;

fn msg(text: Option<&str>) -> Message {
    Message {
        chat_id: ChatId(1),
        user_id: Some(UserId(7)),
        text: text.map(|t| t.to_string()),
    }
}

fn msg_without_user(text: Option<&str>) -> Message {
    Message { chat_id: ChatId(1), user_id: None, text: text.map(|t| t.to_string()) }
}

fn reply_text(act: Action) -> String {
    match act {
        Action::Reply { text } => text,
        other => panic!("expected a reply, got {:?}", other),
    }
}

#[test]
fn start_name_moves_to_token_wait() {
    let mut ctx = Context::new();
    let (st, act) = start(&mut ctx, &msg(Some("Alice")));
    match st {
        State::ReceiveGitlabToken { full_name } => assert_eq!(full_name, "Alice"),
        other => panic!("expected ReceiveGitlabToken, got {:?}", other),
    }
    assert_eq!(reply_text(act), "Give me your gitlab token, Alice?");
}

#[test]
fn start_without_text_asks_for_name() {
    let mut ctx = Context::new();
    let (st, act) = start(&mut ctx, &msg(None));
    assert!(matches!(st, State::ReceiveFullName));
    assert_eq!(reply_text(act), "Let's start! What's your full name?");
}

#[test]
fn start_add_token_stores_credential() {
    let mut ctx = Context::new();
    let (st, act) = start(&mut ctx, &msg(Some("/add_token tok123")));
    assert!(matches!(st, State::Start));
    assert_eq!(reply_text(act), "your token has been saved");
    assert_eq!(ctx.get_gitlab_user(UserId(7)).unwrap().token(), "tok123");
}

#[test]
fn start_add_token_without_user_is_declined() {
    let mut ctx = Context::new();
    let (st, act) = start(&mut ctx, &msg_without_user(Some("/add_token tok123")));
    assert!(matches!(st, State::Start));
    assert_eq!(reply_text(act), "Error: User not found");
}

#[test]
fn start_unknown_command_is_declined() {
    let mut ctx = Context::new();
    let (st, act) = start(&mut ctx, &msg(Some("/frobnicate")));
    assert!(matches!(st, State::Start));
    assert_eq!(reply_text(act), "sorry, i don't understand");
}

#[test]
fn start_repo_with_credential_fetches() {
    let mut ctx = Context::new();
    ctx.register_gitlab_user(UserId(7), "tok".to_string());
    let (st, act) = start(&mut ctx, &msg(Some("/repo")));
    assert!(matches!(st, State::Start));
    match act {
        Action::FetchRepositories { user } => assert_eq!(user.token(), "tok"),
        other => panic!("expected a fetch, got {:?}", other),
    }
}

#[test]
fn start_repo_is_case_insensitive() {
    let mut ctx = Context::new();
    ctx.register_gitlab_user(UserId(7), "tok".to_string());
    let (_, act) = start(&mut ctx, &msg(Some("/REPOSITORY")));
    assert!(matches!(act, Action::FetchRepositories { .. }));
}

#[test]
fn token_text_stores_credential_and_turns_general() {
    let mut ctx = Context::new();
    let (st, act) = gitlab_token(&mut ctx, &"Alice".to_string(), &msg(Some("abc123")));
    assert!(matches!(st, State::General));
    assert_eq!(reply_text(act), "Token saved");
    assert_eq!(ctx.get_gitlab_user(UserId(7)).unwrap().token(), "abc123");
}

#[test]
fn token_wait_reprompts_on_missing_text() {
    let mut ctx = Context::new();
    let (st, act) = gitlab_token(&mut ctx, &"Alice".to_string(), &msg(None));
    match st {
        State::ReceiveGitlabToken { full_name } => assert_eq!(full_name, "Alice"),
        other => panic!("expected ReceiveGitlabToken, got {:?}", other),
    }
    assert_eq!(reply_text(act), "Send me token text.");
}

#[test]
fn token_wait_reprompts_on_empty_text() {
    let mut ctx = Context::new();
    let (st, act) = gitlab_token(&mut ctx, &"Alice".to_string(), &msg(Some("")));
    assert!(matches!(st, State::ReceiveGitlabToken { .. }));
    assert_eq!(reply_text(act), "Send me token text.");
    assert!(ctx.get_gitlab_user(UserId(7)).is_none());
}

#[test]
fn receive_full_name_prompts_for_token() {
    let (st, act) = receive_full_name(&msg(Some("Bob")));
    match st {
        State::ReceiveGitlabToken { full_name } => assert_eq!(full_name, "Bob"),
        other => panic!("expected ReceiveGitlabToken, got {:?}", other),
    }
    assert_eq!(reply_text(act), "Give me your gitlab token, Bob?");
}

#[test]
fn receive_full_name_without_text_reprompts() {
    let (st, act) = receive_full_name(&msg(None));
    assert!(matches!(st, State::ReceiveFullName));
    assert_eq!(reply_text(act), "Send me plain text.");
}

#[test]
fn general_repo_without_credential_declines_gracefully() {
    let ctx = Context::new();
    let (st, act) = general(&ctx, &msg(Some("/repo")), Some("about".to_string()));
    assert!(matches!(st, State::General));
    assert_eq!(reply_text(act), "sorry, cannot fetch repositories");
}

#[test]
fn general_question_goes_to_the_model() {
    let ctx = Context::new();
    let (st, act) = general(&ctx, &msg(Some("who are you?")), Some("about me text".to_string()));
    assert!(matches!(st, State::General));
    match act {
        Action::AskModel { question, background } => {
            assert_eq!(question, "who are you?");
            assert_eq!(background, "about me text");
        },
        other => panic!("expected a model call, got {:?}", other),
    }
}

#[test]
fn general_without_background_apologises() {
    let ctx = Context::new();
    let (st, act) = general(&ctx, &msg(Some("hello")), None);
    assert!(matches!(st, State::General));
    assert_eq!(reply_text(act), "failed to load information");
}

#[test]
fn general_without_text_replies_placeholder() {
    let ctx = Context::new();
    let (_, act) = general(&ctx, &msg(None), Some("about".to_string()));
    assert_eq!(reply_text(act), "kosong");
}

#[test]
fn handle_message_routes_by_state() {
    let mut ctx = Context::new();
    let (st, _) = handle_message(&mut ctx, &State::Start, &msg(Some("Alice")), None);
    let (st2, act2) = handle_message(&mut ctx, &st, &msg(Some("tok")), None);
    assert!(matches!(st2, State::General));
    assert_eq!(reply_text(act2), "Token saved");
    let (st3, act3) =
        handle_message(&mut ctx, &st2, &msg(Some("hi")), Some("background".to_string()));
    assert!(matches!(st3, State::General));
    assert!(matches!(act3, Action::AskModel { .. }));
}

#[test]
fn low_score_answer_is_suppressed() {
    let answers = vec![QaAnswer { answer: "a low-confidence answer".to_string(), score_ppm: 50_000 }];
    assert_eq!(qa_reply(&answers), "sorry, i don't understand");
}

#[test]
fn high_score_answer_is_returned() {
    let answers = vec![QaAnswer { answer: "the answer".to_string(), score_ppm: 70_001 }];
    assert_eq!(qa_reply(&answers), "the answer");
}

#[test]
fn no_answers_fall_back() {
    let answers: Vec<QaAnswer> = Vec::new();
    assert_eq!(qa_reply(&answers), "sorry, i don't understand");
}

#[test]
fn repositories_reply_renders_or_apologises() {
    let repos = vec![Repository {
        id: 3,
        name: "demo".to_string(),
        description: None,
        visibility: "private".to_string(),
    }];
    assert_eq!(
        repositories_reply(Some(repos)),
        "id: 3\nname: demo\ndescription: \nvisibility: private\n\n"
    );
    assert_eq!(repositories_reply(None), "sorry, i don't understand");
}

#[test]
fn normalize_background_replaces_newlines() {
    assert_eq!(normalize_background("a\nb\nc"), "a b c");
    assert_eq!(normalize_background(""), "");
    assert_eq!(normalize_background("\n\n"), "  ");
    assert_eq!(normalize_background("plain"), "plain");
}
