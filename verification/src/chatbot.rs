//! The session controller: a per-chat state machine that turns one
//! inbound message into the next session state and one action — a reply
//! to send, or an external call to perform first (fetching the caller's
//! repositories, or asking the question-answering capability). The
//! surrounding program performs the action and feeds any outcome back
//! through [`repositories_reply`] and [`qa_reply`].

use vstd::prelude::*;
use crate::context::{ChatId, Context, UserId, register_credential_post, same_registry};
use crate::gitlab::{GitlabUser, Repository, spec_repo_list, render_repositories};
use crate::text::{cmd_is, command_arg, eq_folded, is_command, split_command, text_is_command};

verus! {

/// One inbound message: the chat it came from, the sending user if the
/// platform names one, and its text if it has any.
pub struct Message {
    pub chat_id: ChatId,
    pub user_id: Option<UserId>,
    pub text: Option<String>,
}

/// The view of a message's text.
pub open spec fn msg_text(m: Message) -> Option<Seq<char>> {
    match m.text {
        Some(t) => Some(t@),
        None => None,
    }
}

/// Session state of one chat; a fresh chat starts in `Start`.
#[derive(Clone, Debug, Default)]
pub enum State {
    #[default]
    Start,
    ReceiveFullName,
    ReceiveGitlabToken { full_name: String },
    General,
}

/// What the caller must do after one step: send the reply text, or first
/// perform the named external call and render its outcome.
#[derive(Debug)]
pub enum Action {
    Reply { text: String },
    FetchRepositories { user: GitlabUser },
    AskModel { question: String, background: String },
}

/// The action is a reply with exactly this text.
pub open spec fn action_reply(act: Action, text: Seq<char>) -> bool {
    act matches Action::Reply { text: t } && t@ == text
}

/// The state waits for a token on behalf of `name`.
pub open spec fn state_is_token_wait(st: State, name: Seq<char>) -> bool {
    st matches State::ReceiveGitlabToken { full_name } && full_name@ == name
}

/// What one step in `Start` does, for every message. A command is
/// dispatched by its case-folded name: `repo`/`repository` asks for the
/// caller's repositories when a credential is on file and declines
/// gracefully when none is; `add_token` stores its argument as the
/// credential; anything else is declined. Text without the prefix is
/// taken as the full name and the session turns to wait for a token.
pub open spec fn start_post(
    pre: Context,
    post: Context,
    m: Message,
    st: State,
    act: Action,
) -> bool {
    match msg_text(m) {
        None => {
            &&& post == pre
            &&& st is ReceiveFullName
            &&& action_reply(act, "Let's start! What's your full name?"@)
        },
        Some(t) => {
            if !is_command(t) {
                &&& post == pre
                &&& state_is_token_wait(st, t)
                &&& action_reply(act, "Give me your gitlab token, "@ + t + "?"@)
            } else if cmd_is(t, "repo"@) || cmd_is(t, "repository"@) {
                &&& post == pre
                &&& st is Start
                &&& fetch_or_decline(pre, m, act)
            } else if cmd_is(t, "add_token"@) {
                &&& st is Start
                &&& match m.user_id {
                    Some(u) => register_credential_post(pre, post, u, command_arg(t))
                        && same_registry(pre, post) && post.spec_bot() == pre.spec_bot()
                        && action_reply(act, "your token has been saved"@),
                    None => post == pre && action_reply(act, "Error: User not found"@),
                }
            } else {
                &&& post == pre
                &&& st is Start
                &&& action_reply(act, "sorry, i don't understand"@)
            }
        },
    }
}

/// A repository listing is requested with the stored credential, or
/// declined gracefully when the sender is unknown or has none on file.
pub open spec fn fetch_or_decline(pre: Context, m: Message, act: Action) -> bool {
    match m.user_id {
        Some(u) => match pre.credential(u) {
            Some(g) => act matches Action::FetchRepositories { user } && user@ == g,
            None => action_reply(act, "sorry, cannot fetch repositories"@),
        },
        None => action_reply(act, "sorry, cannot fetch repositories"@),
    }
}

/// One step of the session in `Start`.
pub fn start(ctx: &mut Context, msg: &Message) -> (r: (State, Action))
    requires
        old(ctx).wf(),
    ensures
        final(ctx).wf(),
        start_post(*old(ctx), *final(ctx), *msg, r.0, r.1),
{
    match &msg.text {
        Some(text) => {
            if text_is_command(text.as_str()) {
                let (name, arg) = split_command(text.as_str());
                if eq_folded(name, "repo") || eq_folded(name, "repository") {
                    (State::Start, fetch_repositories_action(ctx, msg))
                } else if eq_folded(name, "add_token") {
                    match &msg.user_id {
                        Some(u) => {
                            ctx.register_gitlab_user(*u, String::from_str(arg));
                            (
                                State::Start,
                                Action::Reply {
                                    text: String::from_str("your token has been saved"),
                                },
                            )
                        },
                        None => (
                            State::Start,
                            Action::Reply { text: String::from_str("Error: User not found") },
                        ),
                    }
                } else {
                    (
                        State::Start,
                        Action::Reply { text: String::from_str("sorry, i don't understand") },
                    )
                }
            } else {
                let mut reply = String::from_str("Give me your gitlab token, ");
                reply.append(text.as_str());
                reply.append("?");
                (
                    State::ReceiveGitlabToken { full_name: text.clone() },
                    Action::Reply { text: reply },
                )
            }
        },
        None => (
            State::ReceiveFullName,
            Action::Reply { text: String::from_str("Let's start! What's your full name?") },
        ),
    }
}

/// The fetch action for the sender's stored credential, or the graceful
/// decline.
fn fetch_repositories_action(ctx: &Context, msg: &Message) -> (r: Action)
    requires
        ctx.wf(),
    ensures
        fetch_or_decline(*ctx, *msg, r),
{
    match &msg.user_id {
        Some(u) => match ctx.get_gitlab_user(*u) {
            Some(g) => {
                let user = g.clone();
                Action::FetchRepositories { user }
            },
            None => Action::Reply { text: String::from_str("sorry, cannot fetch repositories") },
        },
        None => Action::Reply { text: String::from_str("sorry, cannot fetch repositories") },
    }
}

/// What one step waiting for a token does: non-empty text is stored as
/// the sender's credential and the session turns general; empty or
/// missing text re-prompts in place; a message without a sender is
/// declined in place.
pub open spec fn gitlab_token_post(
    pre: Context,
    post: Context,
    name: Seq<char>,
    m: Message,
    st: State,
    act: Action,
) -> bool {
    match msg_text(m) {
        Some(t) => {
            if t.len() > 0 {
                match m.user_id {
                    Some(u) => register_credential_post(pre, post, u, t) && same_registry(
                        pre,
                        post,
                    ) && post.spec_bot() == pre.spec_bot() && st is General && action_reply(
                        act,
                        "Token saved"@,
                    ),
                    None => post == pre && state_is_token_wait(st, name) && action_reply(
                        act,
                        "Error: User not found"@,
                    ),
                }
            } else {
                post == pre && state_is_token_wait(st, name) && action_reply(
                    act,
                    "Send me token text."@,
                )
            }
        },
        None => post == pre && state_is_token_wait(st, name) && action_reply(
            act,
            "Send me token text."@,
        ),
    }
}

/// One step of the session while waiting for a token on behalf of
/// `full_name`.
pub fn gitlab_token(ctx: &mut Context, full_name: &String, msg: &Message) -> (r: (State, Action))
    requires
        old(ctx).wf(),
    ensures
        final(ctx).wf(),
        gitlab_token_post(*old(ctx), *final(ctx), full_name@, *msg, r.0, r.1),
{
    match &msg.text {
        Some(text) => {
            if text.as_str().is_empty() {
                (
                    State::ReceiveGitlabToken { full_name: full_name.clone() },
                    Action::Reply { text: String::from_str("Send me token text.") },
                )
            } else {
                match &msg.user_id {
                    Some(u) => {
                        ctx.register_gitlab_user(*u, text.clone());
                        (State::General, Action::Reply { text: String::from_str("Token saved") })
                    },
                    None => (
                        State::ReceiveGitlabToken { full_name: full_name.clone() },
                        Action::Reply { text: String::from_str("Error: User not found") },
                    ),
                }
            }
        },
        None => (
            State::ReceiveGitlabToken { full_name: full_name.clone() },
            Action::Reply { text: String::from_str("Send me token text.") },
        ),
    }
}

/// What one step waiting for the full name does: text is taken as the
/// name and prompts for a token; a message without text re-prompts in
/// place.
pub open spec fn receive_full_name_post(m: Message, st: State, act: Action) -> bool {
    match msg_text(m) {
        Some(t) => state_is_token_wait(st, t) && action_reply(
            act,
            "Give me your gitlab token, "@ + t + "?"@,
        ),
        None => st is ReceiveFullName && action_reply(act, "Send me plain text."@),
    }
}

/// One step of the session while waiting for the full name.
pub fn receive_full_name(msg: &Message) -> (r: (State, Action))
    ensures
        receive_full_name_post(*msg, r.0, r.1),
{
    match &msg.text {
        Some(text) => {
            let mut reply = String::from_str("Give me your gitlab token, ");
            reply.append(text.as_str());
            reply.append("?");
            (State::ReceiveGitlabToken { full_name: text.clone() }, Action::Reply { text: reply })
        },
        None => (
            State::ReceiveFullName,
            Action::Reply { text: String::from_str("Send me plain text.") },
        ),
    }
}

/// What one step in `General` does: without text a placeholder reply;
/// without the background text an apology; a `repo`/`repository` command
/// fetches or declines as in `Start`; any other command is declined; free
/// text is put to the question-answering capability together with the
/// background text. The session always stays general.
pub open spec fn general_post(
    pre: Context,
    m: Message,
    bg: Option<String>,
    st: State,
    act: Action,
) -> bool {
    &&& st is General
    &&& match msg_text(m) {
        None => action_reply(act, "kosong"@),
        Some(t) => match bg {
            None => action_reply(act, "failed to load information"@),
            Some(b) => {
                if is_command(t) {
                    if cmd_is(t, "repo"@) || cmd_is(t, "repository"@) {
                        fetch_or_decline(pre, m, act)
                    } else {
                        action_reply(act, "sorry, i don't understand"@)
                    }
                } else {
                    act matches Action::AskModel { question, background } && question@ == t
                        && background@ == b@
                }
            },
        },
    }
}

/// One step of the session in `General`. `background` is the context
/// text for free questions, or `None` when it could not be loaded.
pub fn general(ctx: &Context, msg: &Message, background: Option<String>) -> (r: (State, Action))
    requires
        ctx.wf(),
    ensures
        general_post(*ctx, *msg, background, r.0, r.1),
{
    match &msg.text {
        Some(text) => {
            match background {
                Some(b) => {
                    if text_is_command(text.as_str()) {
                        let (name, _arg) = split_command(text.as_str());
                        if eq_folded(name, "repo") || eq_folded(name, "repository") {
                            (State::General, fetch_repositories_action(ctx, msg))
                        } else {
                            (
                                State::General,
                                Action::Reply {
                                    text: String::from_str("sorry, i don't understand"),
                                },
                            )
                        }
                    } else {
                        (
                            State::General,
                            Action::AskModel { question: text.clone(), background: b },
                        )
                    }
                },
                None => (
                    State::General,
                    Action::Reply { text: String::from_str("failed to load information") },
                ),
            }
        },
        None => (State::General, Action::Reply { text: String::from_str("kosong") }),
    }
}

/// What one step does from any state: dispatch on the current state.
pub open spec fn handle_post(
    pre: Context,
    post: Context,
    st0: State,
    m: Message,
    bg: Option<String>,
    st: State,
    act: Action,
) -> bool {
    match st0 {
        State::Start => start_post(pre, post, m, st, act),
        State::ReceiveFullName => post == pre && receive_full_name_post(m, st, act),
        State::ReceiveGitlabToken { full_name } => gitlab_token_post(
            pre,
            post,
            full_name@,
            m,
            st,
            act,
        ),
        State::General => post == pre && general_post(pre, m, bg, st, act),
    }
}

/// Routes one inbound message by the current session state.
pub fn handle_message(
    ctx: &mut Context,
    state: &State,
    msg: &Message,
    background: Option<String>,
) -> (r: (State, Action))
    requires
        old(ctx).wf(),
    ensures
        final(ctx).wf(),
        handle_post(*old(ctx), *final(ctx), *state, *msg, background, r.0, r.1),
{
    match state {
        State::Start => start(ctx, msg),
        State::ReceiveFullName => receive_full_name(msg),
        State::ReceiveGitlabToken { full_name } => gitlab_token(ctx, full_name, msg),
        State::General => general(ctx, msg, background),
    }
}

/// The background text with every newline replaced by a space, the shape
/// in which the question-answering call receives it.
pub open spec fn spec_normalize(s: Seq<char>) -> Seq<char> {
    s.map_values(
        |c: char|
            if c == '\n' {
                ' '
            } else {
                c
            },
    )
}

/// Replaces newlines with spaces in the loaded background text.
pub fn normalize_background(s: &str) -> (r: String)
    ensures
        r@ == spec_normalize(s@),
{
    let n = s.unicode_len();
    let mut r = String::new();
    let mut start: usize = 0;
    let mut i: usize = 0;
    while i < n
        invariant
            0 <= start <= i <= n,
            n as nat == s@.len(),
            r@ == spec_normalize(s@.subrange(0, start as int)),
            forall|j: int| start <= j < i ==> s@[j] != '\n',
        decreases n - i,
    {
        if s.get_char(i) == '\n' {
            let part = s.substring_char(start, i);
            r.append(part);
            r.append(" ");
            proof {
                reveal_strlit(" ");
                assert(" "@ =~= seq![' ']);
                assert(r@ =~= spec_normalize(s@.subrange(0, i as int + 1)));
            }
            start = i + 1;
        }
        i += 1;
    }
    let part = s.substring_char(start, n);
    r.append(part);
    proof {
        assert(r@ =~= spec_normalize(s@));
    }
    r
}

/// One candidate answer from the question-answering capability; the
/// confidence score is held in parts per million of certainty.
#[derive(Debug)]
pub struct QaAnswer {
    pub answer: String,
    pub score_ppm: u64,
}

/// Confidence threshold in parts per million: answers scored at or below
/// it are suppressed.
pub const QA_SCORE_THRESHOLD_PPM: u64 = 70000;

/// The reply for a list of candidate answers: the top answer when its
/// score clears the threshold, the generic fallback otherwise.
pub open spec fn qa_reply_spec(answers: Seq<QaAnswer>) -> Seq<char> {
    if answers.len() > 0 && answers[0].score_ppm > QA_SCORE_THRESHOLD_PPM {
        answers[0].answer@
    } else {
        "sorry, i don't understand"@
    }
}

/// Renders the outcome of the question-answering call.
pub fn qa_reply(answers: &Vec<QaAnswer>) -> (r: String)
    ensures
        r@ == qa_reply_spec(answers@),
{
    if answers.len() > 0 {
        let a = &answers[0];
        if a.score_ppm > QA_SCORE_THRESHOLD_PPM {
            a.answer.clone()
        } else {
            String::from_str("sorry, i don't understand")
        }
    } else {
        String::from_str("sorry, i don't understand")
    }
}

/// Renders the outcome of the repository fetch: the full listing on
/// success, the generic apology on failure.
pub fn repositories_reply(result: Option<Vec<Repository>>) -> (r: String)
    ensures
        match result {
            Some(repos) => r@ == spec_repo_list(repos@),
            None => r@ == "sorry, i don't understand"@,
        },
{
    match result {
        Some(repos) => render_repositories(&repos),
        None => String::from_str("sorry, i don't understand"),
    }
}

} // verus!
