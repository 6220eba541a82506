//! The closed set of named bot commands, their parser (leading `/`,
//! case-folded name, remainder as one argument — except the one command
//! documented as `username age`), and the dispatcher that answers each
//! command.

use vstd::prelude::*;
use crate::chatbot::{Action, action_reply};
use crate::gitlab::{GitlabUser, GitlabUserView};
use crate::text::{
    all_digits, cmd_is, command_arg, command_token, dec_str, dec_val, eq_folded, first_space_at,
    first_space_from, is_command, parse_u8, split_command, text_is_command, to_lower,
    u64_to_string,
};

verus! {

/// The commands the bot understands, plus their parsed arguments.
#[derive(Debug, PartialEq)]
pub enum Command {
    /// display this text.
    Help,
    /// handle a username.
    Username(String),
    /// handle a username and an age.
    UsernameAndAge { username: String, age: u8 },
    /// initialize gitlab user token
    InitToken(String),
    /// display information
    Start,
    /// display all repositories
    Repositories,
}

/// The argument of the two-part command parses as `username age` with an
/// age of at most 255.
pub open spec fn age_arg_ok(a: Seq<char>) -> bool {
    let sp = first_space_at(a, 0);
    &&& sp < a.len()
    &&& a.subrange(sp + 1, a.len() as int).len() > 0
    &&& all_digits(a.subrange(sp + 1, a.len() as int))
    &&& dec_val(a.subrange(sp + 1, a.len() as int)) <= 255
}

/// The texts the parser accepts: a known command name, with a well-formed
/// argument where one is required.
pub open spec fn parseable(t: Seq<char>) -> bool {
    ||| cmd_is(t, "help"@)
    ||| cmd_is(t, "username"@)
    ||| (cmd_is(t, "usernameandage"@) && age_arg_ok(command_arg(t)))
    ||| cmd_is(t, "inittoken"@)
    ||| cmd_is(t, "start"@)
    ||| cmd_is(t, "repositories"@)
}

/// Which parsed command a text denotes.
pub open spec fn command_matches(t: Seq<char>, cmd: Command) -> bool {
    match cmd {
        Command::Help => cmd_is(t, "help"@),
        Command::Username(u) => cmd_is(t, "username"@) && u@ == command_arg(t),
        Command::UsernameAndAge { username, age } => {
            let a = command_arg(t);
            let sp = first_space_at(a, 0);
            &&& cmd_is(t, "usernameandage"@)
            &&& age_arg_ok(a)
            &&& username@ == a.subrange(0, sp)
            &&& age as nat == dec_val(a.subrange(sp + 1, a.len() as int))
        },
        Command::InitToken(s) => cmd_is(t, "inittoken"@) && s@ == command_arg(t),
        Command::Start => cmd_is(t, "start"@),
        Command::Repositories => cmd_is(t, "repositories"@),
    }
}

/// A text whose command token is `usernameandage` names no other
/// command: all the names have different lengths.
proof fn lemma_usernameandage_only(t: Seq<char>)
    requires
        cmd_is(t, "usernameandage"@),
    ensures
        !cmd_is(t, "help"@),
        !cmd_is(t, "username"@),
        !cmd_is(t, "inittoken"@),
        !cmd_is(t, "start"@),
        !cmd_is(t, "repositories"@),
{
    reveal_strlit("usernameandage");
    reveal_strlit("help");
    reveal_strlit("username");
    reveal_strlit("inittoken");
    reveal_strlit("start");
    reveal_strlit("repositories");
    assert(to_lower(command_token(t)).len() == 14);
}

/// Parses one inbound text as a command. `None` exactly on text without
/// the prefix, on an unknown command name, and on a malformed
/// `username age` argument.
pub fn parse_command(text: &str) -> (r: Option<Command>)
    ensures
        r is Some <==> (is_command(text@) && parseable(text@)),
        r matches Some(cmd) ==> command_matches(text@, cmd),
{
    if !text_is_command(text) {
        return None;
    }
    let (name, arg) = split_command(text);
    if eq_folded(name, "help") {
        Some(Command::Help)
    } else if eq_folded(name, "username") {
        Some(Command::Username(String::from_str(arg)))
    } else if eq_folded(name, "usernameandage") {
        proof {
            lemma_usernameandage_only(text@);
        }
        let n = arg.unicode_len();
        let sp = first_space_from(arg, 0);
        if sp >= n {
            return None;
        }
        let username = arg.substring_char(0, sp);
        let age_part = arg.substring_char(sp + 1, n);
        match parse_u8(age_part) {
            Some(age) => Some(
                Command::UsernameAndAge { username: String::from_str(username), age },
            ),
            None => None,
        }
    } else if eq_folded(name, "inittoken") {
        Some(Command::InitToken(String::from_str(arg)))
    } else if eq_folded(name, "start") {
        Some(Command::Start)
    } else if eq_folded(name, "repositories") {
        Some(Command::Repositories)
    } else {
        None
    }
}

/// The help text listing every command.
pub open spec fn spec_descriptions() -> Seq<char> {
    "These commands are supported:\n/help - display this text.\n/username - handle a username.\n/usernameandage - handle a username and an age.\n/inittoken - initialize gitlab user token\n/start - display information\n/repositories - display all repositories"@
}

pub fn descriptions() -> (r: String)
    ensures
        r@ == spec_descriptions(),
{
    String::from_str(
        "These commands are supported:\n/help - display this text.\n/username - handle a username.\n/usernameandage - handle a username and an age.\n/inittoken - initialize gitlab user token\n/start - display information\n/repositories - display all repositories",
    )
}

/// What answering one command does to the stored credential and which
/// action comes back.
pub open spec fn answer_post(
    pre_user: GitlabUserView,
    post_user: GitlabUserView,
    cmd: Command,
    act: Action,
) -> bool {
    match cmd {
        Command::Help => post_user == pre_user && action_reply(act, spec_descriptions()),
        Command::Username(u) => post_user == pre_user && action_reply(
            act,
            "Your username is @"@ + u@ + "."@,
        ),
        Command::UsernameAndAge { username, age } => post_user == pre_user && action_reply(
            act,
            "Your username is @"@ + username@ + " and age is "@ + dec_str(age as nat) + "."@,
        ),
        Command::InitToken(t) => post_user == (GitlabUserView { token: t@, ..pre_user })
            && action_reply(act, "token set"@),
        Command::Start => post_user == pre_user && action_reply(act, "text"@),
        Command::Repositories => post_user == pre_user && (act matches
            Action::FetchRepositories { user } && user@ == pre_user),
    }
}

/// Answers one parsed command: `InitToken` stores the token on the given
/// credential; `Repositories` asks for the listing with it; the rest
/// reply directly.
pub fn answer(cmd: Command, user: &mut GitlabUser) -> (r: Action)
    ensures
        answer_post(old(user)@, final(user)@, cmd, r),
{
    match cmd {
        Command::Help => Action::Reply { text: descriptions() },
        Command::Username(u) => {
            let mut reply = String::from_str("Your username is @");
            reply.append(u.as_str());
            reply.append(".");
            Action::Reply { text: reply }
        },
        Command::UsernameAndAge { username, age } => {
            let mut reply = String::from_str("Your username is @");
            reply.append(username.as_str());
            reply.append(" and age is ");
            let age_s = u64_to_string(age as u64);
            reply.append(age_s.as_str());
            reply.append(".");
            Action::Reply { text: reply }
        },
        Command::InitToken(t) => {
            user.set_token(t);
            Action::Reply { text: String::from_str("token set") }
        },
        Command::Start => Action::Reply { text: String::from_str("text") },
        Command::Repositories => {
            let u = user.clone();
            Action::FetchRepositories { user: u }
        },
    }
}

} // verus!
