//! Data for the hosted git service: the per-user credential, the shapes of
//! the records the service returns, and the verified compute parts of the
//! two calls the bot makes (building the request URLs and the bearer
//! header, rendering the fetched repository list). The HTTP exchange
//! itself is performed by the surrounding program.

use vstd::prelude::*;
use crate::text::{
    dec_str, dec_str_pad2, dec_str_pad4, u64_to_string, u64_to_string_pad2, u64_to_string_pad4,
};

verus! {

/// Ghost view of a stored credential.
pub ghost struct GitlabUserView {
    pub username: Seq<char>,
    pub token: Seq<char>,
}

/// A stored credential for the hosted git service: a user name and a
/// personal access token. No validation of the token format is performed.
#[derive(Debug)]
pub struct GitlabUser {
    username: String,
    token: String,
}

impl View for GitlabUser {
    type V = GitlabUserView;

    closed spec fn view(&self) -> GitlabUserView {
        GitlabUserView { username: self.username@, token: self.token@ }
    }
}

impl Clone for GitlabUser {
    fn clone(&self) -> (r: GitlabUser)
        ensures
            r@ == self@,
    {
        GitlabUser { username: self.username.clone(), token: self.token.clone() }
    }
}

impl GitlabUser {
    /// A fresh credential holding `token` and an empty user name.
    pub fn new(token: String) -> (r: GitlabUser)
        ensures
            r@.username == Seq::<char>::empty(),
            r@.token == token@,
    {
        GitlabUser { username: String::new(), token }
    }

    pub fn set_user(&mut self, username: String)
        ensures
            final(self)@.username == username@,
            final(self)@.token == old(self)@.token,
    {
        self.username = username;
    }

    pub fn set_token(&mut self, token: String)
        ensures
            final(self)@.token == token@,
            final(self)@.username == old(self)@.username,
    {
        self.token = token;
    }

    /// The stored access token, read by the HTTP adapter.
    pub fn token(&self) -> (r: &String)
        ensures
            r@ == self@.token,
    {
        &self.token
    }

    /// The stored user name.
    pub fn username(&self) -> (r: &String)
        ensures
            r@ == self@.username,
    {
        &self.username
    }
}

/// One commit record as the service reports it.
#[derive(Debug)]
pub struct Commit {
    pub id: String,
    pub short_id: String,
    pub title: String,
    pub author_name: String,
}

/// One repository record as the service reports it.
#[derive(Debug)]
pub struct Repository {
    pub id: u32,
    pub name: String,
    pub description: Option<String>,
    pub visibility: String,
}

/// A calendar timestamp in universal time, held as plain numbers so that
/// the request URL can be rendered by verified code.
#[derive(Clone, Copy, Debug, PartialEq, Eq, Structural)]
pub struct UtcTimestamp {
    pub year: u64,
    pub month: u64,
    pub day: u64,
    pub hour: u64,
    pub minute: u64,
    pub second: u64,
}

impl UtcTimestamp {
    /// Field bounds of a renderable timestamp.
    pub open spec fn wf(self) -> bool {
        &&& self.year <= 9999
        &&& 1 <= self.month <= 12
        &&& 1 <= self.day <= 31
        &&& self.hour <= 23
        &&& self.minute <= 59
        &&& self.second <= 59
    }
}

/// `YYYY-MM-DDThh:mm:ssZ`.
pub open spec fn spec_timestamp(ts: UtcTimestamp) -> Seq<char> {
    dec_str_pad4(ts.year as nat) + "-"@ + dec_str_pad2(ts.month as nat) + "-"@ + dec_str_pad2(
        ts.day as nat,
    ) + "T"@ + dec_str_pad2(ts.hour as nat) + ":"@ + dec_str_pad2(ts.minute as nat) + ":"@
        + dec_str_pad2(ts.second as nat) + "Z"@
}

/// Renders `ts` in the `YYYY-MM-DDThh:mm:ssZ` shape the service accepts.
pub fn render_timestamp(ts: &UtcTimestamp) -> (r: String)
    ensures
        r@ == spec_timestamp(*ts),
{
    let mut r = u64_to_string_pad4(ts.year);
    r.append("-");
    let part = u64_to_string_pad2(ts.month);
    r.append(part.as_str());
    r.append("-");
    let part = u64_to_string_pad2(ts.day);
    r.append(part.as_str());
    r.append("T");
    let part = u64_to_string_pad2(ts.hour);
    r.append(part.as_str());
    r.append(":");
    let part = u64_to_string_pad2(ts.minute);
    r.append(part.as_str());
    r.append(":");
    let part = u64_to_string_pad2(ts.second);
    r.append(part.as_str());
    r.append("Z");
    proof {
        assert(r@ =~= spec_timestamp(*ts));
    }
    r
}

/// The URL listing the repositories visible to the caller.
pub open spec fn spec_projects_url() -> Seq<char> {
    "https://gitlab.com/api/v4/projects"@
}

pub fn projects_url() -> (r: &'static str)
    ensures
        r@ == spec_projects_url(),
{
    "https://gitlab.com/api/v4/projects"
}

/// The URL listing the commits of repository `repo_id` since a timestamp.
pub open spec fn spec_commits_url(repo_id: nat, since: UtcTimestamp) -> Seq<char> {
    "https://gitlab.com/api/v4/projects/"@ + dec_str(repo_id) + "/repository/commits?since="@
        + spec_timestamp(since)
}

pub fn commits_url(repo_id: u32, since: &UtcTimestamp) -> (r: String)
    ensures
        r@ == spec_commits_url(repo_id as nat, *since),
{
    let mut r = String::from_str("https://gitlab.com/api/v4/projects/");
    let part = u64_to_string(repo_id as u64);
    r.append(part.as_str());
    r.append("/repository/commits?since=");
    let part = render_timestamp(since);
    r.append(part.as_str());
    proof {
        assert(r@ =~= spec_commits_url(repo_id as nat, *since));
    }
    r
}

/// The authorization header value sent with each request.
pub open spec fn spec_bearer_header(token: Seq<char>) -> Seq<char> {
    "Bearer "@ + token
}

pub fn bearer_header(token: &str) -> (r: String)
    ensures
        r@ == spec_bearer_header(token@),
{
    let mut r = String::from_str("Bearer ");
    r.append(token);
    r
}

/// The rendering of one repository in the reply message.
pub open spec fn spec_repo_entry(r: Repository) -> Seq<char> {
    "id: "@ + dec_str(r.id as nat) + "\nname: "@ + r.name@ + "\ndescription: "@ + (match r
        .description {
        Some(d) => d@,
        None => Seq::<char>::empty(),
    }) + "\nvisibility: "@ + r.visibility@ + "\n\n"@
}

/// The rendering of a whole repository list, in order.
pub open spec fn spec_repo_list(rs: Seq<Repository>) -> Seq<char>
    decreases rs.len(),
{
    if rs.len() == 0 {
        Seq::<char>::empty()
    } else {
        spec_repo_list(rs.drop_last()) + spec_repo_entry(rs.last())
    }
}

/// Renders the fetched repository list into the single reply message, one
/// block per repository; an absent description is rendered empty.
pub fn render_repositories(repos: &Vec<Repository>) -> (r: String)
    ensures
        r@ == spec_repo_list(repos@),
{
    let mut r = String::new();
    let mut i: usize = 0;
    while i < repos.len()
        invariant
            0 <= i <= repos@.len(),
            r@ == spec_repo_list(repos@.take(i as int)),
        decreases repos@.len() - i,
    {
        let repo = &repos[i];
        r.append("id: ");
        let id_s = u64_to_string(repo.id as u64);
        r.append(id_s.as_str());
        r.append("\nname: ");
        r.append(repo.name.as_str());
        r.append("\ndescription: ");
        match &repo.description {
            Some(d) => r.append(d.as_str()),
            None => (),
        }
        r.append("\nvisibility: ");
        r.append(repo.visibility.as_str());
        r.append("\n\n");
        proof {
            assert(repos@.take(i as int + 1).drop_last() =~= repos@.take(i as int));
            assert(repos@.take(i as int + 1).last() == repos@[i as int]);
            assert(r@ =~= spec_repo_list(repos@.take(i as int + 1)));
        }
        i += 1;
    }
    proof {
        assert(repos@.take(repos@.len() as int) =~= repos@);
    }
    r
}

} // verus!
