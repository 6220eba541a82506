use digireport::gitlab::{
    bearer_header, commits_url, projects_url, render_repositories, render_timestamp, GitlabUser,
    Repository, UtcTimestamp,
};
use digireport::text::{u64_to_string, u64_to_string_pad2, u64_to_string_pad4};

#[test]
fn credential_holds_token_and_username() {
    let mut user = GitlabUser::new("secret".to_string());
    assert_eq!(user.token(), "secret");
    assert_eq!(user.username(), "");
    user.set_user("alice".to_string());
    assert_eq!(user.username(), "alice");
    assert_eq!(user.token(), "secret");
    user.set_token("fresh".to_string());
    assert_eq!(user.token(), "fresh");
    assert_eq!(user.username(), "alice");
}

#[test]
fn projects_url_is_fixed() {
    assert_eq!(projects_url(), "https://gitlab.com/api/v4/projects");
}

#[test]
fn commits_url_embeds_id_and_timestamp() {
    let ts = UtcTimestamp { year: 2023, month: 4, day: 7, hour: 9, minute: 30, second: 5 };
    assert_eq!(
        commits_url(1234, &ts),
        "https://gitlab.com/api/v4/projects/1234/repository/commits?since=2023-04-07T09:30:05Z"
    );
}

#[test]
fn timestamp_is_zero_padded() {
    let ts = UtcTimestamp { year: 33, month: 12, day: 1, hour: 0, minute: 59, second: 0 };
    assert_eq!(render_timestamp(&ts), "0033-12-01T00:59:00Z");
}

#[test]
fn bearer_header_prefixes_token() {
    assert_eq!(bearer_header("tok-1"), "Bearer tok-1");
    assert_eq!(bearer_header(""), "Bearer ");
}

#[test]
fn repositories_render_one_block_each() {
    let repos = vec![
        Repository {
            id: 1,
            name: "alpha".to_string(),
            description: Some("first".to_string()),
            visibility: "public".to_string(),
        },
        Repository {
            id: 20,
            name: "beta".to_string(),
            description: None,
            visibility: "private".to_string(),
        },
    ];
    let rendered = render_repositories(&repos);
    assert_eq!(
        rendered,
        "id: 1\nname: alpha\ndescription: first\nvisibility: public\n\n\
         id: 20\nname: beta\ndescription: \nvisibility: private\n\n"
    );
}

#[test]
fn empty_repository_list_renders_empty() {
    let repos: Vec<Repository> = Vec::new();
    assert_eq!(render_repositories(&repos), "");
}

#[test]
fn decimal_rendering_edges() {
    assert_eq!(u64_to_string(0), "0");
    assert_eq!(u64_to_string(9), "9");
    assert_eq!(u64_to_string(10), "10");
    assert_eq!(u64_to_string(u64::MAX), "18446744073709551615");
    assert_eq!(u64_to_string_pad2(0), "00");
    assert_eq!(u64_to_string_pad2(9), "09");
    assert_eq!(u64_to_string_pad2(10), "10");
    assert_eq!(u64_to_string_pad4(0), "0000");
    assert_eq!(u64_to_string_pad4(33), "0033");
    assert_eq!(u64_to_string_pad4(999), "0999");
    assert_eq!(u64_to_string_pad4(1000), "1000");
    assert_eq!(u64_to_string_pad4(12345), "12345");
}
