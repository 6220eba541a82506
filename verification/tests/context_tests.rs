use digireport::context::{ChatId, Context, Me, UserId};

fn me(username: Option<&str>) -> Me {
    Me {
        id: 42,
        is_bot: true,
        first_name: "digi".to_string(),
        username: username.map(|u| u.to_string()),
        can_join_groups: false,
        can_read_all_group_messages: false,
        supports_inline_queries: false,
    }
}

#[test]
fn register_addr_twice_reports_new_once() {
    let mut ctx = Context::new();
    let chat = ChatId(10);
    assert_eq!(ctx.register_addr(chat, "news".to_string()), true);
    assert_eq!(ctx.register_addr(chat, "news".to_string()), false);
}

#[test]
fn unregister_addr_true_once_then_false() {
    let mut ctx = Context::new();
    let chat = ChatId(10);
    assert!(ctx.register_addr(chat, "news".to_string()));
    assert_eq!(ctx.unregister_addr(chat, "news".to_string()), true);
    assert_eq!(ctx.unregister_addr(chat, "news".to_string()), false);
    assert_eq!(ctx.unregister_addr(chat, "news".to_string()), false);
}

#[test]
fn unregister_never_registered_is_false() {
    let mut ctx = Context::new();
    assert_eq!(ctx.unregister_addr(ChatId(1), "nothing".to_string()), false);
}

#[test]
fn addrs_and_chat_ids_stay_consistent() {
    let mut ctx = Context::new();
    let a = ChatId(1);
    let b = ChatId(2);
    assert!(ctx.register_addr(a, "x".to_string()));
    assert!(ctx.register_addr(a, "y".to_string()));
    assert!(ctx.register_addr(b, "x".to_string()));
    assert!(ctx.unregister_addr(a, "y".to_string()));

    let addrs_a = ctx.addrs(&a).expect("chat a has an entry");
    assert_eq!(addrs_a.len(), 1);
    assert_eq!(addrs_a[0], "x");

    let watchers_x = ctx.chat_ids(&"x".to_string()).expect("address x has an entry");
    let mut ids: Vec<i64> = watchers_x.iter().map(|c| c.0).collect();
    ids.sort();
    assert_eq!(ids, vec![1, 2]);

    // the y side kept its (now empty) entry, and reports no watcher
    let watchers_y = ctx.chat_ids(&"y".to_string()).expect("address y keeps its entry");
    assert!(watchers_y.is_empty());

    // every reported pair is reported by the other side too
    for c in [a, b] {
        if let Some(addrs) = ctx.addrs(&c) {
            for addr in addrs {
                let watchers = ctx.chat_ids(addr).expect("inverse entry exists");
                assert!(watchers.contains(&c));
            }
        }
    }
    for addr in ["x", "y"] {
        if let Some(watchers) = ctx.chat_ids(&addr.to_string()) {
            for c in watchers {
                let addrs = ctx.addrs(c).expect("inverse entry exists");
                assert!(addrs.contains(&addr.to_string()));
            }
        }
    }
}

#[test]
fn addrs_of_unknown_chat_is_none() {
    let ctx = Context::new();
    assert!(ctx.addrs(&ChatId(5)).is_none());
    assert!(ctx.chat_ids(&"anything".to_string()).is_none());
}

#[test]
fn latest_credential_wins() {
    let mut ctx = Context::new();
    let u = UserId(7);
    ctx.register_gitlab_user(u, "first-token".to_string());
    ctx.register_gitlab_user(u, "second-token".to_string());
    let stored = ctx.get_gitlab_user(u).expect("credential stored");
    assert_eq!(stored.token(), "second-token");
    assert_eq!(stored.username(), "");
}

#[test]
fn credentials_are_per_user() {
    let mut ctx = Context::new();
    ctx.register_gitlab_user(UserId(1), "one".to_string());
    ctx.register_gitlab_user(UserId(2), "two".to_string());
    assert_eq!(ctx.get_gitlab_user(UserId(1)).unwrap().token(), "one");
    assert_eq!(ctx.get_gitlab_user(UserId(2)).unwrap().token(), "two");
    assert!(ctx.get_gitlab_user(UserId(3)).is_none());
}

#[test]
fn bot_identity_defaults_then_holds_set_value() {
    let mut ctx = Context::new();
    let before = ctx.get_bot();
    assert_eq!(before.id, 0);
    assert!(!before.is_bot);
    assert_eq!(before.first_name, "");
    assert!(before.username.is_none());

    ctx.set_bot(me(Some("digibot")));
    let after = ctx.get_bot();
    assert_eq!(after.id, 42);
    assert_eq!(after.username.as_deref(), Some("digibot"));
}
