//! The shared in-memory aggregate behind the bot: the credential store
//! (one access token per platform user, later registrations overwrite),
//! the address registry (a bidirectional chat/address relation held as two
//! inverse indexes that are proved to agree), and the bot-identity holder
//! (written once at startup, readable before that with a fixed default).

use vstd::prelude::*;
use crate::gitlab::{GitlabUser, GitlabUserView};

verus! {

/// Opaque identifier of one conversation, supplied by the bot platform.
#[derive(Clone, Copy, Debug, Hash, PartialEq, Eq, Structural)]
pub struct ChatId(pub i64);

/// Opaque identifier of one platform user, supplied by the bot platform.
#[derive(Clone, Copy, Debug, Hash, PartialEq, Eq, Structural)]
pub struct UserId(pub u64);

/// The platform-resolved identity of the bot process, held as plain
/// values.
#[derive(Debug)]
pub struct Me {
    pub id: u64,
    pub is_bot: bool,
    pub first_name: String,
    pub username: Option<String>,
    pub can_join_groups: bool,
    pub can_read_all_group_messages: bool,
    pub supports_inline_queries: bool,
}

/// The placeholder identity readable before the platform has answered.
pub open spec fn bot_is_default(m: Me) -> bool {
    &&& m.id == 0
    &&& m.is_bot == false
    &&& m.first_name@ == Seq::<char>::empty()
    &&& m.username is None
    &&& m.can_join_groups == false
    &&& m.can_read_all_group_messages == false
    &&& m.supports_inline_queries == false
}

/// Holder for the bot identity with a well-defined default.
#[derive(Debug)]
pub struct MeBot {
    pub me: Me,
}

impl Default for MeBot {
    fn default() -> (r: MeBot)
        ensures
            bot_is_default(r.me),
    {
        MeBot {
            me: Me {
                id: 0,
                is_bot: false,
                first_name: String::new(),
                username: None,
                can_join_groups: false,
                can_read_all_group_messages: false,
                supports_inline_queries: false,
            },
        }
    }
}

/// Keys of the credential list are pairwise distinct.
pub open spec fn user_index_wf(s: Seq<(UserId, GitlabUser)>) -> bool {
    forall|i: int, k: int| 0 <= i < k < s.len() ==> (#[trigger] s[i]).0 != (#[trigger] s[k]).0
}

/// The credential held for `u`, latest entry first.
pub open spec fn cred_lookup(s: Seq<(UserId, GitlabUser)>, u: UserId) -> Option<GitlabUserView>
    decreases s.len(),
{
    if s.len() == 0 {
        None
    } else if s.last().0 == u {
        Some(s.last().1@)
    } else {
        cred_lookup(s.drop_last(), u)
    }
}

proof fn lemma_cred_lookup_at(s: Seq<(UserId, GitlabUser)>, u: UserId, i: int)
    requires
        user_index_wf(s),
        0 <= i < s.len(),
        s[i].0 == u,
    ensures
        cred_lookup(s, u) == Some(s[i].1@),
    decreases s.len(),
{
    if i < s.len() - 1 {
        assert(s.last().0 != u);
        lemma_cred_lookup_at(s.drop_last(), u, i);
    }
}

proof fn lemma_cred_lookup_absent(s: Seq<(UserId, GitlabUser)>, u: UserId)
    requires
        forall|i: int| 0 <= i < s.len() ==> (#[trigger] s[i]).0 != u,
    ensures
        cred_lookup(s, u) is None,
    decreases s.len(),
{
    if s.len() > 0 {
        lemma_cred_lookup_absent(s.drop_last(), u);
    }
}

fn find_user_entry(v: &Vec<(UserId, GitlabUser)>, user_id: UserId) -> (r: Option<usize>)
    ensures
        match r {
            Some(i) => i < v@.len() && v@[i as int].0 == user_id,
            None => forall|i: int| 0 <= i < v@.len() ==> (#[trigger] v@[i]).0 != user_id,
        },
{
    let mut i: usize = 0;
    while i < v.len()
        invariant
            0 <= i <= v@.len(),
            forall|j: int| 0 <= j < i ==> (#[trigger] v@[j]).0 != user_id,
        decreases v@.len() - i,
    {
        if v[i].0 == user_id {
            return Some(i);
        }
        i += 1;
    }
    None
}

/// Chat identifiers of one inner list are pairwise distinct.
pub open spec fn dupfree_chats(v: Seq<ChatId>) -> bool {
    forall|j: int, k: int| 0 <= j < k < v.len() ==> v[j] != v[k]
}

/// Addresses of one inner list are pairwise distinct as strings.
pub open spec fn dupfree_strs(v: Seq<String>) -> bool {
    forall|j: int, k: int| 0 <= j < k < v.len() ==> (#[trigger] v[j])@ != (#[trigger] v[k])@
}

/// Whether a list of addresses contains the string `a`.
pub open spec fn contains_str(v: Seq<String>, a: Seq<char>) -> bool {
    exists|j: int| 0 <= j < v.len() && (#[trigger] v[j])@ == a
}

/// Shape of the address-to-chats index: pairwise distinct keys and
/// duplicate-free inner lists.
pub open spec fn addr_index_wf(s: Seq<(String, Vec<ChatId>)>) -> bool {
    &&& forall|i: int, k: int|
        0 <= i < k < s.len() ==> (#[trigger] s[i]).0@ != (#[trigger] s[k]).0@
    &&& forall|i: int| 0 <= i < s.len() ==> dupfree_chats((#[trigger] s[i]).1@)
}

/// Shape of the chat-to-addresses index.
pub open spec fn chat_index_wf(s: Seq<(ChatId, Vec<String>)>) -> bool {
    &&& forall|i: int, k: int| 0 <= i < k < s.len() ==> (#[trigger] s[i]).0 != (#[trigger] s[k]).0
    &&& forall|i: int| 0 <= i < s.len() ==> dupfree_strs((#[trigger] s[i]).1@)
}

/// The address-to-chats index holds an entry (possibly empty) for `a`.
pub open spec fn addr_key_exists(s: Seq<(String, Vec<ChatId>)>, a: Seq<char>) -> bool {
    exists|i: int| 0 <= i < s.len() && (#[trigger] s[i]).0@ == a
}

/// The chat-to-addresses index holds an entry (possibly empty) for `c`.
pub open spec fn chat_key_exists(s: Seq<(ChatId, Vec<String>)>, c: ChatId) -> bool {
    exists|i: int| 0 <= i < s.len() && (#[trigger] s[i]).0 == c
}

/// The association held by the address-to-chats index.
pub open spec fn addr_maps(s: Seq<(String, Vec<ChatId>)>, a: Seq<char>, c: ChatId) -> bool {
    exists|i: int| 0 <= i < s.len() && (#[trigger] s[i]).0@ == a && s[i].1@.contains(c)
}

/// The association held by the chat-to-addresses index.
pub open spec fn chat_maps(s: Seq<(ChatId, Vec<String>)>, c: ChatId, a: Seq<char>) -> bool {
    exists|i: int| 0 <= i < s.len() && (#[trigger] s[i]).0 == c && contains_str(s[i].1@, a)
}

fn find_addr_entry(v: &Vec<(String, Vec<ChatId>)>, addr: &String) -> (r: Option<usize>)
    ensures
        match r {
            Some(i) => i < v@.len() && v@[i as int].0@ == addr@,
            None => forall|i: int| 0 <= i < v@.len() ==> (#[trigger] v@[i]).0@ != addr@,
        },
{
    let mut i: usize = 0;
    while i < v.len()
        invariant
            0 <= i <= v@.len(),
            forall|j: int| 0 <= j < i ==> (#[trigger] v@[j]).0@ != addr@,
        decreases v@.len() - i,
    {
        if v[i].0 == *addr {
            return Some(i);
        }
        i += 1;
    }
    None
}

fn find_chat_entry(v: &Vec<(ChatId, Vec<String>)>, chat: ChatId) -> (r: Option<usize>)
    ensures
        match r {
            Some(i) => i < v@.len() && v@[i as int].0 == chat,
            None => forall|i: int| 0 <= i < v@.len() ==> (#[trigger] v@[i]).0 != chat,
        },
{
    let mut i: usize = 0;
    while i < v.len()
        invariant
            0 <= i <= v@.len(),
            forall|j: int| 0 <= j < i ==> (#[trigger] v@[j]).0 != chat,
        decreases v@.len() - i,
    {
        if v[i].0 == chat {
            return Some(i);
        }
        i += 1;
    }
    None
}

fn contains_chat(v: &Vec<ChatId>, c: ChatId) -> (r: bool)
    ensures
        r == v@.contains(c),
{
    let mut i: usize = 0;
    while i < v.len()
        invariant
            0 <= i <= v@.len(),
            forall|j: int| 0 <= j < i ==> v@[j] != c,
        decreases v@.len() - i,
    {
        if v[i] == c {
            return true;
        }
        i += 1;
    }
    false
}

fn contains_string(v: &Vec<String>, a: &String) -> (r: bool)
    ensures
        r == contains_str(v@, a@),
{
    let mut i: usize = 0;
    while i < v.len()
        invariant
            0 <= i <= v@.len(),
            forall|j: int| 0 <= j < i ==> (#[trigger] v@[j])@ != a@,
        decreases v@.len() - i,
    {
        if v[i] == *a {
            return true;
        }
        i += 1;
    }
    false
}

/// Removes the one occurrence of `c`, if present.
fn remove_chat(v: &mut Vec<ChatId>, c: ChatId) -> (r: bool)
    requires
        dupfree_chats(old(v)@),
    ensures
        dupfree_chats(final(v)@),
        r == old(v)@.contains(c),
        forall|x: ChatId| final(v)@.contains(x) <==> (old(v)@.contains(x) && x != c),
{
    let mut i: usize = 0;
    while i < v.len()
        invariant
            0 <= i <= v@.len(),
            v@ == old(v)@,
            dupfree_chats(v@),
            forall|j: int| 0 <= j < i ==> v@[j] != c,
        decreases v@.len() - i,
    {
        if v[i] == c {
            let ghost s0 = v@;
            v.remove(i);
            proof {
                let s1 = v@;
                assert(s1 == s0.remove(i as int));
                assert(s1.len() == s0.len() - 1);
                s0.remove_ensures(i as int);
                assert(s0.contains(c));
                assert forall|j: int, k: int| 0 <= j < k < s1.len() implies s1[j] != s1[k] by {
                    let j0: int = if j < i { j } else { j + 1 };
                    let k0: int = if k < i { k } else { k + 1 };
                    assert(s1[j] == s0[j0]);
                    assert(s1[k] == s0[k0]);
                }
                assert forall|x: ChatId| s1.contains(x) implies (s0.contains(x) && x != c) by {
                    let j = choose|j: int| 0 <= j < s1.len() && s1[j] == x;
                    let j0: int = if j < i { j } else { j + 1 };
                    assert(s1[j] == s0[j0]);
                    assert(s0.contains(x));
                    if x == c {
                        assert(s0[j0] == s0[i as int]);
                    }
                }
                assert forall|x: ChatId| (s0.contains(x) && x != c) implies s1.contains(x) by {
                    let j0 = choose|j0: int| 0 <= j0 < s0.len() && s0[j0] == x;
                    if j0 < i {
                        assert(s1[j0] == x);
                    } else {
                        assert(s1[j0 - 1] == x);
                    }
                }
            }
            return true;
        }
        i += 1;
    }
    proof {
        if v@.contains(c) {
            let j = choose|j: int| 0 <= j < v@.len() && v@[j] == c;
            assert(v@[j] != c);
        }
    }
    false
}

/// Removes the one occurrence of the string `a`, if present.
fn remove_string(v: &mut Vec<String>, a: &String) -> (r: bool)
    requires
        dupfree_strs(old(v)@),
    ensures
        dupfree_strs(final(v)@),
        r == contains_str(old(v)@, a@),
        forall|b: Seq<char>|
            #[trigger] contains_str(final(v)@, b) <==> (contains_str(old(v)@, b) && b != a@),
{
    let mut i: usize = 0;
    while i < v.len()
        invariant
            0 <= i <= v@.len(),
            v@ == old(v)@,
            dupfree_strs(v@),
            forall|j: int| 0 <= j < i ==> (#[trigger] v@[j])@ != a@,
        decreases v@.len() - i,
    {
        if v[i] == *a {
            let ghost s0 = v@;
            v.remove(i);
            proof {
                let s1 = v@;
                s0.remove_ensures(i as int);
                assert((s0[i as int])@ == a@);
                assert(contains_str(s0, a@));
                assert forall|j: int, k: int| 0 <= j < k < s1.len() implies (#[trigger] s1[j])@ != (
                #[trigger] s1[k])@ by {
                    let j0: int = if j < i { j } else { j + 1 };
                    let k0: int = if k < i { k } else { k + 1 };
                    assert(s1[j] == s0[j0]);
                    assert(s1[k] == s0[k0]);
                }
                assert forall|b: Seq<char>| #[trigger] contains_str(s1, b) implies (contains_str(
                    s0,
                    b,
                ) && b != a@) by {
                    let j = choose|j: int| 0 <= j < s1.len() && (#[trigger] s1[j])@ == b;
                    let j0: int = if j < i { j } else { j + 1 };
                    assert(s1[j] == s0[j0]);
                    assert((s0[j0])@ == b);
                    if b == a@ {
                        assert((s0[j0])@ == (s0[i as int])@);
                    }
                }
                assert forall|b: Seq<char>| (contains_str(s0, b) && b != a@) implies #[trigger] contains_str(
                    s1,
                    b,
                ) by {
                    let j0 = choose|j0: int| 0 <= j0 < s0.len() && (#[trigger] s0[j0])@ == b;
                    if j0 < i {
                        assert((s1[j0])@ == b);
                    } else {
                        assert((s1[j0 - 1])@ == b);
                    }
                }
            }
            return true;
        }
        i += 1;
    }
    proof {
        if contains_str(v@, a@) {
            let j = choose|j: int| 0 <= j < v@.len() && (#[trigger] v@[j])@ == a@;
            assert((v@[j])@ != a@);
        }
    }
    false
}

/// Adds `chat` under `addr` in the address-to-chats index.
fn add_chat_to_addr_index(v: &mut Vec<(String, Vec<ChatId>)>, addr: &String, chat: ChatId) -> (r:
    bool)
    requires
        addr_index_wf(old(v)@),
    ensures
        addr_index_wf(final(v)@),
        r == !addr_maps(old(v)@, addr@, chat),
        forall|a: Seq<char>, c: ChatId|
            #[trigger] addr_maps(final(v)@, a, c) <==> (addr_maps(old(v)@, a, c) || (a == addr@
                && c == chat)),
        forall|a: Seq<char>|
            #[trigger] addr_key_exists(final(v)@, a) <==> (addr_key_exists(old(v)@, a) || a
                == addr@),
{
    let ghost s0 = v@;
    match find_addr_entry(v, addr) {
        Some(i) => {
            if contains_chat(&v[i].1, chat) {
                proof {
                    assert(addr_maps(s0, addr@, chat));
                    assert(addr_key_exists(s0, addr@));
                }
                false
            } else {
                let ghost inner0 = v@[i as int].1@;
                let inner = &mut v[i].1;
                inner.push(chat);
                proof {
                    let s1 = v@;
                    assert(s1[i as int].1@ == inner0.push(chat));
                    assert(s1[i as int].0 == s0[i as int].0);
                    assert(forall|j: int| 0 <= j < s0.len() && j != i ==> s1[j] == s0[j]);
                    assert(s1[i as int].1@[inner0.len() as int] == chat);
                    assert forall|j: int| 0 <= j < s1.len() implies dupfree_chats(
                        (#[trigger] s1[j]).1@,
                    ) by {
                        if j == i {
                            assert forall|x: int, y: int|
                                0 <= x < y < s1[j].1@.len() implies s1[j].1@[x] != s1[j].1@[y] by {
                                if y < inner0.len() {
                                    assert(s1[j].1@[x] == inner0[x]);
                                    assert(s1[j].1@[y] == inner0[y]);
                                } else {
                                    assert(s1[j].1@[y] == chat);
                                    assert(s1[j].1@[x] == inner0[x]);
                                    assert(inner0.contains(inner0[x]));
                                }
                            }
                        } else {
                            assert(s1[j] == s0[j]);
                        }
                    }
                    assert forall|a: Seq<char>, c: ChatId| #[trigger] addr_maps(s1, a, c) implies (
                    addr_maps(s0, a, c) || (a == addr@ && c == chat)) by {
                        let j = choose|j: int|
                            0 <= j < s1.len() && (#[trigger] s1[j]).0@ == a && s1[j].1@.contains(c);
                        if j != i {
                            assert(s1[j] == s0[j]);
                            assert(addr_maps(s0, a, c));
                        } else {
                            let x = choose|x: int| 0 <= x < s1[j].1@.len() && s1[j].1@[x] == c;
                            if x < inner0.len() {
                                assert(inner0[x] == c);
                                assert(inner0.contains(c));
                                assert(addr_maps(s0, a, c));
                            } else {
                                assert(c == chat);
                            }
                        }
                    }
                    assert forall|a: Seq<char>, c: ChatId|
                        (addr_maps(s0, a, c) || (a == addr@ && c == chat)) implies #[trigger] addr_maps(
                        s1,
                        a,
                        c,
                    ) by {
                        if addr_maps(s0, a, c) {
                            let j = choose|j: int|
                                0 <= j < s0.len() && (#[trigger] s0[j]).0@ == a
                                    && s0[j].1@.contains(c);
                            if j != i {
                                assert(s1[j] == s0[j]);
                            } else {
                                let x = choose|x: int| 0 <= x < inner0.len() && inner0[x] == c;
                                assert(s1[j].1@[x] == c);
                                assert(s1[j].1@.contains(c));
                            }
                        } else {
                            assert(s1[i as int].1@.contains(chat));
                        }
                    }
                    assert(addr_key_exists(s0, addr@));
                    assert forall|a: Seq<char>| #[trigger] addr_key_exists(s1, a) implies (
                    addr_key_exists(s0, a) || a == addr@) by {
                        let j = choose|j: int| 0 <= j < s1.len() && (#[trigger] s1[j]).0@ == a;
                        assert(s1[j].0 == s0[j].0);
                    }
                    assert forall|a: Seq<char>|
                        (addr_key_exists(s0, a) || a == addr@) implies #[trigger] addr_key_exists(
                        s1,
                        a,
                    ) by {
                        if addr_key_exists(s0, a) {
                            let j = choose|j: int| 0 <= j < s0.len() && (#[trigger] s0[j]).0@ == a;
                            assert(s1[j].0 == s0[j].0);
                        } else {
                            assert(s1[i as int].0@ == addr@);
                        }
                    }
                }
                true
            }
        },
        None => {
            let mut nv: Vec<ChatId> = Vec::new();
            nv.push(chat);
            let entry = (addr.clone(), nv);
            v.push(entry);
            proof {
                let s1 = v@;
                assert(s1.drop_last() =~= s0);
                assert(s1.last().0@ == addr@);
                assert(s1.last().1@ =~= seq![chat]);
                assert(s1.last().1@[0] == chat);
                assert(s1.last().1@.contains(chat));
                if addr_maps(s0, addr@, chat) {
                    let j = choose|j: int|
                        0 <= j < s0.len() && (#[trigger] s0[j]).0@ == addr@ && s0[j].1@.contains(
                            chat,
                        );
                    assert(false);
                }
                assert forall|a: Seq<char>, c: ChatId| #[trigger] addr_maps(s1, a, c) implies (
                addr_maps(s0, a, c) || (a == addr@ && c == chat)) by {
                    let j = choose|j: int|
                        0 <= j < s1.len() && (#[trigger] s1[j]).0@ == a && s1[j].1@.contains(c);
                    if j < s0.len() {
                        assert(s1[j] == s0[j]);
                        assert(addr_maps(s0, a, c));
                    } else {
                        let x = choose|x: int| 0 <= x < s1[j].1@.len() && s1[j].1@[x] == c;
                    }
                }
                assert forall|a: Seq<char>, c: ChatId|
                    (addr_maps(s0, a, c) || (a == addr@ && c == chat)) implies #[trigger] addr_maps(
                    s1,
                    a,
                    c,
                ) by {
                    if addr_maps(s0, a, c) {
                        let j = choose|j: int|
                            0 <= j < s0.len() && (#[trigger] s0[j]).0@ == a && s0[j].1@.contains(c);
                        assert(s1[j] == s0[j]);
                    } else {
                        assert(s1[s0.len() as int].0@ == addr@);
                    }
                }
                assert forall|a: Seq<char>| #[trigger] addr_key_exists(s1, a) implies (
                addr_key_exists(s0, a) || a == addr@) by {
                    let j = choose|j: int| 0 <= j < s1.len() && (#[trigger] s1[j]).0@ == a;
                    if j < s0.len() {
                        assert(s0[j].0@ == a);
                    }
                }
                assert forall|a: Seq<char>|
                    (addr_key_exists(s0, a) || a == addr@) implies #[trigger] addr_key_exists(
                    s1,
                    a,
                ) by {
                    if addr_key_exists(s0, a) {
                        let j = choose|j: int| 0 <= j < s0.len() && (#[trigger] s0[j]).0@ == a;
                        assert(s1[j] == s0[j]);
                    } else {
                        assert(s1[s0.len() as int].0@ == addr@);
                    }
                }
            }
            true
        },
    }
}

/// Adds `addr` under `chat` in the chat-to-addresses index; reports
/// whether the association is new.
fn add_addr_to_chat_index(v: &mut Vec<(ChatId, Vec<String>)>, chat: ChatId, addr: String) -> (r:
    bool)
    requires
        chat_index_wf(old(v)@),
    ensures
        chat_index_wf(final(v)@),
        r == !chat_maps(old(v)@, chat, addr@),
        forall|c: ChatId, a: Seq<char>|
            #[trigger] chat_maps(final(v)@, c, a) <==> (chat_maps(old(v)@, c, a) || (c == chat && a
                == addr@)),
        forall|c: ChatId|
            #[trigger] chat_key_exists(final(v)@, c) <==> (chat_key_exists(old(v)@, c) || c
                == chat),
{
    let ghost s0 = v@;
    match find_chat_entry(v, chat) {
        Some(i) => {
            if contains_string(&v[i].1, &addr) {
                proof {
                    assert(chat_maps(s0, chat, addr@));
                    assert(chat_key_exists(s0, chat));
                }
                false
            } else {
                let ghost inner0 = v@[i as int].1@;
                let inner = &mut v[i].1;
                inner.push(addr);
                proof {
                    let s1 = v@;
                    assert(s1[i as int].1@ == inner0.push(s1[i as int].1@.last()));
                    assert((s1[i as int].1@.last())@ == addr@);
                    assert(s1[i as int].0 == s0[i as int].0);
                    assert(forall|j: int| 0 <= j < s0.len() && j != i ==> s1[j] == s0[j]);
                    assert forall|j: int| 0 <= j < s1.len() implies dupfree_strs(
                        (#[trigger] s1[j]).1@,
                    ) by {
                        if j == i {
                            assert forall|x: int, y: int|
                                0 <= x < y < s1[j].1@.len() implies (#[trigger] s1[j].1@[x])@ != (
                            #[trigger] s1[j].1@[y])@ by {
                                if y < inner0.len() {
                                    assert(s1[j].1@[x] == inner0[x]);
                                    assert(s1[j].1@[y] == inner0[y]);
                                } else {
                                    assert((s1[j].1@[y])@ == addr@);
                                    assert(s1[j].1@[x] == inner0[x]);
                                    assert(!contains_str(inner0, addr@));
                                }
                            }
                        } else {
                            assert(s1[j] == s0[j]);
                        }
                    }
                    assert forall|c: ChatId, a: Seq<char>| #[trigger] chat_maps(s1, c, a) implies (
                    chat_maps(s0, c, a) || (c == chat && a == addr@)) by {
                        let j = choose|j: int|
                            0 <= j < s1.len() && (#[trigger] s1[j]).0 == c && contains_str(
                                s1[j].1@,
                                a,
                            );
                        if j != i {
                            assert(s1[j] == s0[j]);
                            assert(chat_maps(s0, c, a));
                        } else {
                            let x = choose|x: int|
                                0 <= x < s1[j].1@.len() && (#[trigger] s1[j].1@[x])@ == a;
                            if x < inner0.len() {
                                assert((inner0[x])@ == a);
                                assert(contains_str(inner0, a));
                                assert(chat_maps(s0, c, a));
                            } else {
                                assert(a == addr@);
                            }
                        }
                    }
                    assert forall|c: ChatId, a: Seq<char>|
                        (chat_maps(s0, c, a) || (c == chat && a == addr@)) implies #[trigger] chat_maps(
                        s1,
                        c,
                        a,
                    ) by {
                        if chat_maps(s0, c, a) {
                            let j = choose|j: int|
                                0 <= j < s0.len() && (#[trigger] s0[j]).0 == c && contains_str(
                                    s0[j].1@,
                                    a,
                                );
                            if j != i {
                                assert(s1[j] == s0[j]);
                            } else {
                                let x = choose|x: int|
                                    0 <= x < inner0.len() && (#[trigger] inner0[x])@ == a;
                                assert((s1[j].1@[x])@ == a);
                                assert(contains_str(s1[j].1@, a));
                            }
                        } else {
                            assert((s1[i as int].1@[inner0.len() as int])@ == addr@);
                            assert(contains_str(s1[i as int].1@, addr@));
                        }
                    }
                    assert(chat_key_exists(s0, chat));
                    assert forall|c: ChatId| #[trigger] chat_key_exists(s1, c) implies (
                    chat_key_exists(s0, c) || c == chat) by {
                        let j = choose|j: int| 0 <= j < s1.len() && (#[trigger] s1[j]).0 == c;
                        assert(s1[j].0 == s0[j].0);
                    }
                    assert forall|c: ChatId|
                        (chat_key_exists(s0, c) || c == chat) implies #[trigger] chat_key_exists(
                        s1,
                        c,
                    ) by {
                        if chat_key_exists(s0, c) {
                            let j = choose|j: int| 0 <= j < s0.len() && (#[trigger] s0[j]).0 == c;
                            assert(s1[j].0 == s0[j].0);
                        } else {
                            assert(s1[i as int].0 == chat);
                        }
                    }
                }
                true
            }
        },
        None => {
            let mut nv: Vec<String> = Vec::new();
            nv.push(addr);
            let entry = (chat, nv);
            v.push(entry);
            proof {
                let s1 = v@;
                assert(s1.drop_last() =~= s0);
                assert(s1.last().0 == chat);
                assert((s1.last().1@[0])@ == addr@);
                assert(contains_str(s1.last().1@, addr@));
                if chat_maps(s0, chat, addr@) {
                    let j = choose|j: int|
                        0 <= j < s0.len() && (#[trigger] s0[j]).0 == chat && contains_str(
                            s0[j].1@,
                            addr@,
                        );
                    assert(false);
                }
                assert forall|c: ChatId, a: Seq<char>| #[trigger] chat_maps(s1, c, a) implies (
                chat_maps(s0, c, a) || (c == chat && a == addr@)) by {
                    let j = choose|j: int|
                        0 <= j < s1.len() && (#[trigger] s1[j]).0 == c && contains_str(s1[j].1@, a);
                    if j < s0.len() {
                        assert(s1[j] == s0[j]);
                        assert(chat_maps(s0, c, a));
                    } else {
                        let x = choose|x: int|
                            0 <= x < s1[j].1@.len() && (#[trigger] s1[j].1@[x])@ == a;
                    }
                }
                assert forall|c: ChatId, a: Seq<char>|
                    (chat_maps(s0, c, a) || (c == chat && a == addr@)) implies #[trigger] chat_maps(
                    s1,
                    c,
                    a,
                ) by {
                    if chat_maps(s0, c, a) {
                        let j = choose|j: int|
                            0 <= j < s0.len() && (#[trigger] s0[j]).0 == c && contains_str(
                                s0[j].1@,
                                a,
                            );
                        assert(s1[j] == s0[j]);
                    } else {
                        assert(s1[s0.len() as int].0 == chat);
                    }
                }
                assert forall|c: ChatId| #[trigger] chat_key_exists(s1, c) implies (
                chat_key_exists(s0, c) || c == chat) by {
                    let j = choose|j: int| 0 <= j < s1.len() && (#[trigger] s1[j]).0 == c;
                    if j < s0.len() {
                        assert(s0[j].0 == c);
                    }
                }
                assert forall|c: ChatId|
                    (chat_key_exists(s0, c) || c == chat) implies #[trigger] chat_key_exists(
                    s1,
                    c,
                ) by {
                    if chat_key_exists(s0, c) {
                        let j = choose|j: int| 0 <= j < s0.len() && (#[trigger] s0[j]).0 == c;
                        assert(s1[j] == s0[j]);
                    } else {
                        assert(s1[s0.len() as int].0 == chat);
                    }
                }
            }
            true
        },
    }
}

/// Removes `chat` from under `addr` in the address-to-chats index; the
/// key entry stays, possibly empty.
fn remove_chat_from_addr_index(
    v: &mut Vec<(String, Vec<ChatId>)>,
    addr: &String,
    chat: ChatId,
) -> (r: bool)
    requires
        addr_index_wf(old(v)@),
    ensures
        addr_index_wf(final(v)@),
        r == addr_maps(old(v)@, addr@, chat),
        forall|a: Seq<char>, c: ChatId|
            #[trigger] addr_maps(final(v)@, a, c) <==> (addr_maps(old(v)@, a, c) && !(a == addr@
                && c == chat)),
        forall|a: Seq<char>|
            #[trigger] addr_key_exists(final(v)@, a) == addr_key_exists(old(v)@, a),
{
    let ghost s0 = v@;
    match find_addr_entry(v, addr) {
        Some(i) => {
            let ghost inner0 = v@[i as int].1@;
            let inner = &mut v[i].1;
            let r = remove_chat(inner, chat);
            proof {
                let s1 = v@;
                assert(s1[i as int].0 == s0[i as int].0);
                assert(forall|j: int| 0 <= j < s0.len() && j != i ==> s1[j] == s0[j]);
                assert(forall|x: ChatId|
                    s1[i as int].1@.contains(x) <==> (inner0.contains(x) && x != chat));
                if addr_maps(s0, addr@, chat) {
                    let j = choose|j: int|
                        0 <= j < s0.len() && (#[trigger] s0[j]).0@ == addr@ && s0[j].1@.contains(
                            chat,
                        );
                    assert(j == i);
                }
                assert forall|j: int| 0 <= j < s1.len() implies dupfree_chats(
                    (#[trigger] s1[j]).1@,
                ) by {
                    if j != i {
                        assert(s1[j] == s0[j]);
                    }
                }
                assert forall|a: Seq<char>, c: ChatId| #[trigger] addr_maps(s1, a, c) implies (
                addr_maps(s0, a, c) && !(a == addr@ && c == chat)) by {
                    let j = choose|j: int|
                        0 <= j < s1.len() && (#[trigger] s1[j]).0@ == a && s1[j].1@.contains(c);
                    if j != i {
                        assert(s1[j] == s0[j]);
                        assert(addr_maps(s0, a, c));
                        if a == addr@ {
                            assert(s0[j].0@ == s0[i as int].0@);
                        }
                    } else {
                        assert(inner0.contains(c) && c != chat);
                        assert(addr_maps(s0, a, c));
                    }
                }
                assert forall|a: Seq<char>, c: ChatId|
                    (addr_maps(s0, a, c) && !(a == addr@ && c == chat)) implies #[trigger] addr_maps(
                    s1,
                    a,
                    c,
                ) by {
                    let j = choose|j: int|
                        0 <= j < s0.len() && (#[trigger] s0[j]).0@ == a && s0[j].1@.contains(c);
                    if j != i {
                        assert(s1[j] == s0[j]);
                    } else {
                        assert(a == addr@);
                        assert(s1[j].1@.contains(c));
                    }
                }
                assert forall|a: Seq<char>| #[trigger] addr_key_exists(s1, a) == addr_key_exists(
                    s0,
                    a,
                ) by {
                    if addr_key_exists(s1, a) {
                        let j = choose|j: int| 0 <= j < s1.len() && (#[trigger] s1[j]).0@ == a;
                        assert(s1[j].0 == s0[j].0);
                        assert(s0[j].0@ == a);
                    }
                    if addr_key_exists(s0, a) {
                        let j = choose|j: int| 0 <= j < s0.len() && (#[trigger] s0[j]).0@ == a;
                        assert(s1[j].0 == s0[j].0);
                        assert(s1[j].0@ == a);
                    }
                }
            }
            r
        },
        None => {
            proof {
                if addr_maps(s0, addr@, chat) {
                    let j = choose|j: int|
                        0 <= j < s0.len() && (#[trigger] s0[j]).0@ == addr@ && s0[j].1@.contains(
                            chat,
                        );
                    assert(false);
                }
            }
            false
        },
    }
}

/// Removes `addr` from under `chat` in the chat-to-addresses index;
/// reports whether the association had existed.
fn remove_addr_from_chat_index(
    v: &mut Vec<(ChatId, Vec<String>)>,
    chat: ChatId,
    addr: &String,
) -> (r: bool)
    requires
        chat_index_wf(old(v)@),
    ensures
        chat_index_wf(final(v)@),
        r == chat_maps(old(v)@, chat, addr@),
        forall|c: ChatId, a: Seq<char>|
            #[trigger] chat_maps(final(v)@, c, a) <==> (chat_maps(old(v)@, c, a) && !(c == chat
                && a == addr@)),
        forall|c: ChatId| #[trigger] chat_key_exists(final(v)@, c) == chat_key_exists(old(v)@, c),
{
    let ghost s0 = v@;
    match find_chat_entry(v, chat) {
        Some(i) => {
            let ghost inner0 = v@[i as int].1@;
            let inner = &mut v[i].1;
            let r = remove_string(inner, addr);
            proof {
                let s1 = v@;
                assert(s1[i as int].0 == s0[i as int].0);
                assert(forall|j: int| 0 <= j < s0.len() && j != i ==> s1[j] == s0[j]);
                assert(forall|b: Seq<char>|
                    #[trigger] contains_str(s1[i as int].1@, b) <==> (contains_str(inner0, b) && b
                        != addr@));
                if chat_maps(s0, chat, addr@) {
                    let j = choose|j: int|
                        0 <= j < s0.len() && (#[trigger] s0[j]).0 == chat && contains_str(
                            s0[j].1@,
                            addr@,
                        );
                    assert(j == i);
                }
                assert forall|j: int| 0 <= j < s1.len() implies dupfree_strs(
                    (#[trigger] s1[j]).1@,
                ) by {
                    if j != i {
                        assert(s1[j] == s0[j]);
                    }
                }
                assert forall|c: ChatId, a: Seq<char>| #[trigger] chat_maps(s1, c, a) implies (
                chat_maps(s0, c, a) && !(c == chat && a == addr@)) by {
                    let j = choose|j: int|
                        0 <= j < s1.len() && (#[trigger] s1[j]).0 == c && contains_str(s1[j].1@, a);
                    if j != i {
                        assert(s1[j] == s0[j]);
                        assert(chat_maps(s0, c, a));
                        if c == chat {
                            assert(s0[j].0 == s0[i as int].0);
                        }
                    } else {
                        assert(contains_str(inner0, a) && a != addr@);
                        assert(chat_maps(s0, c, a));
                    }
                }
                assert forall|c: ChatId, a: Seq<char>|
                    (chat_maps(s0, c, a) && !(c == chat && a == addr@)) implies #[trigger] chat_maps(
                    s1,
                    c,
                    a,
                ) by {
                    let j = choose|j: int|
                        0 <= j < s0.len() && (#[trigger] s0[j]).0 == c && contains_str(s0[j].1@, a);
                    if j != i {
                        assert(s1[j] == s0[j]);
                    } else {
                        assert(c == chat);
                        assert(contains_str(s1[j].1@, a));
                    }
                }
                assert forall|c: ChatId| #[trigger] chat_key_exists(s1, c) == chat_key_exists(
                    s0,
                    c,
                ) by {
                    if chat_key_exists(s1, c) {
                        let j = choose|j: int| 0 <= j < s1.len() && (#[trigger] s1[j]).0 == c;
                        assert(s1[j].0 == s0[j].0);
                    }
                    if chat_key_exists(s0, c) {
                        let j = choose|j: int| 0 <= j < s0.len() && (#[trigger] s0[j]).0 == c;
                        assert(s1[j].0 == s0[j].0);
                    }
                }
            }
            r
        },
        None => {
            proof {
                if chat_maps(s0, chat, addr@) {
                    let j = choose|j: int|
                        0 <= j < s0.len() && (#[trigger] s0[j]).0 == chat && contains_str(
                            s0[j].1@,
                            addr@,
                        );
                    assert(false);
                }
            }
            false
        },
    }
}

/// The shared aggregate: credential store, address registry and bot
/// identity, all plain in-memory data with no durability.
#[derive(Debug)]
pub struct Context {
    // several chat identifiers per address
    addr_to_chatids: Vec<(String, Vec<ChatId>)>,
    // several addresses per chat identifier
    chatid_to_addrs: Vec<(ChatId, Vec<String>)>,
    // one credential per user identifier
    user_to_gitlab: Vec<(UserId, GitlabUser)>,
    // current bot
    bot: MeBot,
}

impl Context {
    /// The credential currently held for `u`, if any.
    pub closed spec fn credential(self, u: UserId) -> Option<GitlabUserView> {
        cred_lookup(self.user_to_gitlab@, u)
    }

    /// The bot identity currently held.
    pub closed spec fn spec_bot(self) -> Me {
        self.bot.me
    }

    /// Whether address `a` is registered for chat `c`, as the
    /// chat-to-addresses index holds it.
    pub closed spec fn registered(self, c: ChatId, a: Seq<char>) -> bool {
        chat_maps(self.chatid_to_addrs@, c, a)
    }

    /// Whether the inverse index holds chat `c` under address `a`.
    pub closed spec fn indexed(self, c: ChatId, a: Seq<char>) -> bool {
        addr_maps(self.addr_to_chatids@, a, c)
    }

    /// Whether the registry has ever seen chat `c`; entries are kept even
    /// when all their associations are unregistered again.
    pub closed spec fn has_chat_entry(self, c: ChatId) -> bool {
        chat_key_exists(self.chatid_to_addrs@, c)
    }

    /// Whether the registry has ever seen address `a`.
    pub closed spec fn has_addr_entry(self, a: Seq<char>) -> bool {
        addr_key_exists(self.addr_to_chatids@, a)
    }

    /// Internal consistency of the aggregate: well-shaped indexes, and the
    /// two sides of the address registry always agree.
    pub closed spec fn wf(self) -> bool {
        &&& user_index_wf(self.user_to_gitlab@)
        &&& addr_index_wf(self.addr_to_chatids@)
        &&& chat_index_wf(self.chatid_to_addrs@)
        &&& forall|c: ChatId, a: Seq<char>| #[trigger] self.registered(c, a) <==> self.indexed(c, a)
    }

    pub fn new() -> (r: Context)
        ensures
            r.wf(),
            forall|u: UserId| r.credential(u) is None,
            forall|c: ChatId, a: Seq<char>| !r.registered(c, a),
            forall|c: ChatId| !r.has_chat_entry(c),
            forall|a: Seq<char>| !r.has_addr_entry(a),
            bot_is_default(r.spec_bot()),
    {
        let r = Context {
            addr_to_chatids: Vec::new(),
            chatid_to_addrs: Vec::new(),
            user_to_gitlab: Vec::new(),
            bot: MeBot::default(),
        };
        proof {
            assert forall|u: UserId| r.credential(u) is None by {
                lemma_cred_lookup_absent(r.user_to_gitlab@, u);
            }
        }
        r
    }

    /// Stores the resolved bot identity; everything else is untouched.
    pub fn set_bot(&mut self, bot: Me)
        ensures
            final(self).spec_bot() == bot,
            final(self).wf() == old(self).wf(),
            forall|u: UserId| final(self).credential(u) == old(self).credential(u),
            forall|c: ChatId, a: Seq<char>|
                final(self).registered(c, a) == old(self).registered(c, a),
    {
        self.bot.me = bot;
        proof {
            assert forall|c: ChatId, a: Seq<char>| #[trigger] self.registered(c, a) <==> old(
                self,
            ).registered(c, a) by {}
            assert forall|c: ChatId, a: Seq<char>| #[trigger] self.indexed(c, a) <==> old(
                self,
            ).indexed(c, a) by {}
            if old(self).wf() {
                assert forall|c: ChatId, a: Seq<char>| #[trigger] self.registered(c, a)
                    <==> self.indexed(c, a) by {
                    assert(old(self).registered(c, a) <==> old(self).indexed(c, a));
                }
                assert(self.wf());
            }
            if self.wf() {
                assert forall|c: ChatId, a: Seq<char>| #[trigger] old(self).registered(c, a)
                    <==> old(self).indexed(c, a) by {
                    assert(self.registered(c, a) <==> self.indexed(c, a));
                }
                assert(old(self).wf());
            }
        }
    }

    /// Reads the bot identity; before the first `set_bot` this is the
    /// default placeholder, never a fault.
    pub fn get_bot(&self) -> (r: &Me)
        ensures
            *r == self.spec_bot(),
    {
        &self.bot.me
    }

    /// Upserts the token for `user_id`: a fresh credential with an empty
    /// user name replaces whatever was stored. No validation of the token
    /// format, no other side effect.
    pub fn register_gitlab_user(&mut self, user_id: UserId, token: String)
        requires
            old(self).wf(),
        ensures
            final(self).wf(),
            final(self).credential(user_id) == (Some(
                GitlabUserView { username: Seq::<char>::empty(), token: token@ },
            )),
            forall|u: UserId|
                u != user_id ==> final(self).credential(u) == old(self).credential(u),
            final(self).spec_bot() == old(self).spec_bot(),
            forall|c: ChatId, a: Seq<char>|
                final(self).registered(c, a) == old(self).registered(c, a),
            same_registry(*old(self), *final(self)),
            register_credential_post(*old(self), *final(self), user_id, token@),
    {
        let gitlab_user = GitlabUser::new(token);
        let ghost s0 = self.user_to_gitlab@;
        match find_user_entry(&self.user_to_gitlab, user_id) {
            Some(i) => {
                let entry = &mut self.user_to_gitlab[i];
                entry.1 = gitlab_user;
                proof {
                    let s1 = self.user_to_gitlab@;
                    assert(s1 =~= s0.update(i as int, (s0[i as int].0, s1[i as int].1)));
                    lemma_cred_lookup_at(s1, user_id, i as int);
                    assert forall|u: UserId|
                        u != user_id implies #[trigger] cred_lookup(s1, u) == cred_lookup(
                        s0,
                        u,
                    ) by {
                        if exists|j: int| 0 <= j < s0.len() && (#[trigger] s0[j]).0 == u {
                            let j = choose|j: int| 0 <= j < s0.len() && (#[trigger] s0[j]).0 == u;
                            lemma_cred_lookup_at(s0, u, j);
                            lemma_cred_lookup_at(s1, u, j);
                        } else {
                            lemma_cred_lookup_absent(s0, u);
                            lemma_cred_lookup_absent(s1, u);
                        }
                    }
                }
            },
            None => {
                self.user_to_gitlab.push((user_id, gitlab_user));
                proof {
                    let s1 = self.user_to_gitlab@;
                    assert(s1.last().0 == user_id);
                    assert forall|u: UserId|
                        u != user_id implies #[trigger] cred_lookup(s1, u) == cred_lookup(
                        s0,
                        u,
                    ) by {
                        assert(s1.drop_last() =~= s0);
                    }
                }
            },
        }
        proof {
            assert forall|c: ChatId, a: Seq<char>| #[trigger] self.registered(c, a) <==> old(
                self,
            ).registered(c, a) by {}
            assert forall|c: ChatId, a: Seq<char>| #[trigger] self.indexed(c, a) <==> old(
                self,
            ).indexed(c, a) by {}
            assert forall|c: ChatId| #[trigger] self.has_chat_entry(c) == old(
                self,
            ).has_chat_entry(c) by {}
            assert forall|a: Seq<char>| #[trigger] self.has_addr_entry(a) == old(
                self,
            ).has_addr_entry(a) by {}
        }
    }

    /// The stored credential for `user_id`, or absence as a normal
    /// outcome.
    pub fn get_gitlab_user(&self, user_id: UserId) -> (r: Option<&GitlabUser>)
        requires
            self.wf(),
        ensures
            match r {
                Some(g) => self.credential(user_id) == Some(g@),
                None => self.credential(user_id) is None,
            },
    {
        match find_user_entry(&self.user_to_gitlab, user_id) {
            Some(i) => {
                proof {
                    lemma_cred_lookup_at(self.user_to_gitlab@, user_id, i as int);
                }
                Some(&self.user_to_gitlab[i].1)
            },
            None => {
                proof {
                    lemma_cred_lookup_absent(self.user_to_gitlab@, user_id);
                }
                None
            },
        }
    }
    /// Inserts the pair (`chat_id`, `addr`) into both inverse indexes;
    /// returns whether this was a new association.
    pub fn register_addr(&mut self, chat_id: ChatId, addr: String) -> (r: bool)
        requires
            old(self).wf(),
        ensures
            register_addr_post(*old(self), *final(self), chat_id, addr@, r),
            forall|u: UserId| final(self).credential(u) == old(self).credential(u),
            final(self).spec_bot() == old(self).spec_bot(),
    {
        let _ = add_chat_to_addr_index(&mut self.addr_to_chatids, &addr, chat_id);
        let r = add_addr_to_chat_index(&mut self.chatid_to_addrs, chat_id, addr);
        proof {
            assert forall|c: ChatId, a: Seq<char>| #[trigger] self.registered(c, a)
                <==> self.indexed(c, a) by {
                assert(old(self).registered(c, a) <==> old(self).indexed(c, a));
                assert(self.registered(c, a) <==> (chat_maps(old(self).chatid_to_addrs@, c, a) || (
                c == chat_id && a == addr@)));
                assert(self.indexed(c, a) <==> (addr_maps(old(self).addr_to_chatids@, a, c) || (a
                    == addr@ && c == chat_id)));
            }
            assert forall|c: ChatId, a: Seq<char>| #[trigger] final(self).registered(c, a) <==> (
            old(self).registered(c, a) || (c == chat_id && a == addr@)) by {}
            assert forall|c: ChatId| #[trigger] final(self).has_chat_entry(c) <==> (old(
                self,
            ).has_chat_entry(c) || c == chat_id) by {}
            assert forall|a: Seq<char>| #[trigger] final(self).has_addr_entry(a) <==> (old(
                self,
            ).has_addr_entry(a) || a == addr@) by {}
        }
        r
    }

    /// Removes the pair (`chat_id`, `addr`) from both inverse indexes;
    /// returns whether the association had existed. Emptied key entries
    /// are kept.
    pub fn unregister_addr(&mut self, chat_id: ChatId, addr: String) -> (r: bool)
        requires
            old(self).wf(),
        ensures
            unregister_addr_post(*old(self), *final(self), chat_id, addr@, r),
            forall|u: UserId| final(self).credential(u) == old(self).credential(u),
            final(self).spec_bot() == old(self).spec_bot(),
    {
        let _ = remove_chat_from_addr_index(&mut self.addr_to_chatids, &addr, chat_id);
        let r = remove_addr_from_chat_index(&mut self.chatid_to_addrs, chat_id, &addr);
        proof {
            assert(r == chat_maps(old(self).chatid_to_addrs@, chat_id, addr@));
            assert forall|c: ChatId, a: Seq<char>| #[trigger] self.registered(c, a)
                <==> self.indexed(c, a) by {
                assert(old(self).registered(c, a) <==> old(self).indexed(c, a));
                assert(self.registered(c, a) <==> (chat_maps(old(self).chatid_to_addrs@, c, a)
                    && !(c == chat_id && a == addr@)));
                assert(self.indexed(c, a) <==> (addr_maps(old(self).addr_to_chatids@, a, c) && !(a
                    == addr@ && c == chat_id)));
            }
            assert forall|c: ChatId, a: Seq<char>| #[trigger] final(self).registered(c, a) <==> (
            old(self).registered(c, a) && !(c == chat_id && a == addr@)) by {}
            assert forall|c: ChatId| #[trigger] final(self).has_chat_entry(c) == old(
                self,
            ).has_chat_entry(c) by {}
            assert forall|a: Seq<char>| #[trigger] final(self).has_addr_entry(a) == old(
                self,
            ).has_addr_entry(a) by {}
        }
        r
    }

    /// All addresses registered for `chat_id`, duplicate-free, or `None`
    /// for a chat the registry has never seen; absence is a normal
    /// outcome.
    pub fn addrs(&self, chat_id: &ChatId) -> (r: Option<&Vec<String>>)
        requires
            self.wf(),
        ensures
            r is Some <==> self.has_chat_entry(*chat_id),
            match r {
                Some(v) => dupfree_strs(v@) && (forall|a: Seq<char>|
                    #[trigger] contains_str(v@, a) <==> self.registered(*chat_id, a)),
                None => forall|a: Seq<char>| !self.registered(*chat_id, a),
            },
    {
        match find_chat_entry(&self.chatid_to_addrs, *chat_id) {
            Some(i) => {
                proof {
                    let s = self.chatid_to_addrs@;
                    assert forall|a: Seq<char>| #[trigger] contains_str(s[i as int].1@, a)
                        implies self.registered(*chat_id, a) by {
                        assert(chat_maps(s, *chat_id, a));
                    }
                    assert forall|a: Seq<char>| self.registered(*chat_id, a)
                        implies #[trigger] contains_str(s[i as int].1@, a) by {
                        let j = choose|j: int|
                            0 <= j < s.len() && (#[trigger] s[j]).0 == *chat_id && contains_str(
                                s[j].1@,
                                a,
                            );
                        assert(j == i);
                    }
                }
                Some(&self.chatid_to_addrs[i].1)
            },
            None => {
                proof {
                    let s = self.chatid_to_addrs@;
                    if chat_key_exists(s, *chat_id) {
                        let j = choose|j: int| 0 <= j < s.len() && (#[trigger] s[j]).0 == *chat_id;
                        assert(false);
                    }
                    assert forall|a: Seq<char>| !self.registered(*chat_id, a) by {
                        if chat_maps(s, *chat_id, a) {
                            let j = choose|j: int|
                                0 <= j < s.len() && (#[trigger] s[j]).0 == *chat_id && contains_str(
                                    s[j].1@,
                                    a,
                                );
                        }
                    }
                }
                None
            },
        }
    }

    /// All chats watching `addr`, duplicate-free, or `None` for an address
    /// the registry has never seen.
    pub fn chat_ids<'a>(&'a self, addr: &String) -> (r: Option<&'a Vec<ChatId>>)
        requires
            self.wf(),
        ensures
            r is Some <==> self.has_addr_entry(addr@),
            match r {
                Some(v) => dupfree_chats(v@) && (forall|c: ChatId|
                    #[trigger] v@.contains(c) <==> self.registered(c, addr@)),
                None => forall|c: ChatId| !self.registered(c, addr@),
            },
    {
        match find_addr_entry(&self.addr_to_chatids, addr) {
            Some(i) => {
                proof {
                    let s = self.addr_to_chatids@;
                    assert forall|c: ChatId| #[trigger] s[i as int].1@.contains(c)
                        implies self.registered(c, addr@) by {
                        assert(addr_maps(s, addr@, c));
                        assert(self.indexed(c, addr@));
                    }
                    assert forall|c: ChatId| self.registered(c, addr@)
                        implies #[trigger] s[i as int].1@.contains(c) by {
                        assert(self.indexed(c, addr@));
                        let j = choose|j: int|
                            0 <= j < s.len() && (#[trigger] s[j]).0@ == addr@ && s[j].1@.contains(
                                c,
                            );
                        assert(j == i);
                    }
                }
                Some(&self.addr_to_chatids[i].1)
            },
            None => {
                proof {
                    let s = self.addr_to_chatids@;
                    if addr_key_exists(s, addr@) {
                        let j = choose|j: int| 0 <= j < s.len() && (#[trigger] s[j]).0@ == addr@;
                        assert(false);
                    }
                    assert forall|c: ChatId| !self.registered(c, addr@) by {
                        if addr_maps(s, addr@, c) {
                            let j = choose|j: int|
                                0 <= j < s.len() && (#[trigger] s[j]).0@ == addr@
                                    && s[j].1@.contains(c);
                        }
                        assert(!self.indexed(c, addr@));
                    }
                }
                None
            },
        }
    }
}

/// What one registration of a pair (`c`, `a`) leaves behind: the pair is
/// present, nothing else changed, and the result reports whether it was
/// new.
pub open spec fn register_addr_post(
    pre: Context,
    post: Context,
    c: ChatId,
    a: Seq<char>,
    r: bool,
) -> bool {
    &&& post.wf()
    &&& r == !pre.registered(c, a)
    &&& forall|c2: ChatId, a2: Seq<char>|
        #[trigger] post.registered(c2, a2) <==> (pre.registered(c2, a2) || (c2 == c && a2 == a))
    &&& forall|c2: ChatId| #[trigger] post.has_chat_entry(c2) <==> (pre.has_chat_entry(c2) || c2
        == c)
    &&& forall|a2: Seq<char>| #[trigger] post.has_addr_entry(a2) <==> (pre.has_addr_entry(a2)
        || a2 == a)
}

/// What one removal of a pair (`c`, `a`) leaves behind: the pair is gone,
/// nothing else changed, and the result reports whether it had existed.
pub open spec fn unregister_addr_post(
    pre: Context,
    post: Context,
    c: ChatId,
    a: Seq<char>,
    r: bool,
) -> bool {
    &&& post.wf()
    &&& r == pre.registered(c, a)
    &&& forall|c2: ChatId, a2: Seq<char>|
        #[trigger] post.registered(c2, a2) <==> (pre.registered(c2, a2) && !(c2 == c && a2 == a))
    &&& forall|c2: ChatId| #[trigger] post.has_chat_entry(c2) == pre.has_chat_entry(c2)
    &&& forall|a2: Seq<char>| #[trigger] post.has_addr_entry(a2) == pre.has_addr_entry(a2)
}

/// Registering the same (chat, address) pair twice reports a new
/// association at most once: whatever the first call returned, the second
/// returns `false`; on a pair that was absent the first returns `true`.
pub proof fn lemma_register_addr_twice(
    s0: Context,
    s1: Context,
    s2: Context,
    c: ChatId,
    a: Seq<char>,
    r1: bool,
    r2: bool,
)
    requires
        register_addr_post(s0, s1, c, a, r1),
        register_addr_post(s1, s2, c, a, r2),
    ensures
        r1 == !s0.registered(c, a),
        r2 == false,
{
    assert(s1.registered(c, a));
}

/// Unregistering the same (chat, address) pair twice succeeds at most
/// once: the second call always returns `false`; on a pair that was
/// present the first returns `true`.
pub proof fn lemma_unregister_addr_twice(
    s0: Context,
    s1: Context,
    s2: Context,
    c: ChatId,
    a: Seq<char>,
    r1: bool,
    r2: bool,
)
    requires
        unregister_addr_post(s0, s1, c, a, r1),
        unregister_addr_post(s1, s2, c, a, r2),
    ensures
        r1 == s0.registered(c, a),
        r2 == false,
{
    assert(!s1.registered(c, a));
}

/// Unregistering a pair right after registering it succeeds, and leaves
/// every association exactly as it was, minus that pair.
pub proof fn lemma_register_then_unregister(
    s0: Context,
    s1: Context,
    s2: Context,
    c: ChatId,
    a: Seq<char>,
    r1: bool,
    r2: bool,
)
    requires
        register_addr_post(s0, s1, c, a, r1),
        unregister_addr_post(s1, s2, c, a, r2),
    ensures
        r2 == true,
        forall|c2: ChatId, a2: Seq<char>|
            #[trigger] s2.registered(c2, a2) <==> (s0.registered(c2, a2) && !(c2 == c && a2 == a)),
{
    assert(s1.registered(c, a));
}

impl Context {
    /// The set of addresses `addrs` reports for chat `c`.
    pub open spec fn addrs_of(self, c: ChatId) -> Set<Seq<char>> {
        Set::new(|a: Seq<char>| self.registered(c, a))
    }

    /// The set of chats `chat_ids` reports for address `a`.
    pub open spec fn chats_of(self, a: Seq<char>) -> Set<ChatId> {
        Set::new(|c: ChatId| self.indexed(c, a))
    }
}

/// The two lookup directions stay mutually consistent in every
/// well-formed state — and every operation of `Context` preserves
/// well-formedness, so this holds under any sequence of register and
/// unregister calls: an address is among a chat's addresses exactly when
/// the chat is among the address's chats.
pub proof fn lemma_registry_consistent(s: Context, c: ChatId, a: Seq<char>)
    requires
        s.wf(),
    ensures
        s.addrs_of(c).contains(a) <==> s.chats_of(a).contains(c),
{
    assert(s.registered(c, a) <==> s.indexed(c, a));
}

/// The address registry of `post` reports exactly what `pre`'s does.
pub open spec fn same_registry(pre: Context, post: Context) -> bool {
    &&& forall|c: ChatId, a: Seq<char>| #[trigger] post.registered(c, a) == pre.registered(c, a)
    &&& forall|c: ChatId| #[trigger] post.has_chat_entry(c) == pre.has_chat_entry(c)
    &&& forall|a: Seq<char>| #[trigger] post.has_addr_entry(a) == pre.has_addr_entry(a)
}

/// What one upsert of a credential leaves behind: the new token under an
/// empty user name for `u`, every other user untouched.
pub open spec fn register_credential_post(
    pre: Context,
    post: Context,
    u: UserId,
    token: Seq<char>,
) -> bool {
    &&& post.wf()
    &&& post.credential(u) == (Some(
        GitlabUserView { username: Seq::<char>::empty(), token: token },
    ))
    &&& forall|u2: UserId| u2 != u ==> post.credential(u2) == pre.credential(u2)
}

/// Registering a credential for the same user twice with different tokens
/// leaves only the latest token retrievable; other users keep what they
/// had.
pub proof fn lemma_latest_credential_wins(
    s0: Context,
    s1: Context,
    s2: Context,
    u: UserId,
    t1: Seq<char>,
    t2: Seq<char>,
)
    requires
        register_credential_post(s0, s1, u, t1),
        register_credential_post(s1, s2, u, t2),
    ensures
        s2.credential(u) == (Some(GitlabUserView { username: Seq::<char>::empty(), token: t2 })),
        forall|u2: UserId| u2 != u ==> s2.credential(u2) == s0.credential(u2),
{
}

} // verus!
