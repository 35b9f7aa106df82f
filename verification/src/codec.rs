//! The persistence format: sessions and provider configurations as compact
//! structured text, with a writer, a reader, and the proof that reading
//! undoes writing.

use vstd::prelude::*;
use crate::model::{Api, ApiModel, Message, MessageModel, Role, Session, SessionModel};
use crate::model::chars_of_str;
use crate::num::{dec_rep, is_digit, p_dec, parse_dec, lemma_dec_rt};
use crate::span::{at_pos, lemma_at_pos_index, lemma_at_pos_split, lemma_lit_rt, p_lit, parse_lit};
use crate::text::{json_string, p_string, parse_string, push_json_string, lemma_string_rt};

verus! {

// ---------------------------------------------------------------------------
// The format, as written
// ---------------------------------------------------------------------------
/// The word a sender role is stored as.
pub open spec fn role_rep(r: Role) -> Seq<char> {
    match r {
        Role::User => "user"@,
        Role::Assistant => "API"@,
        Role::System => "system"@,
    }
}

/// One message record.
pub open spec fn json_message(m: MessageModel) -> Seq<char> {
    "{\"sender\":"@ + json_string(role_rep(m.sender)) + ",\"content\":"@ + json_string(m.content)
        + seq!['}']
}

/// The remaining message records of a list, each preceded by a comma.
pub open spec fn json_messages_tail(ms: Seq<MessageModel>) -> Seq<char>
    decreases ms.len(),
{
    if ms.len() == 0 {
        Seq::empty()
    } else {
        seq![','] + json_message(ms[0]) + json_messages_tail(ms.skip(1))
    }
}

/// A message list record.
pub open spec fn json_messages(ms: Seq<MessageModel>) -> Seq<char> {
    if ms.len() == 0 {
        seq!['['] + seq![']']
    } else {
        seq!['['] + json_message(ms[0]) + json_messages_tail(ms.skip(1)) + seq![']']
    }
}

/// One session record.
pub open spec fn json_session(x: SessionModel) -> Seq<char> {
    "{\"id\":"@ + dec_rep(x.id as nat) + ",\"name\":"@ + json_string(x.name) + ",\"messages\":"@
        + json_messages(x.messages) + seq!['}']
}

/// The remaining session records of a list, each preceded by a comma.
pub open spec fn json_sessions_tail(ss: Seq<SessionModel>) -> Seq<char>
    decreases ss.len(),
{
    if ss.len() == 0 {
        Seq::empty()
    } else {
        seq![','] + json_session(ss[0]) + json_sessions_tail(ss.skip(1))
    }
}

/// The whole session collection record.
pub open spec fn json_sessions(ss: Seq<SessionModel>) -> Seq<char> {
    if ss.len() == 0 {
        seq!['['] + seq![']']
    } else {
        seq!['['] + json_session(ss[0]) + json_sessions_tail(ss.skip(1)) + seq![']']
    }
}

/// One provider record.
pub open spec fn json_api(a: ApiModel) -> Seq<char> {
    "{\"api_name\":"@ + json_string(a.api_name) + ",\"api_url\":"@ + json_string(a.api_url)
        + ",\"api_key\":"@ + json_string(a.api_key) + ",\"model\":"@ + json_string(a.model)
        + seq!['}']
}

/// The remaining provider records of a list, each preceded by a comma.
pub open spec fn json_apis_tail(aa: Seq<ApiModel>) -> Seq<char>
    decreases aa.len(),
{
    if aa.len() == 0 {
        Seq::empty()
    } else {
        seq![','] + json_api(aa[0]) + json_apis_tail(aa.skip(1))
    }
}

/// The whole provider collection record.
pub open spec fn json_apis(aa: Seq<ApiModel>) -> Seq<char> {
    if aa.len() == 0 {
        seq!['['] + seq![']']
    } else {
        seq!['['] + json_api(aa[0]) + json_apis_tail(aa.skip(1)) + seq![']']
    }
}

// ---------------------------------------------------------------------------
// The format, as read
// ---------------------------------------------------------------------------
/// The role a stored word stands for.
pub open spec fn role_of(w: Seq<char>) -> Option<Role> {
    if w == "user"@ {
        Some(Role::User)
    } else if w == "API"@ {
        Some(Role::Assistant)
    } else if w == "system"@ {
        Some(Role::System)
    } else {
        None
    }
}

/// Consumes one message record at `i`.
pub open spec fn p_message(s: Seq<char>, i: int) -> Option<(MessageModel, int)> {
    match p_lit(s, i, "{\"sender\":"@) {
        None => None,
        Some(j1) => match p_string(s, j1) {
            None => None,
            Some((w, j2)) => match role_of(w) {
                None => None,
                Some(role) => match p_lit(s, j2, ",\"content\":"@) {
                    None => None,
                    Some(j3) => match p_string(s, j3) {
                        None => None,
                        Some((content, j4)) => if j4 < s.len() && s[j4] == '}' {
                            Some((MessageModel { sender: role, content }, j4 + 1))
                        } else {
                            None
                        },
                    },
                },
            },
        },
    }
}

/// Consumes the remaining message records of a list, closed by `]`.
pub open spec fn p_messages_tail(s: Seq<char>, i: int, acc: Seq<MessageModel>) -> Option<
    (Seq<MessageModel>, int),
>
    decreases s.len() - i,
{
    if i < 0 || i >= s.len() {
        None
    } else if s[i] == ']' {
        Some((acc, i + 1))
    } else if s[i] == ',' {
        match p_message(s, i + 1) {
            None => None,
            Some((m, j)) => if j <= i + 1 || j > s.len() {
                None
            } else {
                p_messages_tail(s, j, acc.push(m))
            },
        }
    } else {
        None
    }
}

/// Consumes a whole message list record at `i`.
pub open spec fn p_messages(s: Seq<char>, i: int) -> Option<(Seq<MessageModel>, int)> {
    if 0 <= i < s.len() && s[i] == '[' {
        let j = i + 1;
        if j < s.len() && s[j] == ']' {
            Some((Seq::empty(), j + 1))
        } else {
            match p_message(s, j) {
                None => None,
                Some((m, j2)) => if j2 <= j || j2 > s.len() {
                    None
                } else {
                    p_messages_tail(s, j2, seq![m])
                },
            }
        }
    } else {
        None
    }
}

/// Consumes one session record at `i`.
pub open spec fn p_session(s: Seq<char>, i: int) -> Option<(SessionModel, int)> {
    match p_lit(s, i, "{\"id\":"@) {
        None => None,
        Some(j1) => match p_dec(s, j1) {
            None => None,
            Some((n, j2)) => match p_lit(s, j2, ",\"name\":"@) {
                None => None,
                Some(j3) => match p_string(s, j3) {
                    None => None,
                    Some((name, j4)) => match p_lit(s, j4, ",\"messages\":"@) {
                        None => None,
                        Some(j5) => match p_messages(s, j5) {
                            None => None,
                            Some((ms, j6)) => if j6 < s.len() && s[j6] == '}' {
                                Some((SessionModel { id: n as usize, name, messages: ms }, j6 + 1))
                            } else {
                                None
                            },
                        },
                    },
                },
            },
        },
    }
}

/// Consumes the remaining session records of a list, closed by `]`.
pub open spec fn p_sessions_tail(s: Seq<char>, i: int, acc: Seq<SessionModel>) -> Option<
    (Seq<SessionModel>, int),
>
    decreases s.len() - i,
{
    if i < 0 || i >= s.len() {
        None
    } else if s[i] == ']' {
        Some((acc, i + 1))
    } else if s[i] == ',' {
        match p_session(s, i + 1) {
            None => None,
            Some((x, j)) => if j <= i + 1 || j > s.len() {
                None
            } else {
                p_sessions_tail(s, j, acc.push(x))
            },
        }
    } else {
        None
    }
}

/// Consumes a whole session collection record at `i`.
pub open spec fn p_sessions(s: Seq<char>, i: int) -> Option<(Seq<SessionModel>, int)> {
    if 0 <= i < s.len() && s[i] == '[' {
        let j = i + 1;
        if j < s.len() && s[j] == ']' {
            Some((Seq::empty(), j + 1))
        } else {
            match p_session(s, j) {
                None => None,
                Some((x, j2)) => if j2 <= j || j2 > s.len() {
                    None
                } else {
                    p_sessions_tail(s, j2, seq![x])
                },
            }
        }
    } else {
        None
    }
}

/// Consumes one provider record at `i`.
pub open spec fn p_api(s: Seq<char>, i: int) -> Option<(ApiModel, int)> {
    match p_lit(s, i, "{\"api_name\":"@) {
        None => None,
        Some(j1) => match p_string(s, j1) {
            None => None,
            Some((api_name, j2)) => match p_lit(s, j2, ",\"api_url\":"@) {
                None => None,
                Some(j3) => match p_string(s, j3) {
                    None => None,
                    Some((api_url, j4)) => match p_lit(s, j4, ",\"api_key\":"@) {
                        None => None,
                        Some(j5) => match p_string(s, j5) {
                            None => None,
                            Some((api_key, j6)) => match p_lit(s, j6, ",\"model\":"@) {
                                None => None,
                                Some(j7) => match p_string(s, j7) {
                                    None => None,
                                    Some((model, j8)) => if j8 < s.len() && s[j8] == '}' {
                                        Some(
                                            (
                                                ApiModel { api_name, api_url, api_key, model },
                                                j8 + 1,
                                            ),
                                        )
                                    } else {
                                        None
                                    },
                                },
                            },
                        },
                    },
                },
            },
        },
    }
}

/// Consumes the remaining provider records of a list, closed by `]`.
pub open spec fn p_apis_tail(s: Seq<char>, i: int, acc: Seq<ApiModel>) -> Option<
    (Seq<ApiModel>, int),
>
    decreases s.len() - i,
{
    if i < 0 || i >= s.len() {
        None
    } else if s[i] == ']' {
        Some((acc, i + 1))
    } else if s[i] == ',' {
        match p_api(s, i + 1) {
            None => None,
            Some((a, j)) => if j <= i + 1 || j > s.len() {
                None
            } else {
                p_apis_tail(s, j, acc.push(a))
            },
        }
    } else {
        None
    }
}

/// Consumes a whole provider collection record at `i`.
pub open spec fn p_apis(s: Seq<char>, i: int) -> Option<(Seq<ApiModel>, int)> {
    if 0 <= i < s.len() && s[i] == '[' {
        let j = i + 1;
        if j < s.len() && s[j] == ']' {
            Some((Seq::empty(), j + 1))
        } else {
            match p_api(s, j) {
                None => None,
                Some((a, j2)) => if j2 <= j || j2 > s.len() {
                    None
                } else {
                    p_apis_tail(s, j2, seq![a])
                },
            }
        }
    } else {
        None
    }
}

/// What a session collection text means: the collection it holds, provided
/// the text is one whole record and nothing more.
pub open spec fn sessions_of_text(s: Seq<char>) -> Option<Seq<SessionModel>> {
    match p_sessions(s, 0) {
        None => None,
        Some((ss, end)) => if end == s.len() {
            Some(ss)
        } else {
            None
        },
    }
}

/// What a provider collection text means.
pub open spec fn apis_of_text(s: Seq<char>) -> Option<Seq<ApiModel>> {
    match p_apis(s, 0) {
        None => None,
        Some((aa, end)) => if end == s.len() {
            Some(aa)
        } else {
            None
        },
    }
}

// ---------------------------------------------------------------------------
// Reading undoes writing
// ---------------------------------------------------------------------------
proof fn lemma_role_of_rep(r: Role)
    ensures
        role_of(role_rep(r)) == Some(r),
{
    reveal_strlit("user");
    reveal_strlit("API");
    reveal_strlit("system");
    assert("API"@.len() == 3 && "user"@.len() == 4 && "system"@.len() == 6);
    match r {
        Role::User => {
            assert(role_of(role_rep(r)) == Some(r));
        },
        Role::Assistant => {
            assert(role_rep(r) != "user"@);
            assert(role_of(role_rep(r)) == Some(r));
        },
        Role::System => {
            assert(role_rep(r) != "user"@ && role_rep(r) != "API"@);
            assert(role_of(role_rep(r)) == Some(r));
        },
    }
}

proof fn lemma_message_rt(s: Seq<char>, i: int, m: MessageModel)
    requires
        at_pos(s, i, json_message(m)),
    ensures
        p_message(s, i) == Some((m, i + json_message(m).len() as int)),
        json_message(m).len() >= 1,
{
    let l1 = "{\"sender\":"@;
    let w = json_string(role_rep(m.sender));
    let l2 = ",\"content\":"@;
    let c = json_string(m.content);
    reveal_strlit("{\"sender\":");
    reveal_strlit(",\"content\":");
    assert(json_message(m) =~= l1 + (w + (l2 + (c + seq!['}']))));
    lemma_at_pos_split(s, i, l1, w + (l2 + (c + seq!['}'])));
    lemma_lit_rt(s, i, l1);
    let j1 = i + l1.len() as int;
    lemma_at_pos_split(s, j1, w, l2 + (c + seq!['}']));
    lemma_string_rt(s, j1, role_rep(m.sender));
    let j2 = j1 + w.len() as int;
    lemma_at_pos_split(s, j2, l2, c + seq!['}']);
    lemma_lit_rt(s, j2, l2);
    let j3 = j2 + l2.len() as int;
    lemma_at_pos_split(s, j3, c, seq!['}']);
    lemma_string_rt(s, j3, m.content);
    let j4 = j3 + c.len() as int;
    lemma_at_pos_index(s, j4, seq!['}'], 0);
    lemma_role_of_rep(m.sender);
    assert(p_message(s, i) == Some((MessageModel { sender: m.sender, content: m.content }, j4 + 1)));
    assert(MessageModel { sender: m.sender, content: m.content } == m);
}

proof fn lemma_messages_tail_rt(s: Seq<char>, i: int, ms: Seq<MessageModel>, acc: Seq<MessageModel>)
    requires
        at_pos(s, i, json_messages_tail(ms) + seq![']']),
    ensures
        p_messages_tail(s, i, acc) == Some(
            (acc + ms, i + json_messages_tail(ms).len() + 1 as int),
        ),
    decreases ms.len(),
{
    if ms.len() == 0 {
        assert(json_messages_tail(ms) + seq![']'] =~= seq![']']);
        lemma_at_pos_index(s, i, seq![']'], 0);
        assert(s[i] == ']');
        assert(acc + ms =~= acc);
    } else {
        let jm = json_message(ms[0]);
        let rest = ms.skip(1);
        assert(json_messages_tail(ms) + seq![']'] =~= seq![','] + (jm + (json_messages_tail(rest)
            + seq![']'])));
        lemma_at_pos_split(s, i, seq![','], jm + (json_messages_tail(rest) + seq![']']));
        lemma_at_pos_index(s, i, seq![','], 0);
        assert(s[i] == ',');
        lemma_at_pos_split(s, i + 1, jm, json_messages_tail(rest) + seq![']']);
        lemma_message_rt(s, i + 1, ms[0]);
        let j = i + 1 + jm.len() as int;
        lemma_messages_tail_rt(s, j, rest, acc.push(ms[0]));
        assert(acc.push(ms[0]) + rest =~= acc + ms);
    }
}

proof fn lemma_messages_rt(s: Seq<char>, i: int, ms: Seq<MessageModel>)
    requires
        at_pos(s, i, json_messages(ms)),
    ensures
        p_messages(s, i) == Some((ms, i + json_messages(ms).len() as int)),
        json_messages(ms).len() >= 2,
{
    if ms.len() == 0 {
        assert(json_messages(ms) =~= seq!['[', ']']);
        lemma_at_pos_index(s, i, json_messages(ms), 0);
        lemma_at_pos_index(s, i, json_messages(ms), 1);
        assert(s[i] == '[' && s[i + 1] == ']');
        assert(p_messages(s, i) == Some((Seq::<MessageModel>::empty(), i + 2)));
    } else {
        let jm = json_message(ms[0]);
        let rest = ms.skip(1);
        reveal_strlit("{\"sender\":");
        assert(json_messages(ms) =~= seq!['['] + (jm + (json_messages_tail(rest) + seq![']'])));
        lemma_at_pos_split(s, i, seq!['['], jm + (json_messages_tail(rest) + seq![']']));
        lemma_at_pos_index(s, i, seq!['['], 0);
        assert(s[i] == '[');
        let j = i + 1;
        lemma_at_pos_split(s, j, jm, json_messages_tail(rest) + seq![']']);
        lemma_message_rt(s, j, ms[0]);
        assert(jm[0] == "{\"sender\":"@[0]);
        lemma_at_pos_index(s, j, jm, 0);
        assert(s[j] == '{');
        let j2 = j + jm.len() as int;
        lemma_messages_tail_rt(s, j2, rest, seq![ms[0]]);
        assert(seq![ms[0]] + rest =~= ms);
    }
}

proof fn lemma_session_rt(s: Seq<char>, i: int, x: SessionModel)
    requires
        at_pos(s, i, json_session(x)),
    ensures
        p_session(s, i) == Some((x, i + json_session(x).len() as int)),
        json_session(x).len() >= 1,
{
    let l1 = "{\"id\":"@;
    let d = dec_rep(x.id as nat);
    let l2 = ",\"name\":"@;
    let nm = json_string(x.name);
    let l3 = ",\"messages\":"@;
    let mm = json_messages(x.messages);
    reveal_strlit("{\"id\":");
    reveal_strlit(",\"name\":");
    reveal_strlit(",\"messages\":");
    assert(json_session(x) =~= l1 + (d + (l2 + (nm + (l3 + (mm + seq!['}']))))));
    lemma_at_pos_split(s, i, l1, d + (l2 + (nm + (l3 + (mm + seq!['}'])))));
    lemma_lit_rt(s, i, l1);
    let j1 = i + l1.len() as int;
    lemma_at_pos_split(s, j1, d, l2 + (nm + (l3 + (mm + seq!['}']))));
    let j2 = j1 + d.len() as int;
    lemma_at_pos_split(s, j2, l2, nm + (l3 + (mm + seq!['}'])));
    lemma_at_pos_index(s, j2, l2, 0);
    assert(s[j2] == ',');
    assert(!is_digit(','));
    lemma_dec_rt(s, j1, x.id);
    lemma_lit_rt(s, j2, l2);
    let j3 = j2 + l2.len() as int;
    lemma_at_pos_split(s, j3, nm, l3 + (mm + seq!['}']));
    lemma_string_rt(s, j3, x.name);
    let j4 = j3 + nm.len() as int;
    lemma_at_pos_split(s, j4, l3, mm + seq!['}']);
    lemma_lit_rt(s, j4, l3);
    let j5 = j4 + l3.len() as int;
    lemma_at_pos_split(s, j5, mm, seq!['}']);
    lemma_messages_rt(s, j5, x.messages);
    let j6 = j5 + mm.len() as int;
    lemma_at_pos_index(s, j6, seq!['}'], 0);
    assert(s[j6] == '}');
    assert((x.id as nat) as usize == x.id);
    assert(p_session(s, i) == Some(
        (SessionModel { id: x.id, name: x.name, messages: x.messages }, j6 + 1),
    ));
    assert(SessionModel { id: x.id, name: x.name, messages: x.messages } == x);
}

#[verifier::rlimit(60)]
proof fn lemma_sessions_tail_rt(s: Seq<char>, i: int, ss: Seq<SessionModel>, acc: Seq<SessionModel>)
    requires
        at_pos(s, i, json_sessions_tail(ss) + seq![']']),
    ensures
        p_sessions_tail(s, i, acc) == Some(
            (acc + ss, i + json_sessions_tail(ss).len() + 1 as int),
        ),
    decreases ss.len(),
{
    if ss.len() == 0 {
        assert(json_sessions_tail(ss) + seq![']'] =~= seq![']']);
        lemma_at_pos_index(s, i, seq![']'], 0);
        assert(s[i] == ']');
        assert(acc + ss =~= acc);
    } else {
        let js = json_session(ss[0]);
        let rest = ss.skip(1);
        assert(json_sessions_tail(ss) + seq![']'] =~= seq![','] + (js + (json_sessions_tail(rest)
            + seq![']'])));
        lemma_at_pos_split(s, i, seq![','], js + (json_sessions_tail(rest) + seq![']']));
        lemma_at_pos_index(s, i, seq![','], 0);
        assert(s[i] == ',');
        lemma_at_pos_split(s, i + 1, js, json_sessions_tail(rest) + seq![']']);
        lemma_session_rt(s, i + 1, ss[0]);
        let j = i + 1 + js.len() as int;
        lemma_sessions_tail_rt(s, j, rest, acc.push(ss[0]));
        assert(acc.push(ss[0]) + rest =~= acc + ss);
    }
}

#[verifier::rlimit(60)]
proof fn lemma_sessions_rt(s: Seq<char>, i: int, ss: Seq<SessionModel>)
    requires
        at_pos(s, i, json_sessions(ss)),
    ensures
        p_sessions(s, i) == Some((ss, i + json_sessions(ss).len() as int)),
{
    if ss.len() == 0 {
        assert(json_sessions(ss) =~= seq!['[', ']']);
        lemma_at_pos_index(s, i, json_sessions(ss), 0);
        lemma_at_pos_index(s, i, json_sessions(ss), 1);
        assert(s[i] == '[' && s[i + 1] == ']');
    } else {
        let js = json_session(ss[0]);
        let rest = ss.skip(1);
        reveal_strlit("{\"id\":");
        assert(json_sessions(ss) =~= seq!['['] + (js + (json_sessions_tail(rest) + seq![']'])));
        lemma_at_pos_split(s, i, seq!['['], js + (json_sessions_tail(rest) + seq![']']));
        lemma_at_pos_index(s, i, seq!['['], 0);
        assert(s[i] == '[');
        let j = i + 1;
        lemma_at_pos_split(s, j, js, json_sessions_tail(rest) + seq![']']);
        lemma_session_rt(s, j, ss[0]);
        assert(js[0] == "{\"id\":"@[0]);
        lemma_at_pos_index(s, j, js, 0);
        assert(s[j] == '{');
        let j2 = j + js.len() as int;
        lemma_sessions_tail_rt(s, j2, rest, seq![ss[0]]);
        assert(seq![ss[0]] + rest =~= ss);
    }
}

proof fn lemma_api_rt(s: Seq<char>, i: int, a: ApiModel)
    requires
        at_pos(s, i, json_api(a)),
    ensures
        p_api(s, i) == Some((a, i + json_api(a).len() as int)),
        json_api(a).len() >= 1,
{
    let l1 = "{\"api_name\":"@;
    let w1 = json_string(a.api_name);
    let l2 = ",\"api_url\":"@;
    let w2 = json_string(a.api_url);
    let l3 = ",\"api_key\":"@;
    let w3 = json_string(a.api_key);
    let l4 = ",\"model\":"@;
    let w4 = json_string(a.model);
    reveal_strlit("{\"api_name\":");
    reveal_strlit(",\"api_url\":");
    reveal_strlit(",\"api_key\":");
    reveal_strlit(",\"model\":");
    assert(json_api(a) =~= l1 + (w1 + (l2 + (w2 + (l3 + (w3 + (l4 + (w4 + seq!['}']))))))));
    lemma_at_pos_split(s, i, l1, w1 + (l2 + (w2 + (l3 + (w3 + (l4 + (w4 + seq!['}'])))))));
    lemma_lit_rt(s, i, l1);
    let j1 = i + l1.len() as int;
    lemma_at_pos_split(s, j1, w1, l2 + (w2 + (l3 + (w3 + (l4 + (w4 + seq!['}']))))));
    lemma_string_rt(s, j1, a.api_name);
    let j2 = j1 + w1.len() as int;
    lemma_at_pos_split(s, j2, l2, w2 + (l3 + (w3 + (l4 + (w4 + seq!['}'])))));
    lemma_lit_rt(s, j2, l2);
    let j3 = j2 + l2.len() as int;
    lemma_at_pos_split(s, j3, w2, l3 + (w3 + (l4 + (w4 + seq!['}']))));
    lemma_string_rt(s, j3, a.api_url);
    let j4 = j3 + w2.len() as int;
    lemma_at_pos_split(s, j4, l3, w3 + (l4 + (w4 + seq!['}'])));
    lemma_lit_rt(s, j4, l3);
    let j5 = j4 + l3.len() as int;
    lemma_at_pos_split(s, j5, w3, l4 + (w4 + seq!['}']));
    lemma_string_rt(s, j5, a.api_key);
    let j6 = j5 + w3.len() as int;
    lemma_at_pos_split(s, j6, l4, w4 + seq!['}']);
    lemma_lit_rt(s, j6, l4);
    let j7 = j6 + l4.len() as int;
    lemma_at_pos_split(s, j7, w4, seq!['}']);
    lemma_string_rt(s, j7, a.model);
    let j8 = j7 + w4.len() as int;
    lemma_at_pos_index(s, j8, seq!['}'], 0);
    assert(p_api(s, i) == Some(
        (
            ApiModel {
                api_name: a.api_name,
                api_url: a.api_url,
                api_key: a.api_key,
                model: a.model,
            },
            j8 + 1,
        ),
    ));
    assert(ApiModel {
        api_name: a.api_name,
        api_url: a.api_url,
        api_key: a.api_key,
        model: a.model,
    } == a);
}

#[verifier::rlimit(60)]
proof fn lemma_apis_tail_rt(s: Seq<char>, i: int, aa: Seq<ApiModel>, acc: Seq<ApiModel>)
    requires
        at_pos(s, i, json_apis_tail(aa) + seq![']']),
    ensures
        p_apis_tail(s, i, acc) == Some((acc + aa, i + json_apis_tail(aa).len() + 1 as int)),
    decreases aa.len(),
{
    if aa.len() == 0 {
        assert(json_apis_tail(aa) + seq![']'] =~= seq![']']);
        lemma_at_pos_index(s, i, seq![']'], 0);
        assert(s[i] == ']');
        assert(acc + aa =~= acc);
    } else {
        let ja = json_api(aa[0]);
        let rest = aa.skip(1);
        assert(json_apis_tail(aa) + seq![']'] =~= seq![','] + (ja + (json_apis_tail(rest)
            + seq![']'])));
        lemma_at_pos_split(s, i, seq![','], ja + (json_apis_tail(rest) + seq![']']));
        lemma_at_pos_index(s, i, seq![','], 0);
        assert(s[i] == ',');
        lemma_at_pos_split(s, i + 1, ja, json_apis_tail(rest) + seq![']']);
        lemma_api_rt(s, i + 1, aa[0]);
        let j = i + 1 + ja.len() as int;
        lemma_apis_tail_rt(s, j, rest, acc.push(aa[0]));
        assert(acc.push(aa[0]) + rest =~= acc + aa);
    }
}

#[verifier::rlimit(60)]
proof fn lemma_apis_rt(s: Seq<char>, i: int, aa: Seq<ApiModel>)
    requires
        at_pos(s, i, json_apis(aa)),
    ensures
        p_apis(s, i) == Some((aa, i + json_apis(aa).len() as int)),
{
    if aa.len() == 0 {
        assert(json_apis(aa) =~= seq!['[', ']']);
        lemma_at_pos_index(s, i, json_apis(aa), 0);
        lemma_at_pos_index(s, i, json_apis(aa), 1);
        assert(s[i] == '[' && s[i + 1] == ']');
    } else {
        let ja = json_api(aa[0]);
        let rest = aa.skip(1);
        reveal_strlit("{\"api_name\":");
        assert(json_apis(aa) =~= seq!['['] + (ja + (json_apis_tail(rest) + seq![']'])));
        lemma_at_pos_split(s, i, seq!['['], ja + (json_apis_tail(rest) + seq![']']));
        lemma_at_pos_index(s, i, seq!['['], 0);
        assert(s[i] == '[');
        let j = i + 1;
        lemma_at_pos_split(s, j, ja, json_apis_tail(rest) + seq![']']);
        lemma_api_rt(s, j, aa[0]);
        assert(ja[0] == "{\"api_name\":"@[0]);
        lemma_at_pos_index(s, j, ja, 0);
        assert(s[j] == '{');
        let j2 = j + ja.len() as int;
        lemma_apis_tail_rt(s, j2, rest, seq![aa[0]]);
        assert(seq![aa[0]] + rest =~= aa);
    }
}

/// Writing a session collection and reading the text back yields the same
/// collection: ordinal ids, names and message sequences all preserved.
pub proof fn lemma_sessions_round_trip(ss: Seq<SessionModel>)
    ensures
        sessions_of_text(json_sessions(ss)) == Some(ss),
{
    let s = json_sessions(ss);
    assert(at_pos(s, 0, s));
    lemma_sessions_rt(s, 0, ss);
}

/// Writing a provider collection and reading the text back yields the same
/// collection.
pub proof fn lemma_apis_round_trip(aa: Seq<ApiModel>)
    ensures
        apis_of_text(json_apis(aa)) == Some(aa),
{
    let s = json_apis(aa);
    assert(at_pos(s, 0, s));
    lemma_apis_rt(s, 0, aa);
}

// ---------------------------------------------------------------------------
// The writer
// ---------------------------------------------------------------------------
fn push_lit(out: &mut Vec<char>, lit: &str)
    ensures
        final(out)@ == old(out)@ + lit@,
{
    let mut l = chars_of_str(lit);
    out.append(&mut l);
}

fn role_chars(r: Role) -> (v: Vec<char>)
    ensures
        v@ == role_rep(r),
{
    match r {
        Role::User => chars_of_str("user"),
        Role::Assistant => chars_of_str("API"),
        Role::System => chars_of_str("system"),
    }
}

fn write_message(out: &mut Vec<char>, m: &Message)
    ensures
        final(out)@ == old(out)@ + json_message(m.deep_view()),
{
    push_lit(out, "{\"sender\":");
    let rc = role_chars(m.sender);
    push_json_string(out, &rc);
    push_lit(out, ",\"content\":");
    push_json_string(out, &m.content);
    out.push('}');
    proof {
        assert(out@ =~= old(out)@ + json_message(m.deep_view()));
    }
}

fn write_messages_tail(out: &mut Vec<char>, ms: &Vec<Message>, k: usize)
    requires
        1 <= k <= ms@.len(),
    ensures
        final(out)@ == old(out)@ + json_messages_tail(ms.deep_view().skip(k as int)),
    decreases ms@.len() - k,
{
    if k < ms.len() {
        out.push(',');
        write_message(out, &ms[k]);
        write_messages_tail(out, ms, k + 1);
        proof {
            let dv = ms.deep_view();
            assert(dv.skip(k as int)[0] == dv[k as int]);
            assert(dv.skip(k as int).skip(1) =~= dv.skip(k + 1));
            assert(out@ =~= old(out)@ + json_messages_tail(dv.skip(k as int)));
        }
    } else {
        proof {
            assert(ms.deep_view().skip(k as int) =~= Seq::<MessageModel>::empty());
            assert(out@ =~= old(out)@ + json_messages_tail(ms.deep_view().skip(k as int)));
        }
    }
}

fn write_messages(out: &mut Vec<char>, ms: &Vec<Message>)
    ensures
        final(out)@ == old(out)@ + json_messages(ms.deep_view()),
{
    if ms.len() == 0 {
        out.push('[');
        out.push(']');
        proof {
            assert(out@ =~= old(out)@ + json_messages(ms.deep_view()));
        }
    } else {
        out.push('[');
        write_message(out, &ms[0]);
        write_messages_tail(out, ms, 1);
        out.push(']');
        proof {
            let dv = ms.deep_view();
            assert(dv[0] == ms@[0].deep_view());
            assert(out@ =~= old(out)@ + json_messages(dv));
        }
    }
}

fn write_session(out: &mut Vec<char>, x: &Session)
    ensures
        final(out)@ == old(out)@ + json_session(x.deep_view()),
{
    push_lit(out, "{\"id\":");
    crate::num::push_dec(out, x.id);
    push_lit(out, ",\"name\":");
    push_json_string(out, &x.name);
    push_lit(out, ",\"messages\":");
    write_messages(out, &x.messages);
    out.push('}');
    proof {
        assert(out@ =~= old(out)@ + json_session(x.deep_view()));
    }
}

fn write_sessions_tail(out: &mut Vec<char>, ss: &Vec<Session>, k: usize)
    requires
        1 <= k <= ss@.len(),
    ensures
        final(out)@ == old(out)@ + json_sessions_tail(ss.deep_view().skip(k as int)),
    decreases ss@.len() - k,
{
    if k < ss.len() {
        out.push(',');
        write_session(out, &ss[k]);
        write_sessions_tail(out, ss, k + 1);
        proof {
            let dv = ss.deep_view();
            assert(dv.skip(k as int)[0] == dv[k as int]);
            assert(dv.skip(k as int).skip(1) =~= dv.skip(k + 1));
            assert(out@ =~= old(out)@ + json_sessions_tail(dv.skip(k as int)));
        }
    } else {
        proof {
            assert(ss.deep_view().skip(k as int) =~= Seq::<SessionModel>::empty());
            assert(out@ =~= old(out)@ + json_sessions_tail(ss.deep_view().skip(k as int)));
        }
    }
}

/// Writes a session collection in the persistence format.
pub fn serialize_sessions(ss: &Vec<Session>) -> (out: Vec<char>)
    ensures
        out@ == json_sessions(ss.deep_view()),
{
    let mut out: Vec<char> = Vec::new();
    if ss.len() == 0 {
        out.push('[');
        out.push(']');
        proof {
            assert(out@ =~= json_sessions(ss.deep_view()));
        }
    } else {
        out.push('[');
        write_session(&mut out, &ss[0]);
        write_sessions_tail(&mut out, ss, 1);
        out.push(']');
        proof {
            let dv = ss.deep_view();
            assert(dv[0] == ss@[0].deep_view());
            assert(out@ =~= json_sessions(dv));
        }
    }
    out
}

fn write_api(out: &mut Vec<char>, a: &Api)
    ensures
        final(out)@ == old(out)@ + json_api(a.deep_view()),
{
    push_lit(out, "{\"api_name\":");
    push_json_string(out, &a.api_name);
    push_lit(out, ",\"api_url\":");
    push_json_string(out, &a.api_url);
    push_lit(out, ",\"api_key\":");
    push_json_string(out, &a.api_key);
    push_lit(out, ",\"model\":");
    push_json_string(out, &a.model);
    out.push('}');
    proof {
        assert(out@ =~= old(out)@ + json_api(a.deep_view()));
    }
}

fn write_apis_tail(out: &mut Vec<char>, aa: &Vec<Api>, k: usize)
    requires
        1 <= k <= aa@.len(),
    ensures
        final(out)@ == old(out)@ + json_apis_tail(aa.deep_view().skip(k as int)),
    decreases aa@.len() - k,
{
    if k < aa.len() {
        out.push(',');
        write_api(out, &aa[k]);
        write_apis_tail(out, aa, k + 1);
        proof {
            let dv = aa.deep_view();
            assert(dv.skip(k as int)[0] == dv[k as int]);
            assert(dv.skip(k as int).skip(1) =~= dv.skip(k + 1));
            assert(out@ =~= old(out)@ + json_apis_tail(dv.skip(k as int)));
        }
    } else {
        proof {
            assert(aa.deep_view().skip(k as int) =~= Seq::<ApiModel>::empty());
            assert(out@ =~= old(out)@ + json_apis_tail(aa.deep_view().skip(k as int)));
        }
    }
}

/// Writes a provider collection in the persistence format.
pub fn serialize_api_list(aa: &Vec<Api>) -> (out: Vec<char>)
    ensures
        out@ == json_apis(aa.deep_view()),
{
    let mut out: Vec<char> = Vec::new();
    if aa.len() == 0 {
        out.push('[');
        out.push(']');
        proof {
            assert(out@ =~= json_apis(aa.deep_view()));
        }
    } else {
        out.push('[');
        write_api(&mut out, &aa[0]);
        write_apis_tail(&mut out, aa, 1);
        out.push(']');
        proof {
            let dv = aa.deep_view();
            assert(dv[0] == aa@[0].deep_view());
            assert(out@ =~= json_apis(dv));
        }
    }
    out
}

// ---------------------------------------------------------------------------
// The reader
// ---------------------------------------------------------------------------
fn chars_eq_str(w: &Vec<char>, s: &str) -> (r: bool)
    ensures
        r <==> w@ == s@,
{
    let sc = chars_of_str(s);
    let n = sc.len();
    if w.len() != n {
        return false;
    }
    let mut k: usize = 0;
    while k < n
        invariant
            k <= n,
            n == sc@.len(),
            sc@ == s@,
            w@.len() == n,
            forall|t: int| 0 <= t < k ==> w@[t] == s@[t],
        decreases n - k,
    {
        if w[k] != sc[k] {
            proof {
                assert(w@ != s@) by {
                    assert(w@[k as int] != s@[k as int]);
                }
            }
            return false;
        }
        k += 1;
    }
    proof {
        assert(w@ =~= s@);
    }
    true
}

fn role_of_chars(w: &Vec<char>) -> (r: Option<Role>)
    ensures
        r == role_of(w@),
{
    if chars_eq_str(w, "user") {
        Some(Role::User)
    } else if chars_eq_str(w, "API") {
        Some(Role::Assistant)
    } else if chars_eq_str(w, "system") {
        Some(Role::System)
    } else {
        None
    }
}

fn parse_message(v: &Vec<char>, i: usize) -> (r: Option<(Message, usize)>)
    ensures
        match r {
            Some(p) => {
                &&& p_message(v@, i as int) == Some((p.0.deep_view(), p.1 as int))
                &&& p.1 <= v@.len()
            },
            None => p_message(v@, i as int) is None,
        },
{
    match parse_lit(v, i, "{\"sender\":") {
        None => None,
        Some(j1) => match parse_string(v, j1) {
            None => None,
            Some((w, j2)) => match role_of_chars(&w) {
                None => None,
                Some(role) => match parse_lit(v, j2, ",\"content\":") {
                    None => None,
                    Some(j3) => match parse_string(v, j3) {
                        None => None,
                        Some((content, j4)) => {
                            if j4 < v.len() && v[j4] == '}' {
                                Some((Message { sender: role, content }, j4 + 1))
                            } else {
                                None
                            }
                        },
                    },
                },
            },
        },
    }
}

fn parse_messages_tail(v: &Vec<char>, i: usize, acc: Vec<Message>) -> (r: Option<
    (Vec<Message>, usize),
>)
    ensures
        match r {
            Some(p) => {
                &&& p_messages_tail(v@, i as int, acc.deep_view()) == Some(
                    (p.0.deep_view(), p.1 as int),
                )
                &&& p.1 <= v@.len()
            },
            None => p_messages_tail(v@, i as int, acc.deep_view()) is None,
        },
    decreases v@.len() - i,
{
    if i >= v.len() {
        return None;
    }
    let c = v[i];
    if c == ']' {
        Some((acc, i + 1))
    } else if c == ',' {
        match parse_message(v, i + 1) {
            None => None,
            Some((m, j)) => {
                if j <= i + 1 {
                    None
                } else {
                    let mut acc2 = acc;
                    acc2.push(m);
                    proof {
                        assert(acc2.deep_view() =~= acc.deep_view().push(m.deep_view()));
                    }
                    parse_messages_tail(v, j, acc2)
                }
            },
        }
    } else {
        None
    }
}

fn parse_messages(v: &Vec<char>, i: usize) -> (r: Option<(Vec<Message>, usize)>)
    ensures
        match r {
            Some(p) => {
                &&& p_messages(v@, i as int) == Some((p.0.deep_view(), p.1 as int))
                &&& p.1 <= v@.len()
            },
            None => p_messages(v@, i as int) is None,
        },
{
    if i < v.len() && v[i] == '[' {
        let j = i + 1;
        if j < v.len() && v[j] == ']' {
            let empty: Vec<Message> = Vec::new();
            proof {
                assert(empty.deep_view() =~= Seq::<MessageModel>::empty());
            }
            Some((empty, j + 1))
        } else {
            match parse_message(v, j) {
                None => None,
                Some((m, j2)) => {
                    if j2 <= j {
                        None
                    } else {
                        let mut acc: Vec<Message> = Vec::new();
                        acc.push(m);
                        proof {
                            assert(acc.deep_view() =~= seq![m.deep_view()]);
                        }
                        parse_messages_tail(v, j2, acc)
                    }
                },
            }
        }
    } else {
        None
    }
}

fn parse_session(v: &Vec<char>, i: usize) -> (r: Option<(Session, usize)>)
    ensures
        match r {
            Some(p) => {
                &&& p_session(v@, i as int) == Some((p.0.deep_view(), p.1 as int))
                &&& p.1 <= v@.len()
            },
            None => p_session(v@, i as int) is None,
        },
{
    match parse_lit(v, i, "{\"id\":") {
        None => None,
        Some(j1) => match parse_dec(v, j1) {
            None => None,
            Some((n, j2)) => match parse_lit(v, j2, ",\"name\":") {
                None => None,
                Some(j3) => match parse_string(v, j3) {
                    None => None,
                    Some((name, j4)) => match parse_lit(v, j4, ",\"messages\":") {
                        None => None,
                        Some(j5) => match parse_messages(v, j5) {
                            None => None,
                            Some((ms, j6)) => {
                                if j6 < v.len() && v[j6] == '}' {
                                    Some((Session { id: n, name, messages: ms }, j6 + 1))
                                } else {
                                    None
                                }
                            },
                        },
                    },
                },
            },
        },
    }
}

fn parse_sessions_tail(v: &Vec<char>, i: usize, acc: Vec<Session>) -> (r: Option<
    (Vec<Session>, usize),
>)
    ensures
        match r {
            Some(p) => {
                &&& p_sessions_tail(v@, i as int, acc.deep_view()) == Some(
                    (p.0.deep_view(), p.1 as int),
                )
                &&& p.1 <= v@.len()
            },
            None => p_sessions_tail(v@, i as int, acc.deep_view()) is None,
        },
    decreases v@.len() - i,
{
    if i >= v.len() {
        return None;
    }
    let c = v[i];
    if c == ']' {
        Some((acc, i + 1))
    } else if c == ',' {
        match parse_session(v, i + 1) {
            None => None,
            Some((x, j)) => {
                if j <= i + 1 {
                    None
                } else {
                    let mut acc2 = acc;
                    acc2.push(x);
                    proof {
                        assert(acc2.deep_view() =~= acc.deep_view().push(x.deep_view()));
                    }
                    parse_sessions_tail(v, j, acc2)
                }
            },
        }
    } else {
        None
    }
}

fn parse_sessions_at(v: &Vec<char>, i: usize) -> (r: Option<(Vec<Session>, usize)>)
    ensures
        match r {
            Some(p) => {
                &&& p_sessions(v@, i as int) == Some((p.0.deep_view(), p.1 as int))
                &&& p.1 <= v@.len()
            },
            None => p_sessions(v@, i as int) is None,
        },
{
    if i < v.len() && v[i] == '[' {
        let j = i + 1;
        if j < v.len() && v[j] == ']' {
            let empty: Vec<Session> = Vec::new();
            proof {
                assert(empty.deep_view() =~= Seq::<SessionModel>::empty());
            }
            Some((empty, j + 1))
        } else {
            match parse_session(v, j) {
                None => None,
                Some((x, j2)) => {
                    if j2 <= j {
                        None
                    } else {
                        let mut acc: Vec<Session> = Vec::new();
                        acc.push(x);
                        proof {
                            assert(acc.deep_view() =~= seq![x.deep_view()]);
                        }
                        parse_sessions_tail(v, j2, acc)
                    }
                },
            }
        }
    } else {
        None
    }
}

/// Reads a session collection text back into a collection; `None` on any
/// text that the writer could not have produced.
pub fn parse_sessions(text: &Vec<char>) -> (r: Option<Vec<Session>>)
    ensures
        match r {
            Some(ss) => sessions_of_text(text@) == Some(ss.deep_view()),
            None => sessions_of_text(text@) is None,
        },
{
    match parse_sessions_at(text, 0) {
        None => None,
        Some((ss, end)) => {
            if end == text.len() {
                Some(ss)
            } else {
                None
            }
        },
    }
}

fn parse_api(v: &Vec<char>, i: usize) -> (r: Option<(Api, usize)>)
    ensures
        match r {
            Some(p) => {
                &&& p_api(v@, i as int) == Some((p.0.deep_view(), p.1 as int))
                &&& p.1 <= v@.len()
            },
            None => p_api(v@, i as int) is None,
        },
{
    match parse_lit(v, i, "{\"api_name\":") {
        None => None,
        Some(j1) => match parse_string(v, j1) {
            None => None,
            Some((api_name, j2)) => match parse_lit(v, j2, ",\"api_url\":") {
                None => None,
                Some(j3) => match parse_string(v, j3) {
                    None => None,
                    Some((api_url, j4)) => match parse_lit(v, j4, ",\"api_key\":") {
                        None => None,
                        Some(j5) => match parse_string(v, j5) {
                            None => None,
                            Some((api_key, j6)) => match parse_lit(v, j6, ",\"model\":") {
                                None => None,
                                Some(j7) => match parse_string(v, j7) {
                                    None => None,
                                    Some((model, j8)) => {
                                        if j8 < v.len() && v[j8] == '}' {
                                            Some(
                                                (
                                                    Api { api_name, api_url, api_key, model },
                                                    j8 + 1,
                                                ),
                                            )
                                        } else {
                                            None
                                        }
                                    },
                                },
                            },
                        },
                    },
                },
            },
        },
    }
}

fn parse_apis_tail(v: &Vec<char>, i: usize, acc: Vec<Api>) -> (r: Option<(Vec<Api>, usize)>)
    ensures
        match r {
            Some(p) => {
                &&& p_apis_tail(v@, i as int, acc.deep_view()) == Some(
                    (p.0.deep_view(), p.1 as int),
                )
                &&& p.1 <= v@.len()
            },
            None => p_apis_tail(v@, i as int, acc.deep_view()) is None,
        },
    decreases v@.len() - i,
{
    if i >= v.len() {
        return None;
    }
    let c = v[i];
    if c == ']' {
        Some((acc, i + 1))
    } else if c == ',' {
        match parse_api(v, i + 1) {
            None => None,
            Some((a, j)) => {
                if j <= i + 1 {
                    None
                } else {
                    let mut acc2 = acc;
                    acc2.push(a);
                    proof {
                        assert(acc2.deep_view() =~= acc.deep_view().push(a.deep_view()));
                    }
                    parse_apis_tail(v, j, acc2)
                }
            },
        }
    } else {
        None
    }
}

fn parse_apis_at(v: &Vec<char>, i: usize) -> (r: Option<(Vec<Api>, usize)>)
    ensures
        match r {
            Some(p) => {
                &&& p_apis(v@, i as int) == Some((p.0.deep_view(), p.1 as int))
                &&& p.1 <= v@.len()
            },
            None => p_apis(v@, i as int) is None,
        },
{
    if i < v.len() && v[i] == '[' {
        let j = i + 1;
        if j < v.len() && v[j] == ']' {
            let empty: Vec<Api> = Vec::new();
            proof {
                assert(empty.deep_view() =~= Seq::<ApiModel>::empty());
            }
            Some((empty, j + 1))
        } else {
            match parse_api(v, j) {
                None => None,
                Some((a, j2)) => {
                    if j2 <= j {
                        None
                    } else {
                        let mut acc: Vec<Api> = Vec::new();
                        acc.push(a);
                        proof {
                            assert(acc.deep_view() =~= seq![a.deep_view()]);
                        }
                        parse_apis_tail(v, j2, acc)
                    }
                },
            }
        }
    } else {
        None
    }
}

/// Reads a provider collection text back into a collection.
pub fn parse_api_list(text: &Vec<char>) -> (r: Option<Vec<Api>>)
    ensures
        match r {
            Some(aa) => apis_of_text(text@) == Some(aa.deep_view()),
            None => apis_of_text(text@) is None,
        },
{
    match parse_apis_at(text, 0) {
        None => None,
        Some((aa, end)) => {
            if end == text.len() {
                Some(aa)
            } else {
                None
            }
        },
    }
}

} // verus!
