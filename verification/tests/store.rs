//! The session store and provider registry, exercised on concrete values.

use chat_core::model::{Api, MyApp, Message, Role};

fn cs(s: &str) -> Vec<char> {
    s.chars().collect()
}

fn default_state() -> MyApp {
    MyApp::default()
}

#[test]
fn default_state_has_one_default_session() {
    let st = default_state();
    assert_eq!(st.sessions.len(), 1);
    assert_eq!(st.sessions[0].id, 0);
    assert_eq!(st.sessions[0].name, cs("Default Session"));
    assert!(st.sessions[0].messages.is_empty());
    assert_eq!(st.current_session_index, 0);
    assert!(st.api_list.is_empty());
    assert_eq!(st.selected_api_index, 0);
}

#[test]
fn create_session_grows_by_one_and_never_empties() {
    let mut st = default_state();
    for expected in 2..6usize {
        st.create_session(None);
        assert_eq!(st.sessions.len(), expected);
        assert!(!st.sessions.is_empty());
    }
}

#[test]
fn create_session_assigns_count_as_id_and_auto_name() {
    let mut st = default_state();
    st.create_session(None);
    assert_eq!(st.sessions[1].id, 1);
    assert_eq!(st.sessions[1].name, cs("Session 2"));
    assert!(st.sessions[1].messages.is_empty());
    assert_eq!(st.current_session_index, 1);
}

#[test]
fn create_session_takes_supplied_name() {
    let mut st = default_state();
    st.create_session(Some(cs("plans")));
    assert_eq!(st.sessions[1].name, cs("plans"));
    assert_eq!(st.sessions[1].id, 1);
}

#[test]
fn create_session_clears_pending_input() {
    let mut st = default_state();
    st.input = cs("half-typed");
    st.create_session(None);
    assert!(st.input.is_empty());
}

#[test]
fn remove_active_session_deletes_when_more_than_one() {
    let mut st = default_state();
    st.create_session(Some(cs("second")));
    st.select_session(0);
    st.remove_active_session();
    assert_eq!(st.sessions.len(), 1);
    assert_eq!(st.sessions[0].name, cs("second"));
    assert_eq!(st.current_session_index, 0);
}

#[test]
fn remove_active_session_repoints_index_when_last_is_removed() {
    let mut st = default_state();
    st.create_session(None);
    st.create_session(None);
    assert_eq!(st.current_session_index, 2);
    st.remove_active_session();
    assert_eq!(st.sessions.len(), 2);
    assert_eq!(st.current_session_index, 1);
}

#[test]
fn remove_active_session_on_single_store_degrades_to_reset() {
    let mut st = default_state();
    st.append_message(Role::User, cs("hello"));
    st.sessions[0].name = cs("renamed");
    st.remove_active_session();
    assert_eq!(st.sessions.len(), 1);
    assert_eq!(st.sessions[0].name, cs("Default Session"));
    assert!(st.sessions[0].messages.is_empty());
    assert_eq!(st.current_session_index, 0);
}

#[test]
fn clear_all_sessions_leaves_one_active_default() {
    let mut st = default_state();
    st.create_session(Some(cs("a")));
    st.create_session(Some(cs("b")));
    st.append_message(Role::User, cs("hi"));
    st.clear_all_sessions();
    assert_eq!(st.sessions.len(), 1);
    assert_eq!(st.sessions[0].id, 0);
    assert_eq!(st.sessions[0].name, cs("Default Session"));
    assert!(st.sessions[0].messages.is_empty());
    assert_eq!(st.current_session_index, 0);
}

#[test]
fn append_message_touches_only_the_active_session() {
    let mut st = default_state();
    st.create_session(Some(cs("other")));
    st.select_session(0);
    st.append_message(Role::Assistant, cs("answer"));
    assert_eq!(st.sessions[0].messages.len(), 1);
    assert_eq!(st.sessions[0].messages[0], Message { sender: Role::Assistant, content: cs("answer") });
    assert!(st.sessions[1].messages.is_empty());
}

#[test]
fn select_session_changes_only_the_index() {
    let mut st = default_state();
    st.create_session(None);
    st.select_session(0);
    assert_eq!(st.current_session_index, 0);
    assert_eq!(st.sessions.len(), 2);
}

#[test]
fn add_and_select_provider() {
    let mut st = default_state();
    st.add_provider(Api {
        api_name: cs("main"),
        api_url: cs("http://localhost:1234/v1/chat/completions"),
        api_key: cs("SECRET-REDACTED"),
        model: cs("gpt-3.5-turbo"),
    });
    st.add_provider(Api {
        api_name: cs("alt"),
        api_url: cs("http://example.com"),
        api_key: cs(""),
        model: cs("m"),
    });
    assert_eq!(st.api_list.len(), 2);
    st.select_provider(1);
    assert_eq!(st.selected_api_index, 1);
    assert_eq!(st.api_list[1].api_name, cs("alt"));
}

#[test]
fn install_sessions_refuses_an_empty_collection() {
    let mut st = default_state();
    st.install_sessions(Vec::new());
    assert_eq!(st.sessions.len(), 1);
    assert_eq!(st.sessions[0].name, cs("Default Session"));
}

#[test]
fn install_sessions_replaces_and_activates_first() {
    let mut st = default_state();
    st.create_session(None);
    let loaded = vec![chat_core::model::Session { id: 7, name: cs("kept"), messages: Vec::new() }];
    st.install_sessions(loaded);
    assert_eq!(st.sessions.len(), 1);
    assert_eq!(st.sessions[0].id, 7);
    assert_eq!(st.current_session_index, 0);
}

#[test]
fn install_api_list_replaces_registry() {
    let mut st = default_state();
    st.install_api_list(vec![Api {
        api_name: cs("n"),
        api_url: cs("u"),
        api_key: cs("k"),
        model: cs("m"),
    }]);
    assert_eq!(st.api_list.len(), 1);
    assert_eq!(st.api_list[0].model, cs("m"));
}

#[test]
fn current_session_returns_the_active_one() {
    let mut st = default_state();
    st.create_session(Some(cs("active")));
    assert_eq!(st.current_session().name, cs("active"));
}
