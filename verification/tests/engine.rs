//! The exchange engine on concrete values: the request text, the refusal
//! with no provider, and the transcript entry each transport outcome leaves.

use chat_core::engine::TransportOutcome;
use chat_core::model::{Api, MyApp, Message, Role};

fn cs(s: &str) -> Vec<char> {
    s.chars().collect()
}

fn provider() -> Api {
    Api {
        api_name: cs("local"),
        api_url: cs("http://localhost:8080/v1/chat/completions"),
        api_key: cs("SECRET-REDACTED"),
        model: cs("gpt-3.5-turbo"),
    }
}

fn ready_state() -> MyApp {
    let mut st = MyApp::default();
    st.add_provider(provider());
    st
}

fn transcript(st: &MyApp) -> &Vec<Message> {
    &st.sessions[st.current_session_index].messages
}

#[test]
fn request_payload_exact_text() {
    let mut st = ready_state();
    st.append_message(Role::User, cs("hi"));
    st.append_message(Role::System, cs("Error: x"));
    let payload: String = st.build_request_payload(&st.api_list[0]).into_iter().collect();
    assert_eq!(
        payload,
        "{\"model\":\"gpt-3.5-turbo\",\"messages\":[\
         {\"role\":\"user\",\"content\":\"hi\"},\
         {\"role\":\"assistant\",\"content\":\"Error: x\"}]}"
    );
}

#[test]
fn begin_exchange_appends_user_and_hands_out_request() {
    let mut st = ready_state();
    let req = st.begin_exchange(cs("hi")).expect("a provider is selected");
    assert_eq!(transcript(&st).len(), 1);
    assert_eq!(transcript(&st)[0], Message { sender: Role::User, content: cs("hi") });
    let req_text: String = req.into_iter().collect();
    assert_eq!(
        req_text,
        "{\"model\":\"gpt-3.5-turbo\",\"messages\":[{\"role\":\"user\",\"content\":\"hi\"}]}"
    );
}

#[test]
fn empty_registry_refuses_and_leaves_transcript_unchanged() {
    let mut st = MyApp::default();
    let sent = st.send_user_message(cs("hi"), TransportOutcome::Failure(cs("unused")));
    assert!(!sent);
    assert!(transcript(&st).is_empty());
    let req = st.begin_exchange(cs("hi"));
    assert!(req.is_none());
    assert!(transcript(&st).is_empty());
}

#[test]
fn well_formed_response_appends_assistant_and_clears_input() {
    let mut st = ready_state();
    st.input = cs("hi");
    let body = cs("{\"choices\":[{\"message\":{\"content\":\"Hello!\"}}]}");
    let sent = st.send_user_message(cs("hi"), TransportOutcome::Body(body));
    assert!(sent);
    assert_eq!(transcript(&st).len(), 2);
    assert_eq!(transcript(&st)[0], Message { sender: Role::User, content: cs("hi") });
    assert_eq!(transcript(&st)[1], Message { sender: Role::Assistant, content: cs("Hello!") });
    assert!(st.input.is_empty());
}

#[test]
fn body_without_choices_appends_format_complaint() {
    let mut st = ready_state();
    st.input = cs("hi");
    let body = cs("{\"error\":\"overloaded\"}");
    let sent = st.send_user_message(cs("hi"), TransportOutcome::Body(body));
    assert!(sent);
    assert_eq!(transcript(&st).len(), 2);
    assert_eq!(transcript(&st)[0], Message { sender: Role::User, content: cs("hi") });
    assert_eq!(
        transcript(&st)[1],
        Message { sender: Role::System, content: cs("Invalid response format") }
    );
    assert_eq!(st.input, cs("hi"));
}

#[test]
fn unparseable_body_appends_format_complaint() {
    let mut st = ready_state();
    let sent = st.send_user_message(cs("hi"), TransportOutcome::Body(cs("<html>busy</html>")));
    assert!(sent);
    assert_eq!(
        transcript(&st)[1],
        Message { sender: Role::System, content: cs("Invalid response format") }
    );
}

#[test]
fn connection_refused_appends_error_entry() {
    let mut st = ready_state();
    st.input = cs("hi");
    let sent = st.send_user_message(
        cs("hi"),
        TransportOutcome::Failure(cs("connection refused (os error 111)")),
    );
    assert!(sent);
    assert_eq!(transcript(&st).len(), 2);
    assert_eq!(transcript(&st)[0], Message { sender: Role::User, content: cs("hi") });
    assert_eq!(
        transcript(&st)[1],
        Message {
            sender: Role::System,
            content: cs("Error: connection refused (os error 111)"),
        }
    );
    assert_eq!(st.input, cs("hi"));
}

#[test]
fn every_exchange_appends_exactly_two_entries() {
    let mut st = ready_state();
    let outcomes = vec![
        TransportOutcome::Body(cs("{\"choices\":[{\"message\":{\"content\":\"a\"}}]}")),
        TransportOutcome::Failure(cs("timed out")),
        TransportOutcome::Body(cs("{}")),
    ];
    let mut expected: usize = 0;
    for outcome in outcomes {
        let before = transcript(&st).len();
        assert!(st.send_user_message(cs("turn"), outcome));
        expected = before + 2;
        assert_eq!(transcript(&st).len(), expected);
        assert_eq!(transcript(&st)[before].sender, Role::User);
        assert_ne!(transcript(&st)[before + 1].sender, Role::User);
    }
}

#[test]
fn reply_extraction_reads_the_first_choice() {
    let mut st = ready_state();
    let body = cs(
        "{\"id\":\"x\",\"choices\":[{\"message\":{\"role\":\"assistant\",\"content\":\"first\"}},\
         {\"message\":{\"content\":\"second\"}}],\"usage\":{\"total_tokens\":3}}",
    );
    assert!(st.send_user_message(cs("hi"), TransportOutcome::Body(body)));
    assert_eq!(transcript(&st)[1], Message { sender: Role::Assistant, content: cs("first") });
}
