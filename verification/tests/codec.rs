//! The persistence format on concrete values: exact serialized text, the
//! round trip both ways, and rejection of text the writer could not produce.

use chat_core::codec::{parse_api_list, parse_sessions, serialize_api_list, serialize_sessions};
use chat_core::model::{Api, Message, Role, Session};

fn cs(s: &str) -> Vec<char> {
    s.chars().collect()
}

fn sample_sessions() -> Vec<Session> {
    vec![
        Session {
            id: 0,
            name: cs("Default Session"),
            messages: vec![
                Message { sender: Role::User, content: cs("hi") },
                Message { sender: Role::Assistant, content: cs("Hello!") },
                Message { sender: Role::System, content: cs("Error: connection refused") },
            ],
        },
        Session { id: 1, name: cs("second"), messages: vec![] },
    ]
}

#[test]
fn serialize_sessions_exact_text() {
    let text: String = serialize_sessions(&sample_sessions()).into_iter().collect();
    assert_eq!(
        text,
        "[{\"id\":0,\"name\":\"Default Session\",\"messages\":[\
         {\"sender\":\"user\",\"content\":\"hi\"},\
         {\"sender\":\"API\",\"content\":\"Hello!\"},\
         {\"sender\":\"system\",\"content\":\"Error: connection refused\"}]},\
         {\"id\":1,\"name\":\"second\",\"messages\":[]}]"
    );
}

#[test]
fn serialize_empty_collection() {
    let text: String = serialize_sessions(&Vec::new()).into_iter().collect();
    assert_eq!(text, "[]");
}

#[test]
fn sessions_round_trip() {
    let ss = sample_sessions();
    let text = serialize_sessions(&ss);
    let back = parse_sessions(&text).expect("own output must parse");
    assert_eq!(back, ss);
}

#[test]
fn sessions_round_trip_empty() {
    let ss: Vec<Session> = Vec::new();
    let back = parse_sessions(&serialize_sessions(&ss)).expect("own output must parse");
    assert_eq!(back, ss);
}

#[test]
fn sessions_round_trip_with_escapes() {
    let ss = vec![Session {
        id: 42,
        name: cs("quotes \" and \\ and\nnewlines\tand \u{1} control"),
        messages: vec![Message {
            sender: Role::User,
            content: cs("line1\nline2\r\n\ttab \"quoted\" back\\slash \u{8}\u{c}\u{1f}"),
        }],
    }];
    let text = serialize_sessions(&ss);
    let back = parse_sessions(&text).expect("escaped output must parse");
    assert_eq!(back, ss);
}

#[test]
fn serialize_escapes_exact_text() {
    let ss = vec![Session {
        id: 3,
        name: cs("a\"b\\c\nd\u{1f}"),
        messages: vec![],
    }];
    let text: String = serialize_sessions(&ss).into_iter().collect();
    assert_eq!(text, "[{\"id\":3,\"name\":\"a\\\"b\\\\c\\nd\\u001f\",\"messages\":[]}]");
}

#[test]
fn parse_accepts_short_control_escapes() {
    let text = cs("[{\"id\":0,\"name\":\"x\\by\\fz\",\"messages\":[]}]");
    let back = parse_sessions(&text).expect("short escapes are part of the format");
    assert_eq!(back[0].name, cs("x\u{8}y\u{c}z"));
}

#[test]
fn parse_rejects_garbage() {
    assert!(parse_sessions(&cs("not a record")).is_none());
    assert!(parse_sessions(&cs("")).is_none());
    assert!(parse_sessions(&cs("{\"id\":0}")).is_none());
}

#[test]
fn parse_rejects_truncated_text() {
    let ss = sample_sessions();
    let mut text = serialize_sessions(&ss);
    text.pop();
    assert!(parse_sessions(&text).is_none());
}

#[test]
fn parse_rejects_trailing_text() {
    let ss = sample_sessions();
    let mut text = serialize_sessions(&ss);
    text.push(' ');
    assert!(parse_sessions(&text).is_none());
}

#[test]
fn parse_rejects_unknown_sender_word() {
    let text = cs("[{\"id\":0,\"name\":\"n\",\"messages\":[{\"sender\":\"robot\",\"content\":\"x\"}]}]");
    assert!(parse_sessions(&text).is_none());
}

#[test]
fn parse_rejects_oversized_id() {
    let text = cs("[{\"id\":99999999999999999999999999,\"name\":\"n\",\"messages\":[]}]");
    assert!(parse_sessions(&text).is_none());
}

#[test]
fn parse_reads_foreign_but_well_formed_text() {
    let text = cs("[{\"id\":5,\"name\":\"kept\",\"messages\":[{\"sender\":\"user\",\"content\":\"q\"}]}]");
    let back = parse_sessions(&text).expect("compact records parse");
    assert_eq!(back.len(), 1);
    assert_eq!(back[0].id, 5);
    assert_eq!(back[0].name, cs("kept"));
    assert_eq!(back[0].messages[0], Message { sender: Role::User, content: cs("q") });
}

fn sample_apis() -> Vec<Api> {
    vec![
        Api {
            api_name: cs("local"),
            api_url: cs("http://localhost:8080/v1/chat/completions"),
            api_key: cs("SECRET-REDACTED"),
            model: cs("gpt-3.5-turbo"),
        },
        Api { api_name: cs(""), api_url: cs(""), api_key: cs(""), model: cs("") },
    ]
}

#[test]
fn serialize_api_list_exact_text() {
    let aa = vec![Api {
        api_name: cs("local"),
        api_url: cs("http://x"),
        api_key: cs("k"),
        model: cs("m"),
    }];
    let text: String = serialize_api_list(&aa).into_iter().collect();
    assert_eq!(
        text,
        "[{\"api_name\":\"local\",\"api_url\":\"http://x\",\"api_key\":\"k\",\"model\":\"m\"}]"
    );
}

#[test]
fn api_list_round_trip() {
    let aa = sample_apis();
    let back = parse_api_list(&serialize_api_list(&aa)).expect("own output must parse");
    assert_eq!(back, aa);
}

#[test]
fn api_list_parse_rejects_swapped_fields() {
    let text = cs("[{\"api_url\":\"u\",\"api_name\":\"n\",\"api_key\":\"k\",\"model\":\"m\"}]");
    assert!(parse_api_list(&text).is_none());
}
