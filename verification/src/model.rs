//! Data model: providers, messages, sessions, and the application state root.
//!
//! Text is carried as `Vec<char>` so that every field has a transparent
//! mathematical view (`Seq<char>`); the front end converts to and from
//! `String` at its own edge.

use vstd::prelude::*;
use vstd::string::StrSliceExecFns;

verus! {

/// Who produced a transcript entry.
#[derive(Clone, Copy, PartialEq, Eq, Debug, Structural)]
pub enum Role {
    User,
    Assistant,
    System,
}

/// One transcript entry: a sender and its text.
#[derive(Clone, Debug, PartialEq, Eq)]
pub struct Message {
    pub sender: Role,
    pub content: Vec<char>,
}

/// Mathematical model of a [`Message`].
#[verifier::ext_equal]
pub struct MessageModel {
    pub sender: Role,
    pub content: Seq<char>,
}

impl DeepView for Message {
    type V = MessageModel;

    open spec fn deep_view(&self) -> MessageModel {
        MessageModel { sender: self.sender, content: self.content@ }
    }
}

/// A named conversation: an ordinal id assigned at creation time and an
/// append-only transcript.
#[derive(Clone, Debug, PartialEq, Eq)]
pub struct Session {
    pub id: usize,
    pub name: Vec<char>,
    pub messages: Vec<Message>,
}

/// Mathematical model of a [`Session`].
#[verifier::ext_equal]
pub struct SessionModel {
    pub id: usize,
    pub name: Seq<char>,
    pub messages: Seq<MessageModel>,
}

impl DeepView for Session {
    type V = SessionModel;

    open spec fn deep_view(&self) -> SessionModel {
        SessionModel {
            id: self.id,
            name: self.name@,
            messages: self.messages.deep_view(),
        }
    }
}

/// Configuration of one remote text-generation endpoint.
#[derive(Clone, Debug, PartialEq, Eq)]
pub struct Api {
    pub api_name: Vec<char>,
    pub api_url: Vec<char>,
    pub api_key: Vec<char>,
    pub model: Vec<char>,
}

/// Mathematical model of an [`Api`].
#[verifier::ext_equal]
pub struct ApiModel {
    pub api_name: Seq<char>,
    pub api_url: Seq<char>,
    pub api_key: Seq<char>,
    pub model: Seq<char>,
}

impl DeepView for Api {
    type V = ApiModel;

    open spec fn deep_view(&self) -> ApiModel {
        ApiModel {
            api_name: self.api_name@,
            api_url: self.api_url@,
            api_key: self.api_key@,
            model: self.model@,
        }
    }
}

/// The name given to the session that exists when nothing else does.
pub open spec fn default_session_name() -> Seq<char> {
    "Default Session"@
}

/// A session as it is first created: the given ordinal id, the given name,
/// and an empty transcript.
pub open spec fn fresh_session(id: usize, name: Seq<char>) -> SessionModel {
    SessionModel { id, name, messages: Seq::empty() }
}

/// The single root of mutable state: the provider registry, the session
/// store, and the pending input text.
pub struct MyApp {
    pub api_list: Vec<Api>,
    pub selected_api_index: usize,
    pub sessions: Vec<Session>,
    pub current_session_index: usize,
    pub input: Vec<char>,
}

impl MyApp {
    /// Structural invariant: the store always holds at least one session and
    /// the active index points into it. The provider index is deliberately
    /// unconstrained: with an empty registry there is nothing to point at,
    /// and every reader checks bounds before use.
    pub open spec fn wf(&self) -> bool {
        &&& self.sessions@.len() >= 1
        &&& self.current_session_index < self.sessions@.len()
    }

    /// Transcript of the session the given index selects.
    pub open spec fn transcript_at(&self, i: int) -> Seq<MessageModel> {
        self.sessions@[i].deep_view().messages
    }

    /// Transcript of the active session.
    pub open spec fn active_transcript(&self) -> Seq<MessageModel> {
        self.transcript_at(self.current_session_index as int)
    }

    /// The active session, by reference.
    pub fn current_session(&self) -> (s: &Session)
        requires
            self.wf(),
        ensures
            s == self.sessions@[self.current_session_index as int],
    {
        &self.sessions[self.current_session_index]
    }
}

/// Copies the characters of a string slice into a vector.
pub fn chars_of_str(s: &str) -> (v: Vec<char>)
    ensures
        v@ == s@,
{
    let n = s.unicode_len();
    let mut v: Vec<char> = Vec::new();
    let mut i: usize = 0;
    while i < n
        invariant
            i <= n,
            n == s@.len(),
            v@ == s@.subrange(0, i as int),
        decreases n - i,
    {
        v.push(s.get_char(i));
        proof {
            assert(s@.subrange(0, i + 1 as int) =~= s@.subrange(0, i as int).push(s@[i as int]));
        }
        i += 1;
    }
    proof {
        assert(s@.subrange(0, n as int) =~= s@);
    }
    v
}

impl Default for MyApp {
    /// The state a run starts from before anything is loaded: an empty
    /// registry and a single empty session carrying the default name.
    fn default() -> (s: MyApp)
        ensures
            s.wf(),
            s.sessions@.len() == 1,
            s.api_list@ =~= Seq::<Api>::empty(),
            s.selected_api_index == 0,
            s.sessions.deep_view() =~~= seq![fresh_session(0, default_session_name())],
            s.current_session_index == 0,
            s.input@ =~= Seq::<char>::empty(),
    {
        let first = Session { id: 0, name: chars_of_str("Default Session"), messages: Vec::new() };
        let mut sessions: Vec<Session> = Vec::new();
        sessions.push(first);
        proof {
            assert(sessions.deep_view() =~~= seq![fresh_session(0, default_session_name())]);
        }
        MyApp {
            api_list: Vec::new(),
            selected_api_index: 0,
            sessions,
            current_session_index: 0,
            input: Vec::new(),
        }
    }
}

} // verus!
