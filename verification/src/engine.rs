//! The exchange engine: building the outbound request from the active
//! transcript, and folding the transport's outcome back into the transcript.
//!
//! The network itself is the front end's job; the engine is the state
//! machine around it. An exchange that is allowed to start appends the user's
//! entry, hands out the request text, and—once the transport has spoken—
//! appends exactly one more entry: the assistant's reply, or an error entry.

use vstd::prelude::*;
use crate::model::{Api, MyApp, MessageModel, Role, SessionModel};
use crate::model::chars_of_str;
use crate::text::{json_string, push_json_string};

verus! {

/// The role word a transcript entry is sent out under: user entries as
/// `user`, every other entry as `assistant` (deliberately including error
/// entries, which are replayed as assistant turns).
pub open spec fn wire_role(r: Role) -> Seq<char> {
    match r {
        Role::User => "user"@,
        Role::Assistant => "assistant"@,
        Role::System => "assistant"@,
    }
}

/// One transcript entry as sent out.
pub open spec fn wire_message(m: MessageModel) -> Seq<char> {
    "{\"role\":"@ + json_string(wire_role(m.sender)) + ",\"content\":"@ + json_string(m.content)
        + seq!['}']
}

/// The remaining outbound entries, each preceded by a comma.
pub open spec fn wire_messages_tail(ms: Seq<MessageModel>) -> Seq<char>
    decreases ms.len(),
{
    if ms.len() == 0 {
        Seq::empty()
    } else {
        seq![','] + wire_message(ms[0]) + wire_messages_tail(ms.skip(1))
    }
}

/// A whole transcript as sent out.
pub open spec fn wire_messages(ms: Seq<MessageModel>) -> Seq<char> {
    if ms.len() == 0 {
        seq!['['] + seq![']']
    } else {
        seq!['['] + wire_message(ms[0]) + wire_messages_tail(ms.skip(1)) + seq![']']
    }
}

/// The outbound request body: the provider's model identifier and the full
/// transcript as role/content pairs.
pub open spec fn request_payload(model: Seq<char>, ms: Seq<MessageModel>) -> Seq<char> {
    "{\"model\":"@ + json_string(model) + ",\"messages\":"@ + wire_messages(ms) + seq!['}']
}

/// What the transport came back with: a failure with its error text, or a
/// response body.
#[derive(Clone, Debug)]
pub enum TransportOutcome {
    Failure(Vec<char>),
    Body(Vec<char>),
}

/// The reply a response body holds, if it holds one: the first choice's
/// message content. A function of the body text alone.
pub uninterp spec fn reply_of(body: Seq<char>) -> Option<Seq<char>>;

/// Relies on serde_json: `from_str` parses the body text, and indexing with
/// `Value::get`-style paths reads `choices[0].message.content`; the outcome
/// is a function of the body text alone, `None` when the body is not valid
/// structured text or the path is absent or not a string.
#[verifier::external_body]
fn extract_reply(body: &Vec<char>) -> (r: Option<Vec<char>>)
    ensures
        match r {
            Some(c) => reply_of(body@) == Some(c@),
            None => reply_of(body@) is None,
        },
{
    let text: String = body.iter().collect();
    let value: serde_json::Value = match serde_json::from_str(&text) {
        Ok(v) => v,
        Err(_) => return None,
    };
    value["choices"][0]["message"]["content"].as_str().map(|s| s.chars().collect())
}

/// The transcript entry an exchange's outcome becomes: the assistant's reply
/// when the body holds one; an error entry naming the transport failure, or
/// the fixed format complaint, otherwise.
pub open spec fn exchange_entry(outcome: TransportOutcome) -> MessageModel {
    match outcome {
        TransportOutcome::Failure(e) => MessageModel {
            sender: Role::System,
            content: "Error: "@ + e@,
        },
        TransportOutcome::Body(b) => match reply_of(b@) {
            Some(c) => MessageModel { sender: Role::Assistant, content: c },
            None => MessageModel { sender: Role::System, content: "Invalid response format"@ },
        },
    }
}

/// Whether an outcome ends the exchange in success, which is the one case
/// that clears the pending input.
pub open spec fn exchange_succeeds(outcome: TransportOutcome) -> bool {
    match outcome {
        TransportOutcome::Failure(e) => false,
        TransportOutcome::Body(b) => reply_of(b@) is Some,
    }
}

fn wire_role_chars(r: Role) -> (v: Vec<char>)
    ensures
        v@ == wire_role(r),
{
    match r {
        Role::User => chars_of_str("user"),
        Role::Assistant => chars_of_str("assistant"),
        Role::System => chars_of_str("assistant"),
    }
}

fn push_wire_lit(out: &mut Vec<char>, lit: &str)
    ensures
        final(out)@ == old(out)@ + lit@,
{
    let mut l = chars_of_str(lit);
    out.append(&mut l);
}

fn write_wire_message(out: &mut Vec<char>, m: &crate::model::Message)
    ensures
        final(out)@ == old(out)@ + wire_message(m.deep_view()),
{
    push_wire_lit(out, "{\"role\":");
    let rc = wire_role_chars(m.sender);
    push_json_string(out, &rc);
    push_wire_lit(out, ",\"content\":");
    push_json_string(out, &m.content);
    out.push('}');
    proof {
        assert(out@ =~= old(out)@ + wire_message(m.deep_view()));
    }
}

fn write_wire_messages_tail(out: &mut Vec<char>, ms: &Vec<crate::model::Message>, k: usize)
    requires
        1 <= k <= ms@.len(),
    ensures
        final(out)@ == old(out)@ + wire_messages_tail(ms.deep_view().skip(k as int)),
    decreases ms@.len() - k,
{
    if k < ms.len() {
        out.push(',');
        write_wire_message(out, &ms[k]);
        write_wire_messages_tail(out, ms, k + 1);
        proof {
            let dv = ms.deep_view();
            assert(dv.skip(k as int)[0] == dv[k as int]);
            assert(dv.skip(k as int).skip(1) =~= dv.skip(k + 1));
            assert(out@ =~= old(out)@ + wire_messages_tail(dv.skip(k as int)));
        }
    } else {
        proof {
            assert(ms.deep_view().skip(k as int) =~= Seq::<MessageModel>::empty());
            assert(out@ =~= old(out)@ + wire_messages_tail(ms.deep_view().skip(k as int)));
        }
    }
}

fn write_wire_messages(out: &mut Vec<char>, ms: &Vec<crate::model::Message>)
    ensures
        final(out)@ == old(out)@ + wire_messages(ms.deep_view()),
{
    if ms.len() == 0 {
        out.push('[');
        out.push(']');
        proof {
            assert(out@ =~= old(out)@ + wire_messages(ms.deep_view()));
        }
    } else {
        out.push('[');
        write_wire_message(out, &ms[0]);
        write_wire_messages_tail(out, ms, 1);
        out.push(']');
        proof {
            let dv = ms.deep_view();
            assert(dv[0] == ms@[0].deep_view());
            assert(out@ =~= old(out)@ + wire_messages(dv));
        }
    }
}

impl MyApp {
    /// The outbound request body for the active transcript under the given
    /// provider configuration.
    pub fn build_request_payload(&self, api: &Api) -> (out: Vec<char>)
        requires
            self.wf(),
        ensures
            out@ == request_payload(api.model@, self.active_transcript()),
    {
        let mut out: Vec<char> = Vec::new();
        push_wire_lit(&mut out, "{\"model\":");
        push_json_string(&mut out, &api.model);
        push_wire_lit(&mut out, ",\"messages\":");
        let session = self.current_session();
        write_wire_messages(&mut out, &session.messages);
        out.push('}');
        proof {
            assert(out@ =~= request_payload(api.model@, self.active_transcript()));
        }
        out
    }

    /// Starts an exchange. With no provider configured at the selected index
    /// this is a refusal: nothing changes and no request exists. Otherwise
    /// the user's entry is appended to the active transcript—unconditionally,
    /// whatever the transport later does—and the request text covering the
    /// whole transcript, user entry included, is handed out.
    pub fn begin_exchange(&mut self, text: Vec<char>) -> (req: Option<Vec<char>>)
        requires
            old(self).wf(),
        ensures
            final(self).wf(),
            old(self).selected_api_index >= old(self).api_list@.len() ==> {
                &&& req is None
                &&& *final(self) == *old(self)
            },
            old(self).selected_api_index < old(self).api_list@.len() ==> {
                &&& req is Some
                &&& final(self).sessions.deep_view() =~~= old(self).sessions.deep_view().update(
                    old(self).current_session_index as int,
                    SessionModel {
                        id: old(self).sessions@[old(self).current_session_index as int].id,
                        name: old(self).sessions@[old(self).current_session_index as int].name@,
                        messages: old(self).active_transcript().push(
                            MessageModel { sender: Role::User, content: text@ },
                        ),
                    },
                )
                &&& req->0@ == request_payload(
                    old(self).api_list@[old(self).selected_api_index as int].model@,
                    old(self).active_transcript().push(
                        MessageModel { sender: Role::User, content: text@ },
                    ),
                )
                &&& final(self).current_session_index == old(self).current_session_index
                &&& final(self).input == old(self).input
                &&& final(self).api_list == old(self).api_list
                &&& final(self).selected_api_index == old(self).selected_api_index
            },
    {
        if self.selected_api_index >= self.api_list.len() {
            return None;
        }
        self.append_message(Role::User, text);
        proof {
            let i = old(self).current_session_index as int;
            assert(self.sessions.deep_view()[i] == self.sessions@[i].deep_view());
            assert(self.sessions.deep_view()[i].messages == old(self).active_transcript().push(
                MessageModel { sender: Role::User, content: text@ },
            ));
            assert(self.active_transcript() == self.sessions.deep_view()[i].messages);
        }
        let req = self.build_request_payload(&self.api_list[self.selected_api_index]);
        Some(req)
    }

    /// Ends an exchange: folds the transport's outcome into the active
    /// transcript as exactly one entry, and clears the pending input exactly
    /// when the outcome is a success.
    pub fn complete_exchange(&mut self, outcome: TransportOutcome)
        requires
            old(self).wf(),
        ensures
            final(self).wf(),
            final(self).sessions.deep_view() =~~= old(self).sessions.deep_view().update(
                old(self).current_session_index as int,
                SessionModel {
                    id: old(self).sessions@[old(self).current_session_index as int].id,
                    name: old(self).sessions@[old(self).current_session_index as int].name@,
                    messages: old(self).active_transcript().push(exchange_entry(outcome)),
                },
            ),
            final(self).input@ == if exchange_succeeds(outcome) {
                Seq::<char>::empty()
            } else {
                old(self).input@
            },
            final(self).current_session_index == old(self).current_session_index,
            final(self).api_list == old(self).api_list,
            final(self).selected_api_index == old(self).selected_api_index,
    {
        match outcome {
            TransportOutcome::Failure(e) => {
                let mut content = chars_of_str("Error: ");
                let mut etext = e;
                content.append(&mut etext);
                self.append_message(Role::System, content);
            },
            TransportOutcome::Body(b) => {
                match extract_reply(&b) {
                    Some(c) => {
                        self.append_message(Role::Assistant, c);
                        self.input = Vec::new();
                    },
                    None => {
                        self.append_message(Role::System, chars_of_str("Invalid response format"));
                    },
                }
            },
        }
    }

    /// One whole exchange, with the transport's outcome handed in. A refusal
    /// (no provider at the selected index) leaves the state untouched. An
    /// exchange that runs appends exactly two entries to the active
    /// transcript and nothing else: first the user's, then the outcome's —
    /// never zero, never two of a kind of its own making.
    pub fn send_user_message(&mut self, text: Vec<char>, outcome: TransportOutcome) -> (sent: bool)
        requires
            old(self).wf(),
        ensures
            final(self).wf(),
            sent <==> old(self).selected_api_index < old(self).api_list@.len(),
            !sent ==> *final(self) == *old(self),
            sent ==> {
                &&& final(self).sessions.deep_view() =~~= old(self).sessions.deep_view().update(
                    old(self).current_session_index as int,
                    SessionModel {
                        id: old(self).sessions@[old(self).current_session_index as int].id,
                        name: old(self).sessions@[old(self).current_session_index as int].name@,
                        messages: old(self).active_transcript().push(
                            MessageModel { sender: Role::User, content: text@ },
                        ).push(exchange_entry(outcome)),
                    },
                )
                &&& final(self).input@ == if exchange_succeeds(outcome) {
                    Seq::<char>::empty()
                } else {
                    old(self).input@
                }
                &&& final(self).current_session_index == old(self).current_session_index
                &&& final(self).api_list == old(self).api_list
                &&& final(self).selected_api_index == old(self).selected_api_index
            },
    {
        match self.begin_exchange(text) {
            None => false,
            Some(_req) => {
                let ghost mid = *self;
                self.complete_exchange(outcome);
                proof {
                    let i = old(self).current_session_index as int;
                    assert(mid.sessions.deep_view()[i] == mid.sessions@[i].deep_view());
                    assert(mid.sessions@[i].deep_view().id == mid.sessions@[i].id);
                    assert(mid.sessions@[i].deep_view().name == mid.sessions@[i].name@);
                    assert(mid.active_transcript() == mid.sessions.deep_view()[i].messages);
                    assert(self.sessions.deep_view() =~~= old(self).sessions.deep_view().update(
                        i,
                        SessionModel {
                            id: old(self).sessions@[i].id,
                            name: old(self).sessions@[i].name@,
                            messages: old(self).active_transcript().push(
                                MessageModel { sender: Role::User, content: text@ },
                            ).push(exchange_entry(outcome)),
                        },
                    ));
                }
                true
            },
        }
    }
}

} // verus!
