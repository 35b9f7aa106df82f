//! The session store and provider registry: every operation the surface can
//! trigger on the state root, with its exact effect.

use vstd::prelude::*;
use crate::model::{Api, MyApp, Message, MessageModel, Session, SessionModel};
use crate::model::{chars_of_str, default_session_name, fresh_session};
use crate::num::{dec_rep, push_dec};

verus! {

/// The name a session gets when none is supplied: `"Session "` followed by
/// the decimal successor of its ordinal id.
pub open spec fn session_auto_name(id: usize) -> Seq<char> {
    "Session "@ + dec_rep((id + 1) as nat)
}

/// The name a new session ends up with: the supplied one, or the automatic
/// one when none was supplied.
pub open spec fn chosen_name(name: Option<Vec<char>>, id: usize) -> Seq<char> {
    match name {
        Some(n) => n@,
        None => session_auto_name(id),
    }
}

impl MyApp {
    /// Appends a fresh session whose ordinal id is the current session count,
    /// names it (or falls back to the automatic name), makes it active and
    /// clears the pending input. The store grows by exactly one session and
    /// so can never become empty.
    pub fn create_session(&mut self, name: Option<Vec<char>>)
        requires
            old(self).wf(),
            old(self).sessions@.len() < usize::MAX,
        ensures
            final(self).wf(),
            final(self).sessions@.len() == old(self).sessions@.len() + 1,
            final(self).sessions.deep_view() =~~= old(self).sessions.deep_view().push(
                fresh_session(old(self).sessions@.len() as usize, chosen_name(name, old(self).sessions@.len() as usize)),
            ),
            final(self).current_session_index == old(self).sessions@.len(),
            final(self).input@ == Seq::<char>::empty(),
            final(self).api_list == old(self).api_list,
            final(self).selected_api_index == old(self).selected_api_index,
    {
        let id = self.sessions.len();
        let new_name: Vec<char> = match name {
            Some(n) => n,
            None => {
                let mut auto = chars_of_str("Session ");
                push_dec(&mut auto, id + 1);
                auto
            },
        };
        self.sessions.push(Session { id, name: new_name, messages: Vec::new() });
        self.current_session_index = id;
        self.input = Vec::new();
    }

    /// Removes the active session when more than one exists, re-pointing the
    /// active index at the last session whenever it would otherwise fall off
    /// the end. On a single-session store it degrades instead: the transcript
    /// is cleared and the session renamed to the default name, so the store
    /// never drops below one session.
    pub fn remove_active_session(&mut self)
        requires
            old(self).wf(),
        ensures
            final(self).wf(),
            old(self).sessions@.len() > 1 ==> {
                &&& final(self).sessions.deep_view() =~~= old(self).sessions.deep_view().remove(
                    old(self).current_session_index as int,
                )
                &&& final(self).current_session_index == if old(self).current_session_index
                    == old(self).sessions@.len() - 1 {
                    old(self).sessions@.len() - 2
                } else {
                    old(self).current_session_index as int
                }
            },
            old(self).sessions@.len() == 1 ==> {
                &&& final(self).sessions.deep_view() =~~= seq![
                    SessionModel {
                        id: old(self).sessions@[0].id,
                        name: default_session_name(),
                        messages: Seq::empty(),
                    },
                ]
                &&& final(self).current_session_index == 0
            },
            final(self).sessions@.len() >= 1,
            final(self).input == old(self).input,
            final(self).api_list == old(self).api_list,
            final(self).selected_api_index == old(self).selected_api_index,
    {
        if self.sessions.len() > 1 {
            self.sessions.remove(self.current_session_index);
            if self.current_session_index >= self.sessions.len() {
                self.current_session_index = self.sessions.len() - 1;
            }
        } else {
            let id = self.sessions[0].id;
            self.sessions.clear();
            self.sessions.push(Session {
                id,
                name: chars_of_str("Default Session"),
                messages: Vec::new(),
            });
        }
    }

    /// Replaces the whole collection with a single fresh session named the
    /// default name, and makes it active.
    pub fn clear_all_sessions(&mut self)
        ensures
            final(self).wf(),
            final(self).sessions.deep_view() =~~= seq![fresh_session(0, default_session_name())],
            final(self).current_session_index == 0,
            final(self).input == old(self).input,
            final(self).api_list == old(self).api_list,
            final(self).selected_api_index == old(self).selected_api_index,
    {
        self.sessions.clear();
        self.sessions.push(Session {
            id: 0,
            name: chars_of_str("Default Session"),
            messages: Vec::new(),
        });
        self.current_session_index = 0;
    }

    /// Makes the session at `index` active. The surface only offers indices
    /// of sessions it displays, so the bound is a precondition.
    pub fn select_session(&mut self, index: usize)
        requires
            old(self).wf(),
            index < old(self).sessions@.len(),
        ensures
            final(self).wf(),
            final(self).current_session_index == index,
            final(self).sessions == old(self).sessions,
            final(self).input == old(self).input,
            final(self).api_list == old(self).api_list,
            final(self).selected_api_index == old(self).selected_api_index,
    {
        self.current_session_index = index;
    }

    /// Appends one message to the active session's transcript. Nothing else
    /// changes: not the session's id or name, not the other sessions.
    pub fn append_message(&mut self, sender: crate::model::Role, content: Vec<char>)
        requires
            old(self).wf(),
        ensures
            final(self).wf(),
            final(self).sessions.deep_view() =~~= old(self).sessions.deep_view().update(
                old(self).current_session_index as int,
                SessionModel {
                    id: old(self).sessions@[old(self).current_session_index as int].id,
                    name: old(self).sessions@[old(self).current_session_index as int].name@,
                    messages: old(self).active_transcript().push(
                        MessageModel { sender, content: content@ },
                    ),
                },
            ),
            final(self).current_session_index == old(self).current_session_index,
            final(self).input == old(self).input,
            final(self).api_list == old(self).api_list,
            final(self).selected_api_index == old(self).selected_api_index,
    {
        let i = self.current_session_index;
        let mut s = self.sessions.remove(i);
        s.messages.push(Message { sender, content });
        self.sessions.insert(i, s);
    }

    /// Appends a provider configuration to the registry.
    pub fn add_provider(&mut self, api: Api)
        ensures
            final(self).api_list.deep_view() =~~= old(self).api_list.deep_view().push(api.deep_view()),
            final(self).selected_api_index == old(self).selected_api_index,
            final(self).sessions == old(self).sessions,
            final(self).current_session_index == old(self).current_session_index,
            final(self).input == old(self).input,
    {
        self.api_list.push(api);
    }

    /// Makes the provider at `index` the active one; the caller guarantees
    /// the bound by only offering configured providers.
    pub fn select_provider(&mut self, index: usize)
        requires
            index < old(self).api_list@.len(),
        ensures
            final(self).selected_api_index == index,
            final(self).sessions == old(self).sessions,
            final(self).current_session_index == old(self).current_session_index,
            final(self).input == old(self).input,
            final(self).api_list == old(self).api_list,
    {
        self.selected_api_index = index;
    }

    /// Installs a session collection read back from durable storage. An empty
    /// collection would break the store's invariant, so it is refused and the
    /// state kept; otherwise the collection replaces the current one and the
    /// first session becomes active.
    pub fn install_sessions(&mut self, loaded: Vec<Session>)
        requires
            old(self).wf(),
        ensures
            final(self).wf(),
            loaded@.len() >= 1 ==> {
                &&& final(self).sessions == loaded
                &&& final(self).current_session_index == 0
            },
            loaded@.len() == 0 ==> *final(self) == *old(self),
            final(self).input == old(self).input,
            final(self).api_list == old(self).api_list,
            final(self).selected_api_index == old(self).selected_api_index,
    {
        if loaded.len() >= 1 {
            self.sessions = loaded;
            self.current_session_index = 0;
        }
    }

    /// Installs a provider collection read back from durable storage,
    /// replacing the registry wholesale.
    pub fn install_api_list(&mut self, loaded: Vec<Api>)
        ensures
            final(self).api_list == loaded,
            final(self).selected_api_index == old(self).selected_api_index,
            final(self).sessions == old(self).sessions,
            final(self).current_session_index == old(self).current_session_index,
            final(self).input == old(self).input,
    {
        self.api_list = loaded;
    }
}

} // verus!
