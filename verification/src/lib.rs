//! Core of a desktop chat client: named conversation sessions, a registry of
//! remote text-generation endpoints, the exchange protocol that turns a user
//! utterance into a transcript update, and the textual format in which both
//! collections are persisted.

pub mod codec;
pub mod engine;
pub mod model;
pub mod num;
pub mod span;
pub mod text;
pub mod state;
