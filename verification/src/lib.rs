//! Messaging on top of ark.
//!
//! - A chat is a directory under `apps/msg/chats/`, named by its id, holding
//!   a `chat.json`. Members are the dir's writer set; owners can change
//!   membership.
//! - A direct chat is a fixed pair, owned by both. A group chat holds its
//!   non-owner permissions in an 'all members' group, so members can come and
//!   go.
//! - A message is a `msg_<timestamp>.md` file inside that dir. Sender is the
//!   file's owner; all other members are readers.
//!
//! The library decides and computes; it reads and writes nothing itself. An
//! operation takes what was found in the local mirror and on the server as
//! plain values. What it wants done there it returns, as a plan of actions
//! that are carried out in order up to the first that fails, or as an effect
//! whose outcome is handed back.

pub mod chat;
pub mod cli;
pub mod convo;
pub mod direct;
pub mod group;
pub mod invite;
pub mod membership;
pub mod message;
pub mod numerals;
pub mod ordering;
pub mod paths;
pub mod plan;
pub mod reltime;
pub mod resolve;
pub mod sync;
pub mod text;
pub mod text_laws;
pub mod tui;
pub mod types;
pub mod views;
