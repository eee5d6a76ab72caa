//! What an account's store is asked to do. An operation on a chat is a plan: a
//! list of actions, done in order, of which the first that fails ends it.

use vstd::prelude::*;

use crate::text;
use crate::types::{Chat, ChatView, Permissions, PermissionsView};

verus! {

/// One thing that the store is asked to do.
pub enum Action {
    /// Create a directory and those that it lies in.
    CreateDir { path: String },
    /// Write a file.
    WriteFile { path: String, body: Vec<u8> },
    /// Write a chat's `chat.json`.
    WriteChat { path: String, chat: Chat },
    /// Write a conversation's `conversation.json`.
    WriteTitle { path: String, title: String },
    /// Upload a file or directory, with a change of its permissions.
    Put { path: String, permissions: Permissions },
    /// Change the permissions of a file or directory that every member holds.
    PutPermissions { path: String, permissions: Permissions },
    /// Change who a group stands for.
    ChangeMembers { path: String, added: Vec<String>, dropped: Vec<String> },
}

#[verifier::ext_equal]
pub enum ActionView {
    CreateDir { path: Seq<char> },
    WriteFile { path: Seq<char>, body: Seq<u8> },
    WriteChat { path: Seq<char>, chat: ChatView },
    WriteTitle { path: Seq<char>, title: Seq<char> },
    Put { path: Seq<char>, permissions: PermissionsView },
    PutPermissions { path: Seq<char>, permissions: PermissionsView },
    ChangeMembers { path: Seq<char>, added: Seq<Seq<char>>, dropped: Seq<Seq<char>> },
}

impl View for Action {
    type V = ActionView;

    open spec fn view(&self) -> ActionView {
        match *self {
            Action::CreateDir { path } => ActionView::CreateDir { path: path@ },
            Action::WriteFile { path, body } => ActionView::WriteFile {
                path: path@,
                body: body@,
            },
            Action::WriteChat { path, chat } => ActionView::WriteChat {
                path: path@,
                chat: chat@,
            },
            Action::WriteTitle { path, title } => ActionView::WriteTitle {
                path: path@,
                title: title@,
            },
            Action::Put { path, permissions } => ActionView::Put {
                path: path@,
                permissions: permissions@,
            },
            Action::PutPermissions { path, permissions } => ActionView::PutPermissions {
                path: path@,
                permissions: permissions@,
            },
            Action::ChangeMembers { path, added, dropped } => ActionView::ChangeMembers {
                path: path@,
                added: text::texts(added@),
                dropped: text::texts(dropped@),
            },
        }
    }
}

/// No change of permissions.
pub open spec fn no_change() -> PermissionsView {
    PermissionsView {
        owners: Seq::empty(),
        writers: Seq::empty(),
        readers: Seq::empty(),
        dropped: Seq::empty(),
    }
}

/// Some addresses become owners.
pub open spec fn owners_change(addresses: Seq<Seq<char>>) -> PermissionsView {
    PermissionsView { owners: addresses, ..no_change() }
}

/// Some addresses become writers.
pub open spec fn writers_change(addresses: Seq<Seq<char>>) -> PermissionsView {
    PermissionsView { writers: addresses, ..no_change() }
}

/// Some addresses become readers.
pub open spec fn readers_change(addresses: Seq<Seq<char>>) -> PermissionsView {
    PermissionsView { readers: addresses, ..no_change() }
}

/// Some addresses are named no longer.
pub open spec fn drop_change(addresses: Seq<Seq<char>>) -> PermissionsView {
    PermissionsView { dropped: addresses, ..no_change() }
}

/// A list of one string.
pub fn one(s: &str) -> (list: Vec<String>)
    ensures
        text::texts(list@) == seq![s@],
{
    let mut list: Vec<String> = Vec::new();
    list.push(s.to_owned());
    assert(text::texts(list@) =~= seq![s@]);
    list
}

/// A list of two strings.
pub fn two(a: &str, b: &str) -> (list: Vec<String>)
    ensures
        text::texts(list@) == seq![a@, b@],
{
    let mut list: Vec<String> = Vec::new();
    list.push(a.to_owned());
    list.push(b.to_owned());
    assert(text::texts(list@) =~= seq![a@, b@]);
    list
}

/// Copies of some strings.
pub fn copies(strings: &[String]) -> (list: Vec<String>)
    ensures
        list@ == strings@,
{
    let mut list: Vec<String> = Vec::new();
    let mut i: usize = 0;
    while i < strings.len()
        invariant
            i <= strings.len(),
            list@ == strings@.take(i as int),
        decreases strings.len() - i,
    {
        list.push(strings[i].clone());
        assert(strings@.take(i + 1) =~= strings@.take(i as int).push(strings@[i as int]));
        i += 1;
    }
    assert(strings@.take(i as int) =~= strings@);
    list
}

/// An empty list.
pub fn none() -> (list: Vec<String>)
    ensures
        text::texts(list@) == Seq::<Seq<char>>::empty(),
{
    let list: Vec<String> = Vec::new();
    assert(text::texts(list@) =~= Seq::<Seq<char>>::empty());
    list
}

impl Permissions {
    /// Some addresses become owners.
    pub fn owners(addresses: Vec<String>) -> (change: Permissions)
        ensures
            change@ == owners_change(text::texts(addresses@)),
    {
        Permissions { owners: addresses, writers: none(), readers: none(), dropped: none() }
    }

    /// Some addresses become writers.
    pub fn writers(addresses: Vec<String>) -> (change: Permissions)
        ensures
            change@ == writers_change(text::texts(addresses@)),
    {
        Permissions { owners: none(), writers: addresses, readers: none(), dropped: none() }
    }

    /// Some addresses become readers.
    pub fn readers(addresses: Vec<String>) -> (change: Permissions)
        ensures
            change@ == readers_change(text::texts(addresses@)),
    {
        Permissions { owners: none(), writers: none(), readers: addresses, dropped: none() }
    }

    /// Some addresses are named no longer.
    pub fn dropping(addresses: Vec<String>) -> (change: Permissions)
        ensures
            change@ == drop_change(text::texts(addresses@)),
    {
        Permissions { owners: none(), writers: none(), readers: none(), dropped: addresses }
    }
}

/// A change of one role names those addresses in that role, and nobody in any
/// other.
pub proof fn changes_name_one_role(addresses: Seq<Seq<char>>)
    ensures
        owners_change(addresses).owners == addresses,
        owners_change(addresses).writers.len() == 0,
        owners_change(addresses).readers.len() == 0,
        owners_change(addresses).dropped.len() == 0,
        writers_change(addresses).writers == addresses,
        writers_change(addresses).owners.len() == 0,
        writers_change(addresses).readers.len() == 0,
        writers_change(addresses).dropped.len() == 0,
        readers_change(addresses).readers == addresses,
        readers_change(addresses).owners.len() == 0,
        readers_change(addresses).writers.len() == 0,
        readers_change(addresses).dropped.len() == 0,
        drop_change(addresses).dropped == addresses,
        drop_change(addresses).owners.len() == 0,
        drop_change(addresses).writers.len() == 0,
        drop_change(addresses).readers.len() == 0,
{
}

} // verus!
