//! What the library works on. Each type has a view, in which strings are
//! sequences of characters; the contracts speak of the views.

use vstd::prelude::*;

use crate::text;

verus! {

/// A moment: nanoseconds since the start of 1970 in UTC.
#[derive(Clone, Copy, PartialEq, Eq, Structural, Debug)]
pub struct Timestamp {
    pub unix_nanos: i128,
}

impl Timestamp {
    /// The start of 1970 in UTC.
    pub fn unix_epoch() -> (start: Timestamp)
        ensures
            start.unix_nanos == 0,
    {
        Timestamp { unix_nanos: 0 }
    }
}

/// A chat, as the local mirror shows it.
pub struct Chat {
    pub id: String,
    pub name: Option<String>,
    /// The addresses of the members but this account's.
    pub other_members: Vec<String>,
    pub last_activity: Timestamp,
}

#[verifier::ext_equal]
pub struct ChatView {
    pub id: Seq<char>,
    pub name: Option<Seq<char>>,
    pub other_members: Seq<Seq<char>>,
    pub last_activity: Timestamp,
}

impl View for Chat {
    type V = ChatView;

    open spec fn view(&self) -> ChatView {
        ChatView {
            id: self.id@,
            name: text::maybe_text(self.name),
            other_members: text::texts(self.other_members@),
            last_activity: self.last_activity,
        }
    }
}

impl Clone for Chat {
    fn clone(&self) -> (copy: Self)
        ensures
            copy@ == self@,
    {
        Chat {
            id: self.id.clone(),
            name: clone_text(&self.name),
            other_members: self.other_members.clone(),
            last_activity: self.last_activity,
        }
    }
}

/// A copy of an optional string.
pub fn clone_text(string: &Option<String>) -> (copy: Option<String>)
    ensures
        copy == *string,
{
    match string {
        Some(s) => Some(s.clone()),
        None => None,
    }
}

/// An offer to join a chat.
pub struct Invite {
    pub proposal_id: String,
    pub chat_id: String,
    pub proposer: String,
    pub proposed: Timestamp,
}

#[verifier::ext_equal]
pub struct InviteView {
    pub proposal_id: Seq<char>,
    pub chat_id: Seq<char>,
    pub proposer: Seq<char>,
    pub proposed: Timestamp,
}

impl View for Invite {
    type V = InviteView;

    open spec fn view(&self) -> InviteView {
        InviteView {
            proposal_id: self.proposal_id@,
            chat_id: self.chat_id@,
            proposer: self.proposer@,
            proposed: self.proposed,
        }
    }
}

impl Clone for Invite {
    fn clone(&self) -> (copy: Self)
        ensures
            copy@ == self@,
    {
        Invite {
            proposal_id: self.proposal_id.clone(),
            chat_id: self.chat_id.clone(),
            proposer: self.proposer.clone(),
            proposed: self.proposed,
        }
    }
}

/// A message in a chat. Its id is the name of its file.
pub struct Message {
    pub id: String,
    pub sender: String,
    pub sent: Timestamp,
    pub body: String,
}

#[verifier::ext_equal]
pub struct MessageView {
    pub id: Seq<char>,
    pub sender: Seq<char>,
    pub sent: Timestamp,
    pub body: Seq<char>,
}

impl View for Message {
    type V = MessageView;

    open spec fn view(&self) -> MessageView {
        MessageView {
            id: self.id@,
            sender: self.sender@,
            sent: self.sent,
            body: self.body@,
        }
    }
}

/// A member of a chat, and whether the chat's directory names it as an owner.
pub struct ChatMember {
    pub address: String,
    pub owner: bool,
}

#[verifier::ext_equal]
pub struct ChatMemberView {
    pub address: Seq<char>,
    pub owner: bool,
}

impl View for ChatMember {
    type V = ChatMemberView;

    open spec fn view(&self) -> ChatMemberView {
        ChatMemberView { address: self.address@, owner: self.owner }
    }
}

/// What a member may do with a file or directory.
#[derive(Clone, Copy, PartialEq, Eq, Structural, Debug)]
pub enum Permission {
    Owner,
    Writer,
    Reader,
}

/// An address that a file or directory names, with what it may do.
pub struct Member {
    pub address: String,
    pub permission: Permission,
}

#[verifier::ext_equal]
pub struct MemberView {
    pub address: Seq<char>,
    pub permission: Permission,
}

impl View for Member {
    type V = MemberView;

    open spec fn view(&self) -> MemberView {
        MemberView { address: self.address@, permission: self.permission }
    }
}

/// A change of permissions: who becomes owner, writer or reader, and who is
/// named no longer.
pub struct Permissions {
    pub owners: Vec<String>,
    pub writers: Vec<String>,
    pub readers: Vec<String>,
    pub dropped: Vec<String>,
}

#[verifier::ext_equal]
pub struct PermissionsView {
    pub owners: Seq<Seq<char>>,
    pub writers: Seq<Seq<char>>,
    pub readers: Seq<Seq<char>>,
    pub dropped: Seq<Seq<char>>,
}

impl View for Permissions {
    type V = PermissionsView;

    open spec fn view(&self) -> PermissionsView {
        PermissionsView {
            owners: text::texts(self.owners@),
            writers: text::texts(self.writers@),
            readers: text::texts(self.readers@),
            dropped: text::texts(self.dropped@),
        }
    }
}

/// A pending offer of a file or directory, by the path that it is meant for.
pub struct Proposal {
    pub id: String,
    pub target: String,
    pub modified_by: String,
    pub modified: Timestamp,
}

#[verifier::ext_equal]
pub struct ProposalView {
    pub id: Seq<char>,
    pub target: Seq<char>,
    pub modified_by: Seq<char>,
    pub modified: Timestamp,
}

impl View for Proposal {
    type V = ProposalView;

    open spec fn view(&self) -> ProposalView {
        ProposalView {
            id: self.id@,
            target: self.target@,
            modified_by: self.modified_by@,
            modified: self.modified,
        }
    }
}

/// Why a request is refused.
#[derive(Clone, Copy, PartialEq, Eq, Structural, Debug)]
pub enum FailureKind {
    NotFound,
    InvalidInput,
}

/// A refusal, with a sentence for the user.
#[derive(Debug)]
pub struct Failure {
    pub kind: FailureKind,
    pub message: String,
}

#[verifier::ext_equal]
pub struct FailureView {
    pub kind: FailureKind,
    pub message: Seq<char>,
}

impl View for Failure {
    type V = FailureView;

    open spec fn view(&self) -> FailureView {
        FailureView { kind: self.kind, message: self.message@ }
    }
}

impl Failure {
    /// A refusal of a request that makes no sense.
    pub fn invalid_input(message: &str) -> (failure: Failure)
        ensures
            failure@ == (FailureView { kind: FailureKind::InvalidInput, message: message@ }),
    {
        Failure { kind: FailureKind::InvalidInput, message: message.to_owned() }
    }
}

/// What a fallible function returned: the value's view, or the refusal's.
pub open spec fn outcome<T: View>(result: Result<T, Failure>) -> Result<T::V, FailureView> {
    match result {
        Ok(value) => Ok(value@),
        Err(failure) => Err(failure@),
    }
}

} // verus!
