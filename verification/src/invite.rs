//! Invites: the proposals of chat directories that are pending.

use vstd::prelude::*;

use crate::ordering;
use crate::paths::{self, chats_root};
use crate::text::{self, contains, find, strip_end, substring, to_chars, CharClass};
use crate::text_laws;
use crate::types::{Invite, InviteView, Proposal, ProposalView};

verus! {

/// `apps/msg/chats/`.
pub open spec fn chats_prefix() -> Seq<char> {
    paths::chats_root_text() + "/"@
}

/// What stands behind the first `part` in `s`.
pub open spec fn after_first(s: Seq<char>, part: Seq<char>) -> Option<Seq<char>> {
    if text::occurs(s, part) {
        let at = choose|at: int| text::occurs_first_at(s, part, at);
        Some(s.skip(at + part.len()))
    } else {
        None
    }
}

proof fn lemma_after_first(s: Seq<char>, part: Seq<char>, at: int)
    requires
        text::occurs_first_at(s, part, at),
    ensures
        after_first(s, part) == Some(s.skip(at + part.len())),
{
    assert(text::occurs(s, part));
    let chosen = choose|i: int| text::occurs_first_at(s, part, i);
    assert(text::occurs_first_at(s, part, chosen));
    assert(chosen == at) by {
        if chosen < at {
            assert(!text::occurs_at(s, part, chosen));
        } else if at < chosen {
            assert(!text::occurs_at(s, part, at));
        }
    }
}

/// The id of the chat whose directory a proposal is for. A proposal for a file
/// within a chat directory is for no directory of a chat.
pub open spec fn invited_chat(target: Seq<char>) -> Option<Seq<char>> {
    match after_first(target, chats_prefix()) {
        Some(rest) => {
            let chat_id = text::strip_back(rest, CharClass::Only('/'));
            if chat_id.len() == 0 || chat_id.contains('/') {
                None
            } else {
                Some(chat_id)
            }
        },
        None => None,
    }
}

/// The invite that a proposal is, if it is one.
pub open spec fn invite_of(proposal: ProposalView) -> Option<InviteView> {
    match invited_chat(proposal.target) {
        Some(chat_id) => Some(
            InviteView {
                proposal_id: proposal.id,
                chat_id,
                proposer: proposal.modified_by,
                proposed: proposal.modified,
            },
        ),
        None => None,
    }
}

/// The invites among some proposals, as they come.
pub open spec fn invites_of(proposals: Seq<ProposalView>) -> Seq<InviteView>
    decreases proposals.len(),
{
    if proposals.len() == 0 {
        Seq::empty()
    } else {
        let front = invites_of(proposals.drop_last());
        match invite_of(proposals.last()) {
            Some(invite) => front.push(invite),
            None => front,
        }
    }
}

fn holds_char(chars: &Vec<char>, c: char) -> (held: bool)
    ensures
        held == chars@.contains(c),
{
    let mut i: usize = 0;
    while i < chars.len()
        invariant
            i <= chars.len(),
            forall|before: int| 0 <= before < i ==> chars@[before] != c,
        decreases chars.len() - i,
    {
        if chars[i] == c {
            return true;
        }
        i += 1;
    }
    false
}

/// The id of the chat whose directory a proposal is for, if it is for one.
pub fn get_invited_chat(target: &str) -> (chat_id: Option<String>)
    ensures
        text::maybe_text(chat_id) == invited_chat(target@),
{
    let mut prefix = chats_root();
    prefix.append("/");
    let chars = to_chars(target);
    let prefix_chars = to_chars(prefix.as_str());
    match find(&chars, &prefix_chars) {
        None => None,
        Some(at) => {
            proof {
                lemma_after_first(target@, prefix@, at as int);
            }
            let rest = substring(&chars, at + prefix_chars.len(), chars.len());
            assert(rest@ =~= target@.skip(at + prefix@.len()));
            let chat_id = strip_end(rest.as_str(), CharClass::Only('/'));
            let id_chars = to_chars(chat_id.as_str());
            if id_chars.len() == 0 || holds_char(&id_chars, '/') {
                None
            } else {
                Some(chat_id)
            }
        },
    }
}

/// List pending chat invites — one per proposal for a chat dir
/// `apps/msg/chats/<chat_id>`. Proposals for files within a chat dir are not
/// invites of their own; they are handled along with the dir.
pub fn list_invites(proposals: &Vec<Proposal>) -> (invites: Vec<Invite>)
    ensures
        ordering::views(invites@) == invites_of(ordering::views(proposals@)),
{
    let ghost all = ordering::views(proposals@);
    let mut invites: Vec<Invite> = Vec::new();
    assert(ordering::views(invites@) =~= Seq::<InviteView>::empty());
    let mut i: usize = 0;
    while i < proposals.len()
        invariant
            i <= proposals.len(),
            all == ordering::views(proposals@),
            ordering::views(invites@) == invites_of(all.take(i as int)),
        decreases proposals.len() - i,
    {
        assert(all.take(i + 1).drop_last() =~= all.take(i as int));
        let proposal = &proposals[i];
        match get_invited_chat(proposal.target.as_str()) {
            Some(chat_id) => {
                let ghost before = invites@;
                invites.push(
                    Invite {
                        proposal_id: proposal.id.clone(),
                        chat_id,
                        proposer: proposal.modified_by.clone(),
                        proposed: proposal.modified,
                    },
                );
                assert(ordering::views(invites@) =~= ordering::views(before).push(
                    invites@.last()@,
                ));
            },
            None => {},
        }
        i += 1;
    }
    assert(all.take(i as int) =~= all);
    invites
}

/// `apps/msg/chats/<chat_id>/`.
pub open spec fn within_chat(chat_id: Seq<char>) -> Seq<char> {
    chats_prefix() + chat_id + "/"@
}

/// The ids of the proposals for files within a chat dir.
pub open spec fn chat_proposal_ids(
    proposals: Seq<ProposalView>,
    chat_id: Seq<char>,
) -> Seq<Seq<char>>
    decreases proposals.len(),
{
    if proposals.len() == 0 {
        Seq::empty()
    } else {
        let front = chat_proposal_ids(proposals.drop_last(), chat_id);
        if text::occurs(proposals.last().target, within_chat(chat_id)) {
            front.push(proposals.last().id)
        } else {
            front
        }
    }
}

/// The ids of the pending proposals for files within a chat dir. Call only
/// once the chat dir's own proposal is gone, or it is included too where its
/// target ends in a slash.
pub fn list_chat_proposal_ids(proposals: &Vec<Proposal>, chat_id: &str) -> (ids: Vec<String>)
    ensures
        text::texts(ids@) == chat_proposal_ids(ordering::views(proposals@), chat_id@),
{
    let ghost all = ordering::views(proposals@);
    let mut prefix = chats_root();
    prefix.append("/");
    prefix.append(chat_id);
    prefix.append("/");
    let mut ids: Vec<String> = Vec::new();
    assert(text::texts(ids@) =~= Seq::<Seq<char>>::empty());
    let mut i: usize = 0;
    while i < proposals.len()
        invariant
            i <= proposals.len(),
            all == ordering::views(proposals@),
            prefix@ == within_chat(chat_id@),
            text::texts(ids@) == chat_proposal_ids(all.take(i as int), chat_id@),
        decreases proposals.len() - i,
    {
        assert(all.take(i + 1).drop_last() =~= all.take(i as int));
        if contains(proposals[i].target.as_str(), prefix.as_str()) {
            let ghost before = ids@;
            ids.push(proposals[i].id.clone());
            assert(text::texts(ids@) =~= text::texts(before).push(proposals@[i as int].id@));
        }
        i += 1;
    }
    assert(all.take(i as int) =~= all);
    ids
}

/// What to answer proposals.
#[derive(Clone, Copy, PartialEq, Eq, Structural, Debug)]
pub enum Answer {
    Accept,
    Reject,
}

/// An invite being answered: first the proposal of the chat dir, and then, by
/// what is pending after that, those of the files within it.
pub struct Settlement {
    pub answer: Answer,
    pub first: String,
    pub chat_id: String,
}

/// Accept an invite: the chat dir, then any pending proposals for files
/// within it (e.g. `chat.json`, the 'all members' group).
pub fn accept_invite(invite: &Invite) -> (settlement: Settlement)
    ensures
        settlement.answer == Answer::Accept,
        settlement.first@ == invite.proposal_id@,
        settlement.chat_id@ == invite.chat_id@,
{
    Settlement {
        answer: Answer::Accept,
        first: invite.proposal_id.clone(),
        chat_id: invite.chat_id.clone(),
    }
}

/// Reject an invite, along with any pending proposals for files within the
/// chat dir.
pub fn reject_invite(invite: &Invite) -> (settlement: Settlement)
    ensures
        settlement.answer == Answer::Reject,
        settlement.first@ == invite.proposal_id@,
        settlement.chat_id@ == invite.chat_id@,
{
    Settlement {
        answer: Answer::Reject,
        first: invite.proposal_id.clone(),
        chat_id: invite.chat_id.clone(),
    }
}

impl Settlement {
    /// The proposals that get the same answer, of those pending once the first
    /// one has got it.
    pub fn rest(&self, pending: &Vec<Proposal>) -> (ids: Vec<String>)
        ensures
            text::texts(ids@) == chat_proposal_ids(ordering::views(pending@), self.chat_id@),
    {
        list_chat_proposal_ids(pending, self.chat_id.as_str())
    }
}

/// A chat's directory, proposed under the path that the chat has, is an invite
/// to that chat, and not one of the files within it.
pub proof fn chat_directory_is_an_invite(chat_id: Seq<char>)
    requires
        chat_id.len() > 0,
        !chat_id.contains('/'),
    ensures
        invited_chat(paths::chat_path_text(chat_id)) == Some(chat_id),
        !text::occurs(paths::chat_path_text(chat_id), within_chat(chat_id)),
{
    let target = paths::chat_path_text(chat_id);
    lemma_prefix_in_path(chat_id, Seq::empty());
    assert(target + Seq::<char>::empty() =~= target);
    assert(chat_id + Seq::<char>::empty() =~= chat_id);
    assert(chat_id[chat_id.len() - 1] != '/');
    let part = within_chat(chat_id);
    assert forall|at: int| !text::occurs_at(target, part, at) by {
        reveal_strlit("/");
        reveal_strlit("apps/msg");
        reveal_strlit("/chats");
        if text::occurs_at(target, part, at) {
            assert(target.subrange(at, at + part.len())[0] == part[0]);
        }
    }
}

/// A file within a chat's directory, proposed under the path that it has, is no
/// invite, and is answered along with the directory.
pub proof fn chat_file_is_answered_with_its_chat(chat_id: Seq<char>, name: Seq<char>)
    requires
        name.len() > 0,
        name.last() != '/',
    ensures
        invited_chat(paths::chat_file_text(chat_id, name)) is None,
        text::occurs(paths::chat_file_text(chat_id, name), within_chat(chat_id)),
{
    let target = paths::chat_file_text(chat_id, name);
    let tail = "/"@ + name;
    lemma_prefix_in_path(chat_id, tail);
    assert(target =~= paths::chat_path_text(chat_id) + tail);
    reveal_strlit("/");
    reveal_strlit("apps/msg");
    reveal_strlit("/chats");
    let rest = chat_id + tail;
    assert(rest.last() == name.last());
    assert(rest[chat_id.len() as int] == '/');
    let part = within_chat(chat_id);
    assert(target.subrange(1, 1 + part.len() as int) =~= part);
    assert(text::occurs_at(target, part, 1));
}

/// What stands behind the chats' directory in a path within it.
proof fn lemma_prefix_in_path(chat_id: Seq<char>, tail: Seq<char>)
    ensures
        after_first(paths::chat_path_text(chat_id) + tail, chats_prefix()) == Some(chat_id + tail),
{
    reveal_strlit("/");
    reveal_strlit("apps/msg");
    reveal_strlit("/chats");
    let target = paths::chat_path_text(chat_id) + tail;
    let prefix = chats_prefix();
    assert(target.subrange(1, 1 + prefix.len() as int) =~= prefix);
    assert(!text::occurs_at(target, prefix, 0)) by {
        assert(target[0] == '/');
        assert(prefix[0] == 'a');
        if text::occurs_at(target, prefix, 0) {
            assert(target.subrange(0, prefix.len() as int)[0] == prefix[0]);
        }
    }
    lemma_after_first(target, prefix, 1);
    assert(target.skip(1 + prefix.len() as int) =~= chat_id + tail);
}

/// A proposal invites to the chat whose id stands behind the first
/// `apps/msg/chats/` in its target, up to slashes at the end. It invites to none
/// where nothing else stands there, where something within the chat does, or where
/// the target is elsewhere.
pub proof fn targets_name_their_chat(
    target: Seq<char>,
    at: int,
    chat_id: Seq<char>,
    slashes: Seq<char>,
    inner: Seq<char>,
)
    requires
        text::occurs_first_at(target, "apps/msg/chats/"@, at),
        forall|i: int| 0 <= i < slashes.len() ==> slashes[i] == '/',
        !chat_id.contains('/'),
    ensures
        ({
            let rest = target.skip(at + 15);
            &&& chat_id.len() > 0 && rest == chat_id + slashes ==> invited_chat(target) == Some(
                chat_id,
            )
            &&& rest == slashes ==> invited_chat(target) is None
            &&& rest == chat_id.push('/') + inner && inner.len() > 0 && inner.last() != '/'
                ==> invited_chat(target) is None
        }),
{
    lemma_chats_prefix();
    reveal_strlit("apps/msg/chats/");
    lemma_after_first(target, chats_prefix(), at);
    let rest = target.skip(at + 15);
    assert(after_first(target, chats_prefix()) == Some(rest));
    let stripped = text::strip_back(rest, CharClass::Only('/'));
    text_laws::stripping_the_end_takes_one_character_off(rest, '/');
    if chat_id.len() > 0 && rest == chat_id + slashes {
        assert(chat_id.contains(chat_id.last()));
        assert(stripped.len() == chat_id.len()) by {
            if stripped.len() < chat_id.len() {
                assert(rest[chat_id.len() - 1] == chat_id.last());
            } else if stripped.len() > chat_id.len() {
                assert(stripped.last() == slashes[stripped.len() - 1 - chat_id.len()]);
            }
        }
        assert(stripped =~= chat_id);
    }
    if rest == slashes {
        if stripped.len() > 0 {
            assert(stripped.last() == slashes[stripped.len() - 1]);
        }
    }
    if rest == chat_id.push('/') + inner && inner.len() > 0 && inner.last() != '/' {
        assert(rest.last() == inner.last());
        assert(stripped.len() == rest.len());
        assert(stripped[chat_id.len() as int] == '/');
    }
}

/// A target that is not under `apps/msg/chats/` invites to no chat, and only one
/// that is there invites to any.
pub proof fn other_targets_invite_to_nothing(target: Seq<char>)
    ensures
        !text::occurs(target, "apps/msg/chats/"@) ==> invited_chat(target) is None,
        invited_chat(target) matches Some(chat_id) ==> {
            &&& chat_id.len() > 0
            &&& !chat_id.contains('/')
            &&& text::occurs(target, "apps/msg/chats/"@ + chat_id)
        },
{
    lemma_chats_prefix();
    if let Some(chat_id) = invited_chat(target) {
        let prefix = chats_prefix();
        let some = choose|at: int| text::occurs_at(target, prefix, at);
        let at = text_laws::lemma_first(target, prefix, some);
        lemma_after_first(target, prefix, at);
        let rest = target.skip(at + prefix.len() as int);
        text_laws::stripping_the_end_takes_one_character_off(rest, '/');
        let whole = prefix + chat_id;
        assert(target.subrange(at, at + whole.len()) =~= whole) by {
            assert(target.subrange(at, at + prefix.len()) == prefix);
            assert forall|i: int| 0 <= i < whole.len() implies target[at + i] == whole[i] by {
                if i < prefix.len() {
                    assert(target.subrange(at, at + prefix.len())[i] == prefix[i]);
                } else {
                    assert(rest[i - prefix.len()] == chat_id[i - prefix.len()]);
                }
            }
        }
        assert(text::occurs_at(target, whole, at));
    }
}

proof fn lemma_chats_prefix()
    ensures
        chats_prefix() == "apps/msg/chats/"@,
        "apps/msg/chats/"@.len() == 15,
{
    reveal_strlit("apps/msg");
    reveal_strlit("/chats");
    reveal_strlit("/");
    reveal_strlit("apps/msg/chats/");
    assert(chats_prefix() =~= "apps/msg/chats/"@);
}

/// Each proposal is looked at on its own: one that invites to a chat is an invite
/// with its id, who proposed it and when, and another is none.
pub proof fn each_proposal_is_looked_at_on_its_own(
    a: Seq<ProposalView>,
    b: Seq<ProposalView>,
    proposal: ProposalView,
)
    ensures
        invites_of(Seq::empty()) == Seq::<InviteView>::empty(),
        invites_of(a + b) == invites_of(a) + invites_of(b),
        invites_of(seq![proposal]) == (match invited_chat(proposal.target) {
            Some(chat_id) => seq![
                InviteView {
                    proposal_id: proposal.id,
                    chat_id,
                    proposer: proposal.modified_by,
                    proposed: proposal.modified,
                },
            ],
            None => Seq::empty(),
        }),
    decreases b.len(),
{
    reveal_with_fuel(invites_of, 2);
    assert(seq![proposal].drop_last() =~= Seq::<ProposalView>::empty());
    if b.len() == 0 {
        assert(a + b =~= a);
        assert(invites_of(a) + invites_of(b) =~= invites_of(a));
    } else {
        each_proposal_is_looked_at_on_its_own(a, b.drop_last(), proposal);
        assert((a + b).drop_last() =~= a + b.drop_last());
        assert(invites_of(a + b) =~= invites_of(a) + invites_of(b));
    }
}

/// A chat's files are all found among the proposals, one by one and in their
/// order: those whose target is within the chat's directory.
pub proof fn each_file_of_a_chat_is_found(
    a: Seq<ProposalView>,
    b: Seq<ProposalView>,
    proposal: ProposalView,
    chat_id: Seq<char>,
)
    ensures
        chat_proposal_ids(Seq::empty(), chat_id) == Seq::<Seq<char>>::empty(),
        chat_proposal_ids(a + b, chat_id) == chat_proposal_ids(a, chat_id) + chat_proposal_ids(
            b,
            chat_id,
        ),
        chat_proposal_ids(seq![proposal], chat_id) == (if text::occurs(
            proposal.target,
            "apps/msg/chats/"@ + chat_id + "/"@,
        ) {
            seq![proposal.id]
        } else {
            Seq::empty()
        }),
    decreases b.len(),
{
    lemma_chats_prefix();
    reveal_with_fuel(chat_proposal_ids, 2);
    assert(seq![proposal].drop_last() =~= Seq::<ProposalView>::empty());
    if b.len() == 0 {
        assert(a + b =~= a);
        assert(chat_proposal_ids(a, chat_id) + chat_proposal_ids(b, chat_id) =~= chat_proposal_ids(
            a,
            chat_id,
        ));
    } else {
        each_file_of_a_chat_is_found(a, b.drop_last(), proposal, chat_id);
        assert((a + b).drop_last() =~= a + b.drop_last());
        assert(chat_proposal_ids(a + b, chat_id) =~= chat_proposal_ids(a, chat_id)
            + chat_proposal_ids(b, chat_id));
    }
}

} // verus!
