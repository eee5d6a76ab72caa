//! Group chats: the non-owner permissions go to an 'all members' group, so
//! members can come and go.

use vstd::prelude::*;

use crate::chat::{self, create_chat_id};
use crate::ordering;
use crate::paths::{self, get_chat_ark_path, get_chat_file_path};
use crate::plan::{self, copies, none, one, Action, ActionView};
use crate::text::{self, same_text};
use crate::types::{
    Chat, ChatView, Failure, FailureKind, FailureView, Member, MemberView, Permission, Permissions,
    PermissionsView, Timestamp,
};

verus! {

/// What a new group chat starts with: its id, and the group to be created at
/// `group_path` with `members`.
pub struct GroupStart {
    pub id: String,
    pub group_path: String,
    pub members: Vec<String>,
}

/// Start a group chat with `members`; the caller is always a member. The chat id
/// is of the form `bob_2026-07-28T13-45-07.123Z`. Once the group is there,
/// `share_group_chat` goes on.
pub fn create_group_chat(
    account: &str,
    slug: Option<&str>,
    members: &[String],
    timestamp: &str,
) -> (start: GroupStart)
    ensures
        start.id@ == chat::chat_id_text(
            text::maybe_str(slug),
            text::texts(members@),
            timestamp@,
        ),
        start.group_path@ == paths::chat_file_text(start.id@, "group.json"@),
        text::texts(start.members@) == seq![account@] + text::texts(members@),
{
    let id = create_chat_id(slug, members, timestamp);
    let group_path = get_chat_file_path(id.as_str(), "group.json");
    let mut all_members = one(account);
    let mut others = copies(members);
    let ghost first = all_members@;
    all_members.append(&mut others);
    assert(text::texts(all_members@) =~= text::texts(first) + text::texts(members@));
    GroupStart { id, group_path, members: all_members }
}

/// The plan that shares a group chat: the caller owns it, and the group may
/// write to its directory and read its `chat.json`.
pub open spec fn group_chat_plan(
    account: Seq<char>,
    id: Seq<char>,
    name: Option<Seq<char>>,
    members: Seq<Seq<char>>,
    group: Seq<char>,
    now: Timestamp,
) -> Seq<ActionView> {
    let dir = paths::chat_path_text(id);
    let file = paths::chat_file_text(id, "chat.json"@);
    let owned = plan::owners_change(seq![account]);
    seq![
        ActionView::Put {
            path: dir,
            permissions: PermissionsView { writers: seq![group], ..owned },
        },
        ActionView::WriteChat {
            path: file,
            chat: ChatView { id, name, other_members: members, last_activity: now },
        },
        ActionView::Put {
            path: file,
            permissions: PermissionsView { readers: seq![group], ..owned },
        },
    ]
}

/// Share the group chat `id`, now that its group has the address `group`.
pub fn share_group_chat(
    account: &str,
    id: &str,
    name: Option<&str>,
    members: &[String],
    group: &str,
    now: Timestamp,
) -> (actions: Vec<Action>)
    ensures
        ordering::views(actions@) == group_chat_plan(
            account@,
            id@,
            text::maybe_str(name),
            text::texts(members@),
            group@,
            now,
        ),
{
    let chat_json_path = get_chat_file_path(id, "chat.json");
    let chat = Chat {
        id: id.to_owned(),
        name: match name {
            Some(name) => Some(name.to_owned()),
            None => None,
        },
        other_members: copies(members),
        last_activity: now,
    };
    let mut actions: Vec<Action> = Vec::new();
    actions.push(
        Action::Put {
            path: get_chat_ark_path(id),
            permissions: Permissions {
                owners: one(account),
                writers: one(group),
                readers: none(),
                dropped: none(),
            },
        },
    );
    actions.push(Action::WriteChat { path: chat_json_path.clone(), chat });
    actions.push(
        Action::Put {
            path: chat_json_path,
            permissions: Permissions {
                owners: one(account),
                writers: none(),
                readers: one(group),
                dropped: none(),
            },
        },
    );
    assert(ordering::views(actions@) =~= group_chat_plan(
        account@,
        id@,
        text::maybe_str(name),
        text::texts(members@),
        group@,
        now,
    ));
    actions
}

/// The path whose presence tells a group chat from a direct one: the group's
/// key, which every member holds.
pub fn get_group_key_path(chat_id: &str) -> (path: String)
    ensures
        path@ == paths::chat_file_text(chat_id@, "group.key"@),
{
    get_chat_file_path(chat_id, "group.key")
}

/// What a membership operation came to: the views of its actions, or of its
/// refusal.
pub open spec fn planned(
    result: Result<Vec<Action>, Failure>,
) -> Result<Seq<ActionView>, FailureView> {
    match result {
        Ok(actions) => Ok(ordering::views(actions@)),
        Err(failure) => Err(failure@),
    }
}

/// A refusal of a request that makes no sense.
pub open spec fn invalid(message: Seq<char>) -> Result<Seq<ActionView>, FailureView> {
    Err(FailureView { kind: FailureKind::InvalidInput, message })
}

/// The change of who the group of a chat stands for.
pub open spec fn change_members(
    chat_id: Seq<char>,
    added: Seq<Seq<char>>,
    dropped: Seq<Seq<char>>,
) -> ActionView {
    ActionView::ChangeMembers {
        path: paths::chat_file_text(chat_id, "group.json"@),
        added,
        dropped,
    }
}

/// What adding a member comes to. A member reaches the chat through the group,
/// so the chat's own permissions stay as they are.
pub open spec fn adding(
    chat_id: Seq<char>,
    address: Seq<char>,
    group: bool,
) -> Result<Seq<ActionView>, FailureView> {
    if !group {
        invalid("cannot add a member to a direct chat"@)
    } else {
        Ok(seq![change_members(chat_id, seq![address], Seq::empty())])
    }
}

/// Add a member.
///
/// Only messages sent from now on reach them — existing ones are owned by
/// their senders and are not re-shared. `group` says whether this is a group
/// chat.
pub fn add_group_chat_member(chat_id: &str, address: &str, group: bool) -> (result: Result<
    Vec<Action>,
    Failure,
>)
    ensures
        planned(result) == adding(chat_id@, address@, group),
{
    if !group {
        return Err(Failure::invalid_input("cannot add a member to a direct chat"));
    }
    let mut actions: Vec<Action> = Vec::new();
    actions.push(
        Action::ChangeMembers {
            path: get_chat_file_path(chat_id, "group.json"),
            added: one(address),
            dropped: none(),
        },
    );
    assert(ordering::views(actions@) =~= seq![
        change_members(chat_id@, seq![address@], Seq::empty()),
    ]);
    Ok(actions)
}

/// Whether a directory names an address.
pub open spec fn names(members: Seq<MemberView>, address: Seq<char>) -> bool {
    exists|i: int| 0 <= i < members.len() && (#[trigger] members[i]).address == address
}

fn is_named(members: &Vec<Member>, address: &str) -> (named: bool)
    ensures
        named == names(ordering::views(members@), address@),
{
    let mut i: usize = 0;
    while i < members.len()
        invariant
            i <= members.len(),
            forall|before: int|
                0 <= before < i ==> (#[trigger] ordering::views(members@)[before]).address
                    != address@,
        decreases members.len() - i,
    {
        assert(ordering::views(members@)[i as int] == members@[i as int]@);
        if same_text(members[i].address.as_str(), address) {
            return true;
        }
        i += 1;
    }
    false
}

/// Whether a directory names an owner other than `account`.
pub open spec fn has_other_owner(members: Seq<MemberView>, account: Seq<char>) -> bool {
    exists|i: int|
        0 <= i < members.len() && (#[trigger] members[i]).permission == Permission::Owner
            && members[i].address != account
}

/// Whether a directory names an owner other than `account`.
pub fn is_owned_by_another(members: &Vec<Member>, account: &str) -> (owned: bool)
    ensures
        owned == has_other_owner(ordering::views(members@), account@),
{
    let mut i: usize = 0;
    while i < members.len()
        invariant
            i <= members.len(),
            forall|before: int|
                0 <= before < i ==> !((#[trigger] ordering::views(members@)[before]).permission
                    == Permission::Owner && ordering::views(members@)[before].address != account@),
        decreases members.len() - i,
    {
        assert(ordering::views(members@)[i as int] == members@[i as int]@);
        if members[i].permission == Permission::Owner && !same_text(
            members[i].address.as_str(),
            account,
        ) {
            return true;
        }
        i += 1;
    }
    false
}

/// Whether a directory names `account` as its only owner.
pub open spec fn is_sole_owner(members: Seq<MemberView>, account: Seq<char>) -> bool {
    &&& exists|i: int|
        0 <= i < members.len() && (#[trigger] members[i]).permission == Permission::Owner
            && members[i].address == account
    &&& !has_other_owner(members, account)
}

/// Whether a directory names `account` as its only owner.
fn owns_alone(members: &Vec<Member>, account: &str) -> (alone: bool)
    ensures
        alone == is_sole_owner(ordering::views(members@), account@),
{
    let mut i: usize = 0;
    while i < members.len()
        invariant
            i <= members.len(),
            forall|before: int|
                0 <= before < i ==> !((#[trigger] ordering::views(members@)[before]).permission
                    == Permission::Owner && ordering::views(members@)[before].address == account@),
        decreases members.len() - i,
    {
        assert(ordering::views(members@)[i as int] == members@[i as int]@);
        if members[i].permission == Permission::Owner && same_text(
            members[i].address.as_str(),
            account,
        ) {
            return !is_owned_by_another(members, account);
        }
        i += 1;
    }
    false
}

/// What making a member an owner comes to. Both writes are full ones: a promoted
/// address may have no entry on its server yet, and metadata-only writes have
/// nothing to land on.
pub open spec fn promoting(
    chat_id: Seq<char>,
    address: Seq<char>,
    group: bool,
    chat_json: bool,
) -> Result<Seq<ActionView>, FailureView> {
    let permissions = plan::owners_change(seq![address]);
    let dir = ActionView::Put { path: paths::chat_path_text(chat_id), permissions };
    let file = ActionView::Put {
        path: paths::chat_file_text(chat_id, "chat.json"@),
        permissions,
    };
    if !group {
        invalid("cannot promote in a direct chat"@)
    } else if chat_json {
        Ok(seq![dir, file])
    } else {
        Ok(seq![dir])
    }
}

/// Make a member an owner. `group` says whether this is a group chat, and
/// `chat_json` whether its `chat.json` is there.
pub fn promote_group_chat_member(
    chat_id: &str,
    address: &str,
    group: bool,
    chat_json: bool,
) -> (result: Result<Vec<Action>, Failure>)
    ensures
        planned(result) == promoting(chat_id@, address@, group, chat_json),
{
    if !group {
        return Err(Failure::invalid_input("cannot promote in a direct chat"));
    }
    let mut actions: Vec<Action> = Vec::new();
    actions.push(
        Action::Put {
            path: get_chat_ark_path(chat_id),
            permissions: Permissions::owners(one(address)),
        },
    );
    if chat_json {
        actions.push(
            Action::Put {
                path: get_chat_file_path(chat_id, "chat.json"),
                permissions: Permissions::owners(one(address)),
            },
        );
    }
    assert(ordering::views(actions@) =~= promoting(chat_id@, address@, group, chat_json)->Ok_0);
    Ok(actions)
}

/// What making an owner an ordinary member comes to: the chat names the address
/// no longer, which leaves it what the group has. A sole owner cannot demote
/// itself.
pub open spec fn demoting(
    account: Seq<char>,
    chat_id: Seq<char>,
    address: Seq<char>,
    group: bool,
    dir_members: Seq<MemberView>,
    chat_json: bool,
) -> Result<Seq<ActionView>, FailureView> {
    let permissions = plan::drop_change(seq![address]);
    let dir = ActionView::PutPermissions { path: paths::chat_path_text(chat_id), permissions };
    let file = ActionView::PutPermissions {
        path: paths::chat_file_text(chat_id, "chat.json"@),
        permissions,
    };
    if !group {
        invalid("cannot demote in a direct chat"@)
    } else if address == account && is_sole_owner(dir_members, account) {
        invalid("cannot demote self: no other owner"@)
    } else if chat_json {
        Ok(seq![dir, file])
    } else {
        Ok(seq![dir])
    }
}

/// Make an owner an ordinary member. `group` says whether this is a group chat,
/// `dir_members` are those whom its directory names, and `chat_json` says
/// whether its `chat.json` is there.
pub fn demote_group_chat_member(
    account: &str,
    chat_id: &str,
    address: &str,
    group: bool,
    dir_members: &Vec<Member>,
    chat_json: bool,
) -> (result: Result<Vec<Action>, Failure>)
    ensures
        planned(result) == demoting(
            account@,
            chat_id@,
            address@,
            group,
            ordering::views(dir_members@),
            chat_json,
        ),
{
    if !group {
        return Err(Failure::invalid_input("cannot demote in a direct chat"));
    }
    if same_text(address, account) && owns_alone(dir_members, account) {
        return Err(Failure::invalid_input("cannot demote self: no other owner"));
    }
    let mut actions: Vec<Action> = Vec::new();
    actions.push(
        Action::PutPermissions {
            path: get_chat_ark_path(chat_id),
            permissions: Permissions::dropping(one(address)),
        },
    );
    if chat_json {
        actions.push(
            Action::PutPermissions {
                path: get_chat_file_path(chat_id, "chat.json"),
                permissions: Permissions::dropping(one(address)),
            },
        );
    }
    assert(ordering::views(actions@) =~= demoting(
        account@,
        chat_id@,
        address@,
        group,
        ordering::views(dir_members@),
        chat_json,
    )->Ok_0);
    Ok(actions)
}

/// What dropping a member comes to: a demotion where the chat's directory names
/// the address, and then a change of the group.
pub open spec fn removing(
    account: Seq<char>,
    chat_id: Seq<char>,
    address: Seq<char>,
    group: bool,
    dir_members: Seq<MemberView>,
    chat_json: bool,
) -> Result<Seq<ActionView>, FailureView> {
    let change = change_members(chat_id, Seq::empty(), seq![address]);
    if !group {
        invalid("cannot remove a member from a direct chat"@)
    } else if names(dir_members, address) {
        match demoting(account, chat_id, address, group, dir_members, chat_json) {
            Ok(actions) => Ok(actions.push(change)),
            Err(failure) => Err(failure),
        }
    } else {
        Ok(seq![change])
    }
}

/// Drop a member. `group` says whether this is a group chat, `dir_members` are
/// those whom its directory names, and `chat_json` says whether its `chat.json`
/// is there.
pub fn remove_group_chat_member(
    account: &str,
    chat_id: &str,
    address: &str,
    group: bool,
    dir_members: &Vec<Member>,
    chat_json: bool,
) -> (result: Result<Vec<Action>, Failure>)
    ensures
        planned(result) == removing(
            account@,
            chat_id@,
            address@,
            group,
            ordering::views(dir_members@),
            chat_json,
        ),
{
    if !group {
        return Err(Failure::invalid_input("cannot remove a member from a direct chat"));
    }
    let mut actions: Vec<Action> = Vec::new();
    if is_named(dir_members, address) {
        match demote_group_chat_member(account, chat_id, address, group, dir_members, chat_json) {
            Ok(demotion) => {
                actions = demotion;
            },
            Err(failure) => {
                return Err(failure);
            },
        }
    }
    actions.push(
        Action::ChangeMembers {
            path: get_chat_file_path(chat_id, "group.json"),
            added: none(),
            dropped: one(address),
        },
    );
    assert(ordering::views(actions@) =~= removing(
        account@,
        chat_id@,
        address@,
        group,
        ordering::views(dir_members@),
        chat_json,
    )->Ok_0);
    Ok(actions)
}

/// The members of a direct chat are fixed: whatever is asked, nothing is done.
pub proof fn direct_chat_members_are_fixed(
    account: Seq<char>,
    chat_id: Seq<char>,
    address: Seq<char>,
    dir_members: Seq<MemberView>,
    chat_json: bool,
)
    ensures
        adding(chat_id, address, false) matches Err(failure) && failure.kind
            == FailureKind::InvalidInput,
        promoting(chat_id, address, false, chat_json) matches Err(failure) && failure.kind
            == FailureKind::InvalidInput,
        demoting(account, chat_id, address, false, dir_members, chat_json) matches Err(failure)
            && failure.kind == FailureKind::InvalidInput,
        removing(account, chat_id, address, false, dir_members, chat_json) matches Err(failure)
            && failure.kind == FailureKind::InvalidInput,
{
}

/// A group chat keeps an owner: an account that is its only one can neither
/// demote nor remove itself.
pub proof fn sole_owner_stays(
    account: Seq<char>,
    chat_id: Seq<char>,
    dir_members: Seq<MemberView>,
    chat_json: bool,
)
    requires
        is_sole_owner(dir_members, account),
    ensures
        demoting(account, chat_id, account, true, dir_members, chat_json) matches Err(failure)
            && failure.kind == FailureKind::InvalidInput,
        removing(account, chat_id, account, true, dir_members, chat_json) matches Err(failure)
            && failure.kind == FailureKind::InvalidInput,
{
}

/// Whether an action changes permissions by a metadata-only write, or changes
/// none.
pub open spec fn introduces_nothing(action: ActionView) -> bool {
    action is PutPermissions || action is ChangeMembers
}

/// Dropping permissions introduces no file to anybody, so demotions and removals
/// upload nothing; a promotion may introduce the chat to the address, so it
/// uploads what it writes.
pub proof fn only_promotions_upload(
    account: Seq<char>,
    chat_id: Seq<char>,
    address: Seq<char>,
    group: bool,
    dir_members: Seq<MemberView>,
    chat_json: bool,
)
    ensures
        demoting(account, chat_id, address, group, dir_members, chat_json) matches Ok(actions)
            ==> forall|i: int| 0 <= i < actions.len() ==> introduces_nothing(#[trigger] actions[i]),
        removing(account, chat_id, address, group, dir_members, chat_json) matches Ok(actions)
            ==> forall|i: int| 0 <= i < actions.len() ==> introduces_nothing(#[trigger] actions[i]),
        promoting(chat_id, address, group, chat_json) matches Ok(actions) ==> forall|i: int|
            0 <= i < actions.len() ==> (#[trigger] actions[i]) is Put,
{
}

/// A promotion and a demotion write the same permissions to the chat's directory
/// and, where it is there, to its `chat.json`.
pub proof fn directory_and_chat_file_agree(
    account: Seq<char>,
    chat_id: Seq<char>,
    address: Seq<char>,
    group: bool,
    dir_members: Seq<MemberView>,
)
    ensures
        promoting(chat_id, address, group, true) matches Ok(actions) ==> actions.len() == 2
            && actions[0]->Put_permissions == actions[1]->Put_permissions,
        demoting(account, chat_id, address, group, dir_members, true) matches Ok(actions)
            ==> actions.len() == 2 && actions[0]->PutPermissions_permissions
            == actions[1]->PutPermissions_permissions,
{
}

/// A group chat is shared in this order: its directory, then its `chat.json`,
/// which is written first. The account owns both; the group may write to the
/// directory and read the `chat.json`; nobody else is named.
pub proof fn group_chats_are_shared_step_by_step(
    account: Seq<char>,
    id: Seq<char>,
    name: Option<Seq<char>>,
    members: Seq<Seq<char>>,
    group: Seq<char>,
    now: Timestamp,
)
    ensures
        ({
            let steps = group_chat_plan(account, id, name, members, group, now);
            let dir = "/apps/msg/chats/"@ + id;
            let file = "/apps/msg/chats/"@ + id + "/"@ + "chat.json"@;
            let none = Seq::<Seq<char>>::empty();
            let chat = ChatView { id, name, other_members: members, last_activity: now };
            &&& steps.len() == 3
            &&& steps[0] == ActionView::Put {
                path: dir,
                permissions: PermissionsView {
                    owners: seq![account],
                    writers: seq![group],
                    readers: none,
                    dropped: none,
                },
            }
            &&& steps[1] == ActionView::WriteChat { path: file, chat }
            &&& steps[2] == ActionView::Put {
                path: file,
                permissions: PermissionsView {
                    owners: seq![account],
                    writers: none,
                    readers: seq![group],
                    dropped: none,
                },
            }
        }),
{
    paths::chats_lie_under_their_root(id, "chat.json"@);
}

/// Whether `account` is an owner by some entry, and nobody else is one by any.
pub open spec fn owns_it_alone(dir_members: Seq<MemberView>, account: Seq<char>) -> bool {
    &&& exists|i: int|
        0 <= i < dir_members.len() && (#[trigger] dir_members[i]).permission == Permission::Owner
    &&& forall|i: int|
        0 <= i < dir_members.len() && (#[trigger] dir_members[i]).permission == Permission::Owner
            ==> dir_members[i].address == account
}

/// In a group chat a demotion is refused only where an account demotes itself that
/// is the only owner whom the directory names, and so is a removal; in every other
/// case both succeed, however many members there are.
pub proof fn only_the_sole_owner_is_refused(
    account: Seq<char>,
    chat_id: Seq<char>,
    address: Seq<char>,
    dir_members: Seq<MemberView>,
    chat_json: bool,
)
    ensures
        ({
            let refused = address == account && owns_it_alone(dir_members, account);
            let demotion = demoting(account, chat_id, address, true, dir_members, chat_json);
            let removal = removing(account, chat_id, address, true, dir_members, chat_json);
            let refusal = Err::<Seq<ActionView>, FailureView>(
                FailureView {
                    kind: FailureKind::InvalidInput,
                    message: "cannot demote self: no other owner"@,
                },
            );
            &&& refused ==> demotion == refusal && removal == refusal
            &&& !refused ==> demotion is Ok && removal is Ok
            &&& demotion is Err ==> refused
            &&& removal is Err ==> refused
            &&& adding(chat_id, address, true) is Ok
            &&& promoting(chat_id, address, true, chat_json) is Ok
        }),
{
    let alone = owns_it_alone(dir_members, account);
    assert(alone == is_sole_owner(dir_members, account)) by {
        if alone {
            let i = choose|i: int|
                0 <= i < dir_members.len() && (#[trigger] dir_members[i]).permission
                    == Permission::Owner;
            assert(dir_members[i].address == account);
        }
        if is_sole_owner(dir_members, account) {
            assert forall|i: int| 0 <= i < dir_members.len() && (#[trigger] dir_members[i]).permission
                == Permission::Owner implies dir_members[i].address == account by {}
        }
    }
    if alone {
        let i = choose|i: int|
            0 <= i < dir_members.len() && (#[trigger] dir_members[i]).permission
                == Permission::Owner;
        assert(dir_members[i].address == account);
        assert(names(dir_members, account));
    }
}

/// A member is added by one change of the group, which drops nobody.
pub proof fn members_are_added_to_the_group(chat_id: Seq<char>, address: Seq<char>)
    ensures
        adding(chat_id, address, true) == Ok::<Seq<ActionView>, FailureView>(
            seq![
                ActionView::ChangeMembers {
                    path: "/apps/msg/chats/"@ + chat_id + "/"@ + "group.json"@,
                    added: seq![address],
                    dropped: Seq::empty(),
                },
            ],
        ),
{
    paths::chats_lie_under_their_root(chat_id, "group.json"@);
}

/// A promotion makes the address an owner of the directory, and then of the
/// `chat.json` where that is there.
pub proof fn promotions_go_to_directory_and_chat_file(
    chat_id: Seq<char>,
    address: Seq<char>,
    chat_json: bool,
)
    ensures
        ({
            let none = Seq::<Seq<char>>::empty();
            let owner = PermissionsView {
                owners: seq![address],
                writers: none,
                readers: none,
                dropped: none,
            };
            let dir = ActionView::Put {
                path: "/apps/msg/chats/"@ + chat_id,
                permissions: owner,
            };
            let file = ActionView::Put {
                path: "/apps/msg/chats/"@ + chat_id + "/"@ + "chat.json"@,
                permissions: owner,
            };
            promoting(chat_id, address, true, chat_json) == Ok::<Seq<ActionView>, FailureView>(
                if chat_json {
                    seq![dir, file]
                } else {
                    seq![dir]
                },
            )
        }),
{
    paths::chats_lie_under_their_root(chat_id, "chat.json"@);
}

/// A demotion drops the address from the directory, and then from the `chat.json`
/// where that is there; a removal does the same where the directory names the
/// address at all, and then drops it from the group.
pub proof fn demotions_go_to_directory_and_chat_file(
    account: Seq<char>,
    chat_id: Seq<char>,
    address: Seq<char>,
    dir_members: Seq<MemberView>,
    chat_json: bool,
)
    requires
        !(address == account && owns_it_alone(dir_members, account)),
    ensures
        ({
            let none = Seq::<Seq<char>>::empty();
            let gone = PermissionsView {
                owners: none,
                writers: none,
                readers: none,
                dropped: seq![address],
            };
            let dir = ActionView::PutPermissions {
                path: "/apps/msg/chats/"@ + chat_id,
                permissions: gone,
            };
            let file = ActionView::PutPermissions {
                path: "/apps/msg/chats/"@ + chat_id + "/"@ + "chat.json"@,
                permissions: gone,
            };
            let left = ActionView::ChangeMembers {
                path: "/apps/msg/chats/"@ + chat_id + "/"@ + "group.json"@,
                added: none,
                dropped: seq![address],
            };
            let demotion = if chat_json {
                seq![dir, file]
            } else {
                seq![dir]
            };
            let named = exists|i: int|
                0 <= i < dir_members.len() && (#[trigger] dir_members[i]).address == address;
            &&& demoting(account, chat_id, address, true, dir_members, chat_json) == Ok::<
                Seq<ActionView>,
                FailureView,
            >(demotion)
            &&& removing(account, chat_id, address, true, dir_members, chat_json) == Ok::<
                Seq<ActionView>,
                FailureView,
            >(
                if named {
                    demotion.push(left)
                } else {
                    seq![left]
                },
            )
        }),
{
    only_the_sole_owner_is_refused(account, chat_id, address, dir_members, chat_json);
    paths::chats_lie_under_their_root(chat_id, "chat.json"@);
    paths::chats_lie_under_their_root(chat_id, "group.json"@);
    let named = exists|i: int|
        0 <= i < dir_members.len() && (#[trigger] dir_members[i]).address == address;
    assert(named == names(dir_members, address));
}

/// What is refused in a direct chat is refused with the reason.
pub proof fn refusals_in_direct_chats_have_their_reasons(
    account: Seq<char>,
    chat_id: Seq<char>,
    address: Seq<char>,
    dir_members: Seq<MemberView>,
    chat_json: bool,
)
    ensures
        ({
            let refusal = |message: Seq<char>|
                Err::<Seq<ActionView>, FailureView>(
                    FailureView { kind: FailureKind::InvalidInput, message },
                );
            &&& adding(chat_id, address, false) == refusal("cannot add a member to a direct chat"@)
            &&& promoting(chat_id, address, false, chat_json) == refusal(
                "cannot promote in a direct chat"@,
            )
            &&& demoting(account, chat_id, address, false, dir_members, chat_json) == refusal(
                "cannot demote in a direct chat"@,
            )
            &&& removing(account, chat_id, address, false, dir_members, chat_json) == refusal(
                "cannot remove a member from a direct chat"@,
            )
        }),
{
}

} // verus!
