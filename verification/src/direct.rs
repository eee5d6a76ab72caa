//! Direct chats: a fixed pair of members, both of whom own the chat.

use vstd::prelude::*;

use crate::chat::{self, create_chat_id};
use crate::ordering;
use crate::paths::{self, get_chat_ark_path, get_chat_file_path};
use crate::plan::{self, one, two, Action, ActionView};
use crate::text;
use crate::types::{Chat, ChatView, Permissions, PermissionsView, Timestamp};

verus! {

/// A new chat's id, and the plan that creates it.
pub struct NewChatPlan {
    pub id: String,
    pub actions: Vec<Action>,
}

/// The plan that creates a direct chat.
pub open spec fn direct_chat_plan(
    account: Seq<char>,
    id: Seq<char>,
    name: Option<Seq<char>>,
    address: Seq<char>,
    now: Timestamp,
) -> Seq<ActionView> {
    let dir = paths::chat_path_text(id);
    let file = paths::chat_file_text(id, "chat.json"@);
    let permissions = plan::owners_change(seq![account, address]);
    seq![
        ActionView::CreateDir { path: dir },
        ActionView::Put { path: dir, permissions },
        ActionView::WriteChat {
            path: file,
            chat: ChatView { id, name, other_members: seq![address], last_activity: now },
        },
        ActionView::Put { path: file, permissions },
    ]
}

/// Create a direct chat with `address` and share it. The plan holds the chat id
/// (e.g. `bob_2026-07-28T13-45-07.123Z`); `timestamp` is the moment `now` as it
/// stands in file names.
pub fn create_direct_chat(
    account: &str,
    name: Option<&str>,
    slug: Option<&str>,
    address: &str,
    timestamp: &str,
    now: Timestamp,
) -> (plan: NewChatPlan)
    ensures
        plan.id@ == chat::chat_id_text(text::maybe_str(slug), seq![address@], timestamp@),
        ordering::views(plan.actions@) == direct_chat_plan(
            account@,
            plan.id@,
            text::maybe_str(name),
            address@,
            now,
        ),
{
    let id = create_chat_id(slug, one(address).as_slice(), timestamp);
    let path = get_chat_ark_path(id.as_str());
    let chat_json_path = get_chat_file_path(id.as_str(), "chat.json");
    let chat = Chat {
        id: id.clone(),
        name: match name {
            Some(name) => Some(name.to_owned()),
            None => None,
        },
        other_members: one(address),
        last_activity: now,
    };
    let mut actions: Vec<Action> = Vec::new();
    actions.push(Action::CreateDir { path: path.clone() });
    actions.push(Action::Put { path, permissions: Permissions::owners(two(account, address)) });
    actions.push(Action::WriteChat { path: chat_json_path.clone(), chat });
    actions.push(
        Action::Put {
            path: chat_json_path,
            permissions: Permissions::owners(two(account, address)),
        },
    );
    assert(ordering::views(actions@) =~= direct_chat_plan(
        account@,
        id@,
        text::maybe_str(name),
        address@,
        now,
    ));
    NewChatPlan { id, actions }
}

/// A direct chat comes to be in this order: its directory is made and shared, then
/// its `chat.json` is written and shared. Both are owned by the two members and
/// shared with nobody else, and the `chat.json` has the chat's id and name and the
/// other member.
pub proof fn direct_chats_are_shared_step_by_step(
    account: Seq<char>,
    id: Seq<char>,
    name: Option<Seq<char>>,
    address: Seq<char>,
    now: Timestamp,
)
    ensures
        ({
            let steps = direct_chat_plan(account, id, name, address, now);
            let dir = "/apps/msg/chats/"@ + id;
            let file = "/apps/msg/chats/"@ + id + "/"@ + "chat.json"@;
            let none = Seq::<Seq<char>>::empty();
            let both = PermissionsView {
                owners: seq![account, address],
                writers: none,
                readers: none,
                dropped: none,
            };
            let chat = ChatView { id, name, other_members: seq![address], last_activity: now };
            &&& steps.len() == 4
            &&& steps[0] == ActionView::CreateDir { path: dir }
            &&& steps[1] == ActionView::Put { path: dir, permissions: both }
            &&& steps[2] == ActionView::WriteChat { path: file, chat }
            &&& steps[3] == ActionView::Put { path: file, permissions: both }
        }),
{
    paths::chats_lie_under_their_root(id, "chat.json"@);
}

} // verus!
