//! What holds of the interface whatever is done with it.

use vstd::prelude::*;

use crate::ordering::{self, Listed};
use crate::text;
use crate::tui::keys::{self, Key, KeyPress};
use crate::tui::model::{
    self, AfterChatsView, AfterMessagesView, AppView, EffectView, ListRow, MembersView, Pane,
    RowView, TaskView,
};
use crate::types::{ChatMemberView, ChatView, InviteView, MessageView, Timestamp};

verus! {

/// Control-C quits from every state, and changes nothing else.
pub proof fn control_c_quits(app: AppView, control_c: KeyPress)
    requires
        control_c.control,
        control_c.key == Key::Char('c'),
    ensures
        app.pressed(control_c) == (AppView { quit: true, ..app }, EffectView::Nothing),
{
}

/// Every key leaves the interface in order.
pub proof fn keys_keep_the_interface_in_order(app: AppView, press: KeyPress)
    requires
        app.wf(),
    ensures
        app.pressed(press).0.wf(),
{
    match app.pane {
        Pane::Chats => lemma_chats_key(app, press.key),
        Pane::Input => lemma_input_key(app, press.key),
        Pane::NewChat => {},
        Pane::Members => lemma_members_key(app, app.members->Some_0, press.key),
    }
}

proof fn lemma_chats_key(app: AppView, key: Key)
    requires
        app.wf(),
        app.pane == Pane::Chats,
    ensures
        app.chats_key(key).0.wf(),
{
    lemma_neighbour(app.selected, app.rows.len() as int);
    if let Some(invite) = app.selected_invite() {
        AppView {
            invites: keys::without_chat(app.invites, invite.chat_id),
            ..app
        }.lemma_new_rows();
    }
}

proof fn lemma_input_key(app: AppView, key: Key)
    requires
        app.wf(),
        app.pane == Pane::Input,
    ensures
        app.input_key(key).0.wf(),
{
    lemma_neighbour(app.selected, app.rows.len() as int);
}

proof fn lemma_members_key(app: AppView, members: MembersView, key: Key)
    requires
        app.wf(),
        app.pane == Pane::Members,
        app.members == Some(members),
    ensures
        app.members_key(members, key).0.wf(),
{
    lemma_neighbour(members.selected, members.rows.len() as int);
}

/// The rows next to one of a list are rows of it, and the one below the one
/// above, and above the one below, is the row itself.
proof fn lemma_neighbour(selected: Option<int>, len: int)
    requires
        model::fits(selected, len),
    ensures
        selected matches Some(at) ==> {
            &&& 0 <= model::neighbour(selected, len, true) < len
            &&& 0 <= model::neighbour(selected, len, false) < len
            &&& model::neighbour(Some(model::neighbour(selected, len, true)), len, false) == at
            &&& model::neighbour(Some(model::neighbour(selected, len, false)), len, true) == at
        },
{
    if let Some(at) = selected {
        if at + 1 < len {
            vstd::arithmetic::div_mod::lemma_small_mod((at + 1) as nat, len as nat);
        } else {
            vstd::arithmetic::div_mod::lemma_mod_self_0(len);
        }
        vstd::arithmetic::div_mod::lemma_mod_add_multiples_vanish(-1, len);
        vstd::arithmetic::div_mod::lemma_small_mod((len - 1) as nat, len as nat);
        vstd::arithmetic::div_mod::lemma_small_mod(at as nat, len as nat);
        if at > 0 {
            vstd::arithmetic::div_mod::lemma_small_mod((at - 1) as nat, len as nat);
        } else {
            vstd::arithmetic::div_mod::lemma_mod_self_0(len);
        }
    }
}

/// Going down and then up, or up and then down, comes back to the same row.
pub proof fn down_and_up_come_back(app: AppView, first: bool)
    requires
        app.wf(),
    ensures
        app.moving(first).0.moving(!first).0.selected == app.selected,
{
    lemma_neighbour(app.selected, app.rows.len() as int);
}

/// Going down from the last row comes to the first, and going up from the
/// first to the last.
pub proof fn the_list_goes_round(app: AppView)
    requires
        app.wf(),
        app.rows.len() > 0,
    ensures
        app.selected == Some(app.rows.len() - 1) ==> app.moving(true).0.selected == Some(0int),
        app.selected == Some(0int) ==> app.moving(false).0.selected == Some(app.rows.len() - 1),
{
    let len = app.rows.len() as int;
    vstd::arithmetic::div_mod::lemma_mod_self_0(len);
    vstd::arithmetic::div_mod::lemma_mod_add_multiples_vanish(-1, len);
    vstd::arithmetic::div_mod::lemma_small_mod((len - 1) as nat, len as nat);
}

/// A character that is typed and then taken back leaves things as they were,
/// wherever text is typed.
pub proof fn typing_is_taken_back(app: AppView, c: char, typed: KeyPress, taken_back: KeyPress)
    requires
        app.wf(),
        app.pane == Pane::Input || app.pane == Pane::NewChat || (app.members matches Some(
            members,
        ) && members.adding is Some),
        !typed.control,
        typed.key == Key::Char(c),
        taken_back.key == Key::Backspace,
    ensures
        app.pressed(typed).0.pressed(taken_back) == (app, EffectView::Nothing),
{
    let end = app.pressed(typed).0.pressed(taken_back).0;
    assert(app.input.push(c).drop_last() =~= app.input);
    if let Some(form) = app.new_chat {
        assert(form.focused().push(c).drop_last() =~= form.focused());
        if app.pane == Pane::NewChat {
            assert(end.new_chat == Some(form));
        }
    }
    if let Some(members) = app.members {
        if let Some(address) = members.adding {
            assert(address.push(c).drop_last() =~= address);
            assert(end.members == Some(members));
        }
    }
    assert(end =~= app);
}

/// The list holds every chat and every invite, most recent activity first; of
/// the same moment, chats come before invites, and both as they came.
pub proof fn everything_is_listed_most_recent_first(
    chats: Seq<ChatView>,
    invites: Seq<InviteView>,
    moment: Timestamp,
)
    ensures
        ({
            let rows = model::listing(chats, invites);
            let all = chats.map_values(|chat: ChatView| RowView::Chat(chat)) + invites.map_values(
                |invite: InviteView| RowView::Invite(invite),
            );
            let of_moment = |row: RowView| model::row_activity(row) == moment;
            &&& rows.to_multiset() == all.to_multiset()
            &&& forall|i: int, j: int|
                0 <= i < j < rows.len() ==> model::row_activity(#[trigger] rows[i]).unix_nanos
                    >= model::row_activity(#[trigger] rows[j]).unix_nanos
            &&& rows.filter(of_moment) == all.filter(of_moment)
        }),
{
    let all = chats.map_values(|chat: ChatView| RowView::Chat(chat)) + invites.map_values(
        |invite: InviteView| RowView::Invite(invite),
    );
    let later = |a: RowView, b: RowView| <ListRow as Listed>::later(a, b);
    ordering::sorting_keeps_the_elements(all, later);
    ordering::sorting_orders(all, later);
    ordering::sorting_is_stable(
        all,
        later,
        |row: RowView| model::row_activity(row) == moment,
    );
}

/// However the chats and invites change, the row that was selected stays
/// selected if it is still there; else the first one is.
pub proof fn the_selected_row_is_kept(app: AppView, row: RowView)
    requires
        app.selected_row() == Some(row),
    ensures
        ({
            let next = app.with_new_rows();
            if exists|i: int|
                0 <= i < next.rows.len() && model::key_of(#[trigger] next.rows[i]) == model::key_of(
                    row,
                ) {
                next.selected_row() matches Some(kept) && model::key_of(kept) == model::key_of(row)
            } else {
                next.selected == model::selection(None, next.rows.len() as int)
            }
        }),
{
    model::lemma_key_position(model::listing(app.chats, app.invites), model::key_of(row), 0);
}

/// However the members change, the address that was selected stays selected if
/// it is still there.
pub proof fn the_selected_address_is_kept(
    members: MembersView,
    member: ChatMemberView,
    rows: Seq<ChatMemberView>,
    at: int,
)
    requires
        members.selected_member() == Some(member),
        0 <= at < rows.len(),
        rows[at].address == member.address,
    ensures
        members.with_rows(rows).selected_member() matches Some(kept) && kept.address
            == member.address,
{
    model::lemma_member_position(rows, member.address, 0);
}

/// A member list that comes for another chat than the one shown, or after the
/// pane was closed, changes nothing.
pub proof fn stale_member_lists_are_dropped(
    app: AppView,
    chat_id: Seq<char>,
    rows: Seq<ChatMemberView>,
)
    requires
        app.members matches Some(members) ==> members.chat_id != chat_id,
    ensures
        app.members_loaded(chat_id, rows) == app,
{
}

/// A new chat that cannot be asked for leaves the form open with what was
/// filled in, and asks for nothing.
pub proof fn a_refused_form_stays_open(app: AppView, enter: KeyPress)
    requires
        app.wf(),
        app.pane == Pane::NewChat,
        enter.key == Key::Enter,
        app.new_chat->Some_0.request() is Err,
    ensures
        app.pressed(enter).1 == EffectView::Nothing,
        app.pressed(enter).0.pane == Pane::NewChat,
        app.pressed(enter).0.new_chat matches Some(form) && form.members
            == app.new_chat->Some_0.members && form.name == app.new_chat->Some_0.name,
{
}

/// A chat is asked for only with somebody in it, and a direct chat with one
/// address and no name.
pub proof fn created_chats_have_members(app: AppView, press: KeyPress, task: TaskView)
    requires
        app.wf(),
        app.pane == Pane::NewChat,
        app.pressed(press).1 == EffectView::Queue(task),
    ensures
        match task {
            TaskView::CreateDirect { name, address } => name is None && address.len() > 0
                && text::fields(app.new_chat->Some_0.members) == seq![address],
            TaskView::CreateGroup { name, members } => members.len() > 0 && (name matches Some(
                name,
            ) ==> name.len() > 0),
            _ => false,
        },
{
    let form = app.new_chat->Some_0;
    let members = text::fields(form.members);
    text::lemma_fields(form.members);
    if let TaskView::CreateDirect { name, address } = task {
        assert(members =~= seq![address]);
    }
}

/// A message that is sent is not blank, and goes to the chat that is selected.
pub proof fn sent_messages_are_not_blank(
    app: AppView,
    press: KeyPress,
    chat_id: Seq<char>,
    body: Seq<char>,
)
    requires
        app.wf(),
        app.pressed(press).1 == EffectView::Queue(TaskView::Send { chat_id, body }),
    ensures
        app.selected_chat_id() == Some(chat_id),
        body == text::trimmed(app.input),
        body.len() > 0,
        app.pressed(press).0.input.len() == 0,
{
}

/// No key changes the members of a direct chat.
pub proof fn direct_chat_members_are_fixed(app: AppView, press: KeyPress)
    requires
        app.wf(),
        app.members matches Some(members) && !members.group && members.adding is None,
    ensures
        app.pressed(press).1 == EffectView::Nothing,
        app.pressed(press).0.members matches Some(members) ==> members.rows
            == app.members->Some_0.rows && !members.group && members.adding is None,
{
}

/// No key removes the account itself from a chat.
pub proof fn the_account_is_not_removed(
    app: AppView,
    press: KeyPress,
    chat_id: Seq<char>,
    address: Seq<char>,
)
    requires
        app.wf(),
        app.pressed(press).1 == EffectView::Queue(TaskView::RemoveMember { chat_id, address }),
    ensures
        address != app.account,
{
}

/// An invite that is accepted or rejected is off the list at once.
pub proof fn settled_invites_leave_the_list(app: AppView, invite: InviteView, i: int)
    requires
        app.wf(),
        app.selected_invite() == Some(invite),
        0 <= i < app.dismissed(invite).rows.len(),
    ensures
        app.accepting().0.rows == app.dismissed(invite).rows,
        app.rejecting().0.rows == app.dismissed(invite).rows,
        app.dismissed(invite).rows[i] matches RowView::Invite(other) ==> other.chat_id
            != invite.chat_id,
{
    broadcast use vstd::seq_lib::group_to_multiset_ensures;

    let rest = keys::without_chat(app.invites, invite.chat_id);
    let rows = model::listing(app.chats, rest);
    let all = app.chats.map_values(|chat: ChatView| RowView::Chat(chat)) + rest.map_values(
        |invite: InviteView| RowView::Invite(invite),
    );
    ordering::sorting_keeps_the_elements(
        all,
        |a: RowView, b: RowView| <ListRow as Listed>::later(a, b),
    );
    assert(rows.contains(rows[i]));
    assert(rows.to_multiset().count(rows[i]) > 0);
    assert(all.to_multiset().count(rows[i]) > 0);
    assert(all.contains(rows[i]));
    if let RowView::Invite(other) = rows[i] {
        let at = choose|at: int| 0 <= at < all.len() && all[at] == rows[i];
        let from = at - app.chats.len();
        assert(rest[from] == other);
        app.invites.lemma_filter_pred(
            |invite2: InviteView| invite2.chat_id != invite.chat_id,
            from,
        );
    }
}

/// Once an invite is accepted or rejected, the first row is selected.
pub proof fn settling_an_invite_selects_the_first_row(app: AppView, invite: InviteView)
    requires
        app.wf(),
        app.selected_invite() == Some(invite),
    ensures
        app.dismissed(invite).selected == model::selection(
            None,
            app.dismissed(invite).rows.len() as int,
        ),
{
    reveal_strlit("c:");
    reveal_strlit("i:");
    let rows = app.dismissed(invite).rows;
    let key = "i:"@ + invite.chat_id;
    model::lemma_key_position(rows, key, 0);
    if let Some(at) = model::key_position(rows, key, 0) {
        settled_invites_leave_the_list(app, invite, at);
        match rows[at] {
            RowView::Chat(chat) => {
                assert(("c:"@ + chat.id)[0] == 'c');
                assert(key[0] == 'i');
            },
            RowView::Invite(other) => {
                assert(("i:"@ + other.chat_id).skip(2) =~= other.chat_id);
                assert(key.skip(2) =~= invite.chat_id);
            },
        }
    }
}

/// However many changes are reported, everything is read again once.
pub proof fn bursts_of_changes_are_read_once(app: AppView)
    ensures
        ({
            let changed = AppView { dirty: true, ..app };
            let ticked = changed.ticking();
            &&& (AppView { dirty: true, ..changed }).ticking() == ticked
            &&& ticked.1 == EffectView::ReadChats(AfterChatsView::Refresh)
            &&& ticked.0.ticking() == (ticked.0, EffectView::Nothing)
        }),
{
}

/// A refresh reads the chats, then the messages of the selected chat, and then
/// asks for the members that are shown.
pub proof fn a_refresh_reads_everything_shown(
    app: AppView,
    chats: Result<Seq<ChatView>, Seq<char>>,
    messages: Result<Seq<MessageView>, Seq<char>>,
)
    ensures
        ({
            let (read, wanted) = app.chats_read(chats, AfterChatsView::Refresh);
            let members = match app.members {
                Some(members) => EffectView::RequestMembers {
                    chat_id: members.chat_id,
                    report: true,
                },
                None => EffectView::Nothing,
            };
            match read.selected_chat_id() {
                Some(chat_id) => {
                    &&& wanted == EffectView::ReadMessages {
                        chat_id,
                        after: AfterMessagesView::Members,
                    }
                    &&& read.messages_read(messages, AfterMessagesView::Members).1 == members
                },
                None => wanted == members && read.messages.len() == 0,
            }
        }),
{
}

/// A task that is queued and then done leaves as many pending as before.
pub proof fn finished_tasks_are_no_longer_pending(app: AppView)
    ensures
        app.task_sent(true).task_done().pending == app.pending,
        app.task_sent(false).pending == app.pending,
{
}

/// The hint for the member list tells what a change of role would come to, as
/// long as one can be asked for.
pub proof fn the_role_hint_is_true(app: AppView, p: KeyPress)
    requires
        app.wf(),
        app.members matches Some(members) && members.adding is None && members.group
            && members.rows.len() > 0,
        p.key == Key::Char('p'),
    ensures
        app.pressed(p).1 matches EffectView::Queue(task) && (if task is DemoteMember {
            app.hint() == "j/k select  a add  d remove  p demote  Esc close"@
        } else {
            task is PromoteMember && app.hint()
                == "j/k select  a add  d remove  p promote  Esc close"@
        }),
{
}

/// An error is shown in the status line before anything else.
pub proof fn errors_are_shown_first(app: AppView, error: Seq<char>)
    ensures
        app.failing(error).status_line().last().text == error,
{
}

} // verus!
