//! What the interface does, case by case: each law says of what happens, and of
//! what there is to see then, what comes of it, and that nothing else changes.

use vstd::prelude::*;

use crate::text;
use crate::tui::events::EventView;
use crate::tui::keys::{Key, KeyPress};
use crate::tui::model::{
    self, AfterChatsView, AfterMessagesView, AppView, EffectView, MembersView, NewChatView, Pane,
    RowView, TaskView,
};
use crate::types::{ChatMemberView, ChatView, InviteView, MessageView};

verus! {

/// Chats are listed by their last activity, and invites by when they were
/// proposed.
pub proof fn rows_are_listed_by_their_moment(chat: ChatView, invite: InviteView)
    ensures
        model::row_activity(RowView::Chat(chat)) == chat.last_activity,
        model::row_activity(RowView::Invite(invite)) == invite.proposed,
{
}

/// Two rows have the same key exactly if they are the same chat, or invites to the
/// same chat.
pub proof fn keys_tell_rows_apart(a: ChatView, b: ChatView, c: InviteView, d: InviteView)
    ensures
        model::key_of(RowView::Chat(a)) == "c:"@ + a.id,
        model::key_of(RowView::Invite(c)) == "i:"@ + c.chat_id,
        model::key_of(RowView::Chat(a)) == model::key_of(RowView::Chat(b)) <==> a.id == b.id,
        model::key_of(RowView::Invite(c)) == model::key_of(RowView::Invite(d)) <==> c.chat_id
            == d.chat_id,
        model::key_of(RowView::Chat(a)) != model::key_of(RowView::Invite(c)),
{
    reveal_strlit("c:");
    reveal_strlit("i:");
    assert(("c:"@ + a.id).skip(2) =~= a.id);
    assert(("c:"@ + b.id).skip(2) =~= b.id);
    assert(("i:"@ + c.chat_id).skip(2) =~= c.chat_id);
    assert(("i:"@ + d.chat_id).skip(2) =~= d.chat_id);
    assert(("c:"@ + a.id)[0] == 'c');
    assert(("i:"@ + c.chat_id)[0] == 'i');
}

/// The selected row is the one at the selected place, and is a chat or an invite.
pub proof fn the_selected_row_is_at_the_selected_place(app: AppView, at: int)
    requires
        app.selected == Some(at),
        0 <= at < app.rows.len(),
    ensures
        app.selected_row() == Some(app.rows[at]),
        app.rows[at] matches RowView::Chat(chat) ==> app.selected_chat_id() == Some(chat.id)
            && app.selected_invite() is None,
        app.rows[at] matches RowView::Invite(invite) ==> app.selected_invite() == Some(invite)
            && app.selected_chat_id() is None,
{
}

/// Where no place is selected, no row is.
pub proof fn without_a_place_no_row_is_selected(app: AppView)
    requires
        app.selected is None,
    ensures
        app.selected_row() is None,
        app.selected_chat_id() is None,
        app.selected_invite() is None,
{
}

/// New rows are those of the chats and invites that there are, and change only
/// what is listed and selected. The first row with the key of the one that was
/// selected is selected then, or else the first row, if there is any.
pub proof fn new_rows_change_only_the_list(app: AppView, at: int)
    ensures
        ({
            let next = app.with_new_rows();
            let same = |i: int|
                0 <= i < next.rows.len() && (match app.selected_row() {
                    Some(row) => model::key_of(next.rows[i]) == model::key_of(row),
                    None => false,
                });
            &&& next.rows == model::listing(app.chats, app.invites)
            &&& next == AppView { rows: next.rows, selected: next.selected, ..app }
            &&& same(at) && (forall|i: int| 0 <= i < at ==> !(#[trigger] same(i))) ==> next.selected
                == Some(at)
            &&& (forall|i: int| !(#[trigger] same(i))) ==> next.selected == (if next.rows.len()
                == 0 {
                None
            } else {
                Some(0int)
            })
        }),
{
    let next = app.with_new_rows();
    let rows = next.rows;
    let same = |i: int|
        0 <= i < rows.len() && (match app.selected_row() {
            Some(row) => model::key_of(rows[i]) == model::key_of(row),
            None => false,
        });
    if let Some(row) = app.selected_row() {
        let key = model::key_of(row);
        model::lemma_key_position(rows, key, 0);
        if same(at) && (forall|i: int| 0 <= i < at ==> !(#[trigger] same(i))) {
            if let Some(found) = model::key_position(rows, key, 0) {
                if found < at {
                    assert(!same(found));
                } else if at < found {
                    assert(model::key_of(rows[at]) != key);
                }
            }
        }
        if forall|i: int| !(#[trigger] same(i)) {
            if let Some(found) = model::key_position(rows, key, 0) {
                assert(same(found));
            }
        }
    }
}

/// The row below is the next one, and below the last one is the first; the row
/// above is the one before, and above the first one is the last.
pub proof fn rows_lie_one_below_the_other(at: int, len: int)
    requires
        0 <= at < len,
    ensures
        model::neighbour(Some(at), len, true) == (if at + 1 < len {
            at + 1
        } else {
            0
        }),
        model::neighbour(Some(at), len, false) == (if at > 0 {
            at - 1
        } else {
            len - 1
        }),
{
    if at + 1 < len {
        vstd::arithmetic::div_mod::lemma_small_mod((at + 1) as nat, len as nat);
    } else {
        vstd::arithmetic::div_mod::lemma_mod_self_0(len);
    }
    if at > 0 {
        vstd::arithmetic::div_mod::lemma_small_mod((at - 1) as nat, len as nat);
    } else {
        vstd::arithmetic::div_mod::lemma_mod_add_multiples_vanish(-1, len);
        vstd::arithmetic::div_mod::lemma_small_mod((len - 1) as nat, len as nat);
    }
}

/// Other members replace those in the list and change only what is selected: the
/// first with the address that was, or else the first of all, if there is any.
pub proof fn new_members_change_only_the_list(
    members: MembersView,
    rows: Seq<ChatMemberView>,
    at: int,
)
    ensures
        ({
            let next = members.with_rows(rows);
            let same = |i: int|
                0 <= i < rows.len() && (members.selected matches Some(was) && 0 <= was
                    < members.rows.len() && rows[i].address == members.rows[was].address);
            &&& next == MembersView { rows, selected: next.selected, ..members }
            &&& same(at) && (forall|i: int| 0 <= i < at ==> !(#[trigger] same(i))) ==> next.selected
                == Some(at)
            &&& (forall|i: int| !(#[trigger] same(i))) ==> next.selected == (if rows.len() == 0 {
                None
            } else {
                Some(0int)
            })
        }),
{
    let same = |i: int|
        0 <= i < rows.len() && (members.selected matches Some(was) && 0 <= was < members.rows.len()
            && rows[i].address == members.rows[was].address);
    if let Some(member) = members.selected_member() {
        let address = member.address;
        model::lemma_member_position(rows, address, 0);
        if same(at) && (forall|i: int| 0 <= i < at ==> !(#[trigger] same(i))) {
            if let Some(found) = model::member_position(rows, address, 0) {
                if found < at {
                    assert(!same(found));
                } else if at < found {
                    assert(rows[at].address != address);
                }
            }
        }
        if forall|i: int| !(#[trigger] same(i)) {
            if let Some(found) = model::member_position(rows, address, 0) {
                assert(same(found));
            }
        }
    }
}

/// At first nothing is shown, nothing is typed, nothing is wrong and nothing is
/// being done.
pub proof fn nothing_is_shown_at_first(account: Seq<char>)
    ensures
        ({
            let app = AppView::opening(account);
            &&& app.account == account
            &&& app.chats.len() == 0 && app.invites.len() == 0 && app.rows.len() == 0
            &&& app.messages.len() == 0 && app.input.len() == 0
            &&& app.selected is None && app.new_chat is None && app.members is None
            &&& app.error is None && !app.quit && !app.dirty && app.pending == 0
            &&& app.pane == Pane::Chats
        }),
{
}

/// What follows once messages are there: nothing; or the members that are shown
/// are asked for; or a task is queued, with no error shown.
pub proof fn what_follows_the_messages(app: AppView, task: TaskView)
    ensures
        app.after_messages(AfterMessagesView::Nothing) == (app, EffectView::Nothing),
        app.members is None ==> app.after_messages(AfterMessagesView::Members) == (
            app,
            EffectView::Nothing,
        ),
        app.members matches Some(members) ==> app.after_messages(AfterMessagesView::Members) == (
            app,
            EffectView::RequestMembers { chat_id: members.chat_id, report: true },
        ),
        app.after_messages(AfterMessagesView::Queue(task)) == (
            AppView { error: None, ..app },
            EffectView::Queue(task),
        ),
{
}

/// Messages that were read are shown in place of the others. Where they could not
/// be read, the others stay and the error is shown.
pub proof fn read_messages_are_shown(
    app: AppView,
    messages: Seq<MessageView>,
    error: Seq<char>,
    after: AfterMessagesView,
)
    ensures
        app.messages_read(Ok(messages), after) == (AppView { messages, ..app }).after_messages(
            after,
        ),
        app.messages_read(Err(error), after) == (AppView {
            error: Some("read error: "@ + error),
            ..app
        }).after_messages(after),
{
}

/// The messages of the chat that is selected are read; where none is, there are
/// none.
pub proof fn messages_of_the_selected_chat_are_read(
    app: AppView,
    at: int,
    after: AfterMessagesView,
)
    ensures
        app.selected == Some(at) && 0 <= at < app.rows.len() && app.rows[at] is Chat
            ==> app.loading(after) == (
            app,
            EffectView::ReadMessages { chat_id: app.rows[at]->Chat_0.id, after },
        ),
        app.selected is None || (app.selected == Some(at) && 0 <= at < app.rows.len()
            && app.rows[at] is Invite) ==> app.loading(after) == (AppView {
            messages: Seq::empty(),
            ..app
        }).after_messages(after),
{
}

/// Chats that were read are listed in place of the others. Where they could not be
/// read, the others stay and the error is shown. Then a refresh goes on with the
/// messages and the members, and a start with the first row, if there is any.
pub proof fn read_chats_are_listed(
    app: AppView,
    chats: Seq<ChatView>,
    error: Seq<char>,
)
    ensures
        ({
            let read = (AppView { chats, ..app }).with_new_rows();
            let unread = (AppView { error: Some("list error: "@ + error), ..app }).with_new_rows();
            &&& app.chats_read(Ok(chats), AfterChatsView::Refresh) == read.loading(
                AfterMessagesView::Members,
            )
            &&& app.chats_read(Err(error), AfterChatsView::Refresh) == unread.loading(
                AfterMessagesView::Members,
            )
            &&& app.chats_read(Ok(chats), AfterChatsView::Start) == (if read.rows.len() == 0 {
                (read, EffectView::Nothing)
            } else {
                (AppView { selected: Some(0), ..read }).loading(AfterMessagesView::Nothing)
            })
            &&& app.chats_read(Err(error), AfterChatsView::Start) == (if unread.rows.len() == 0 {
                (unread, EffectView::Nothing)
            } else {
                (AppView { selected: Some(0), ..unread }).loading(AfterMessagesView::Nothing)
            })
        }),
{
}

/// A chat that is to be selected is, once the chats have been read: it is the first
/// of that id. Where it is not there, what was selected stays so.
pub proof fn the_wanted_chat_is_selected(
    app: AppView,
    chats: Seq<ChatView>,
    chat_id: Seq<char>,
    at: int,
)
    ensures
        ({
            let read = (AppView { chats, ..app }).with_new_rows();
            let wanted = |i: int|
                0 <= i < read.rows.len() && (read.rows[i] matches RowView::Chat(chat) && chat.id
                    == chat_id);
            let result = app.chats_read(Ok(chats), AfterChatsView::Select(chat_id));
            &&& wanted(at) && (forall|i: int| 0 <= i < at ==> !(#[trigger] wanted(i))) ==> result
                == (AppView { selected: Some(at), ..read }).loading(AfterMessagesView::Nothing)
            &&& (forall|i: int| !(#[trigger] wanted(i))) ==> result == read.loading(
                AfterMessagesView::Nothing,
            )
        }),
{
    reveal_strlit("c:");
    reveal_strlit("i:");
    let read = (AppView { chats, ..app }).with_new_rows();
    let rows = read.rows;
    let key = "c:"@ + chat_id;
    let wanted = |i: int|
        0 <= i < rows.len() && (rows[i] matches RowView::Chat(chat) && chat.id == chat_id);
    assert forall|i: int| 0 <= i < rows.len() implies (model::key_of(rows[i]) == key) == wanted(
        i,
    ) by {
        match rows[i] {
            RowView::Chat(chat) => {
                assert(("c:"@ + chat.id).skip(2) =~= chat.id);
                assert(key.skip(2) =~= chat_id);
            },
            RowView::Invite(invite) => {
                assert(("i:"@ + invite.chat_id)[0] == 'i');
                assert(key[0] == 'c');
            },
        }
    }
    model::lemma_key_position(rows, key, 0);
    if wanted(at) && (forall|i: int| 0 <= i < at ==> !(#[trigger] wanted(i))) {
        if let Some(found) = model::key_position(rows, key, 0) {
            assert(wanted(found));
            if at < found {
                assert(model::key_of(rows[at]) != key);
            }
        }
    }
    if forall|i: int| !(#[trigger] wanted(i)) {
        if let Some(found) = model::key_position(rows, key, 0) {
            assert(wanted(found));
        }
    }
    assert(AppView { selected: read.selected, ..read } == read);
}

/// Where the chats could not be read, the one that is to be selected is looked for
/// among those that were there.
pub proof fn the_wanted_chat_is_looked_for_all_the_same(
    app: AppView,
    error: Seq<char>,
    chat_id: Seq<char>,
)
    ensures
        app.chats_read(Err(error), AfterChatsView::Select(chat_id)) == (AppView {
            error: Some("list error: "@ + error),
            ..app
        }).chats_read(Ok(app.chats), AfterChatsView::Select(chat_id)),
{
    let failed = AppView { error: Some("list error: "@ + error), ..app };
    assert(AppView { chats: app.chats, ..failed } == failed);
}

/// What comes from outside changes just what it is about.
pub proof fn news_change_what_they_are_about(
    app: AppView,
    invites: Seq<InviteView>,
    error: Seq<char>,
    chat_id: Seq<char>,
    press: KeyPress,
)
    ensures
        app.happening(EventView::Key(press)) == app.pressed(press),
        app.happening(EventView::LocalChanged) == (
            AppView { dirty: true, ..app },
            EffectView::Nothing,
        ),
        app.happening(EventView::InvitesLoaded(invites)) == (
            (AppView { invites, ..app }).with_new_rows(),
            EffectView::Nothing,
        ),
        app.happening(EventView::ChatCreated(chat_id)) == (
            app,
            EffectView::ReadChats(AfterChatsView::Select(chat_id)),
        ),
        app.happening(EventView::TaskDone) == (
            AppView {
                dirty: true,
                pending: if app.pending > 0 {
                    (app.pending - 1) as nat
                } else {
                    0
                },
                ..app
            },
            EffectView::Nothing,
        ),
        app.happening(EventView::Error(error)) == (
            AppView { error: Some(error), ..app },
            EffectView::Nothing,
        ),
        app.happening(EventView::Timeout) == (app, EffectView::Nothing),
        app.failing(error) == (AppView { error: Some(error), ..app }),
        app.invites_loaded(invites) == (AppView { invites, ..app }).with_new_rows(),
        app.dirty ==> app.ticking() == (
            AppView { dirty: false, ..app },
            EffectView::ReadChats(AfterChatsView::Refresh),
        ),
        !app.dirty ==> app.ticking() == (app, EffectView::Nothing),
        app.task_sent(true) == (AppView { pending: app.pending + 1, ..app }),
        app.task_sent(false) == (AppView { error: Some("tasks stopped"@), ..app }),
{
}

/// Members that arrive for the chat whose members are shown are listed, and others
/// are not.
pub proof fn arriving_members_are_listed(
    app: AppView,
    chat_id: Seq<char>,
    rows: Seq<ChatMemberView>,
)
    ensures
        app.happening(EventView::MembersLoaded { chat_id, members: rows }) == (
            app.members_loaded(chat_id, rows),
            EffectView::Nothing,
        ),
        app.members is None ==> app.members_loaded(chat_id, rows) == app,
        app.members matches Some(members) ==> app.members_loaded(chat_id, rows) == (if members.chat_id
            == chat_id {
            AppView { members: Some(members.with_rows(rows)), ..app }
        } else {
            app
        }),
{
}

/// The member list opens empty, with nothing selected or being typed and no error
/// shown, and its members are asked for.
pub proof fn the_member_list_opens_empty(app: AppView, chat_id: Seq<char>, group: bool)
    ensures
        app.group_checked(chat_id, group) == (
            AppView {
                members: Some(
                    MembersView {
                        chat_id,
                        group,
                        rows: Seq::empty(),
                        selected: None,
                        adding: None,
                    },
                ),
                pane: Pane::Members,
                error: None,
                ..app
            },
            EffectView::RequestMembers { chat_id, report: false },
        ),
{
}

/// Control matters only with C.
pub proof fn control_matters_only_with_c(app: AppView, key: Key)
    requires
        key != Key::Char('c'),
    ensures
        app.pressed(KeyPress { key, control: true }) == app.pressed(
            KeyPress { key, control: false },
        ),
{
}

/// Going to another row selects the one below or above and reads its messages;
/// where there is no row, nothing happens.
pub proof fn going_to_a_row_reads_its_messages(app: AppView, at: int)
    requires
        app.rows.len() == 0 || app.selected == Some(at) && 0 <= at < app.rows.len(),
    ensures
        app.rows.len() == 0 ==> app.moving(true) == (app, EffectView::Nothing) && app.moving(false)
            == (app, EffectView::Nothing),
        app.rows.len() > 0 ==> app.moving(true) == (AppView {
            selected: Some(
                if at + 1 < app.rows.len() {
                    at + 1
                } else {
                    0
                },
            ),
            ..app
        }).loading(AfterMessagesView::Nothing),
        app.rows.len() > 0 ==> app.moving(false) == (AppView {
            selected: Some(
                if at > 0 {
                    at - 1
                } else {
                    app.rows.len() - 1
                },
            ),
            ..app
        }).loading(AfterMessagesView::Nothing),
{
    if app.rows.len() > 0 {
        rows_lie_one_below_the_other(at, app.rows.len() as int);
    }
}

/// What the keys do in the list of chats.
pub proof fn keys_in_the_list_of_chats(app: AppView, press: KeyPress)
    requires
        app.pane == Pane::Chats,
        !press.control,
    ensures
        ({
            let done = app.pressed(press);
            let key = press.key;
            &&& key == Key::Char('q') || key == Key::Esc ==> done == (
                AppView { quit: true, ..app },
                EffectView::Nothing,
            )
            &&& key == Key::Char('j') || key == Key::Down ==> done == app.moving(true)
            &&& key == Key::Char('k') || key == Key::Up ==> done == app.moving(false)
            &&& key == Key::Char('a') ==> done == app.accepting()
            &&& key == Key::Char('d') ==> done == app.rejecting()
            &&& key == Key::Char('n') || key == Key::Char('g') ==> done == (
                AppView {
                    new_chat: Some(
                        NewChatView {
                            group: key == Key::Char('g'),
                            members: Seq::empty(),
                            name: Seq::empty(),
                            field: 0,
                        },
                    ),
                    pane: Pane::NewChat,
                    error: None,
                    ..app
                },
                EffectView::Nothing,
            )
            &&& key == Key::Char('m') ==> done == (
                app,
                match app.selected_chat_id() {
                    Some(chat_id) => EffectView::CheckGroup { chat_id },
                    None => EffectView::Nothing,
                },
            )
            &&& key == Key::Tab || key == Key::Enter || key == Key::Char('i') ==> done == (
                AppView {
                    pane: if app.selected_chat_id() is Some {
                        Pane::Input
                    } else {
                        Pane::Chats
                    },
                    ..app
                },
                EffectView::Nothing,
            )
            &&& key == Key::Backspace || key == Key::Other ==> done == (app, EffectView::Nothing)
            &&& key matches Key::Char(c) ==> (c != 'q' && c != 'j' && c != 'k' && c != 'a' && c
                != 'd' && c != 'n' && c != 'g' && c != 'm' && c != 'i' ==> done == (
                app,
                EffectView::Nothing,
            ))
        }),
{
}

/// What the keys do in the message box: every letter is text.
pub proof fn keys_in_the_message_box(app: AppView, press: KeyPress)
    requires
        app.pane == Pane::Input,
        !press.control,
    ensures
        ({
            let done = app.pressed(press);
            let key = press.key;
            &&& key == Key::Esc || key == Key::Tab ==> done == (
                AppView { pane: Pane::Chats, ..app },
                EffectView::Nothing,
            )
            &&& key == Key::Enter ==> done == app.sending()
            &&& key == Key::Down ==> done == app.moving(true)
            &&& key == Key::Up ==> done == app.moving(false)
            &&& key matches Key::Char(c) ==> done == (
                AppView { input: app.input.push(c), ..app },
                EffectView::Nothing,
            )
            &&& key == Key::Backspace ==> done == (
                AppView {
                    input: if app.input.len() > 0 {
                        app.input.take(app.input.len() - 1)
                    } else {
                        app.input
                    },
                    ..app
                },
                EffectView::Nothing,
            )
            &&& key == Key::Other ==> done == (app, EffectView::Nothing)
        }),
{
    if app.input.len() > 0 {
        assert(app.input.drop_last() =~= app.input.take(app.input.len() - 1));
    }
}

/// What the keys do in the form for a new chat: they go to the field that is
/// focused, and a group chat has a second one.
pub proof fn keys_in_the_form(app: AppView, form: NewChatView, press: KeyPress)
    requires
        app.pane == Pane::NewChat,
        app.new_chat == Some(form),
        form.field == 0 || form.field == 1,
        !press.control,
    ensures
        ({
            let done = app.pressed(press);
            let key = press.key;
            let with = |form: NewChatView| (
                AppView { new_chat: Some(form), ..app },
                EffectView::Nothing,
            );
            let shorter = |s: Seq<char>|
                if s.len() > 0 {
                    s.take(s.len() - 1)
                } else {
                    s
                };
            &&& key == Key::Esc ==> done == (
                AppView { new_chat: None, pane: Pane::Chats, ..app },
                EffectView::Nothing,
            )
            &&& key == Key::Tab && form.group ==> done == with(
                NewChatView {
                    field: if form.field == 0 {
                        1
                    } else {
                        0
                    },
                    ..form
                },
            )
            &&& key == Key::Tab && !form.group ==> done == (app, EffectView::Nothing)
            &&& key == Key::Enter && form.group && form.field == 0 ==> done == with(
                NewChatView { field: 1, ..form },
            )
            &&& key == Key::Enter && !(form.group && form.field == 0) ==> done == app.creating(form)
            &&& key matches Key::Char(c) ==> done == with(
                if form.field == 0 {
                    NewChatView { members: form.members.push(c), ..form }
                } else {
                    NewChatView { name: form.name.push(c), ..form }
                },
            )
            &&& key == Key::Backspace ==> done == with(
                if form.field == 0 {
                    NewChatView { members: shorter(form.members), ..form }
                } else {
                    NewChatView { name: shorter(form.name), ..form }
                },
            )
            &&& key == Key::Up || key == Key::Down || key == Key::Other ==> done == (
                app,
                EffectView::Nothing,
            )
        }),
{
    if form.members.len() > 0 {
        assert(form.members.drop_last() =~= form.members.take(form.members.len() - 1));
    }
    if form.name.len() > 0 {
        assert(form.name.drop_last() =~= form.name.take(form.name.len() - 1));
    }
}

/// A form asks for a group chat with everybody who is named in it, and with its
/// trimmed name if that is not empty; for a direct chat with the one who is named;
/// and for nothing where nobody is, or too many for a direct chat.
pub proof fn forms_ask_for_what_is_filled_in(form: NewChatView)
    ensures
        ({
            let named = text::fields(form.members);
            let name = text::trimmed(form.name);
            &&& named.len() == 0 ==> form.request() == Err::<TaskView, Seq<char>>(
                "create error: an address is required"@,
            )
            &&& named.len() > 0 && form.group ==> form.request() == Ok::<TaskView, Seq<char>>(
                TaskView::CreateGroup {
                    name: if name.len() > 0 {
                        Some(name)
                    } else {
                        None
                    },
                    members: named,
                },
            )
            &&& named.len() == 1 && !form.group ==> form.request() == Ok::<TaskView, Seq<char>>(
                TaskView::CreateDirect { name: None, address: named[0] },
            )
            &&& named.len() > 1 && !form.group ==> form.request() == Err::<TaskView, Seq<char>>(
                "create error: a direct chat takes one address"@,
            )
        }),
{
}

/// A form that asks for something closes, with that queued and no error shown; one
/// that does not stays as it is, with the error shown.
pub proof fn forms_close_when_they_ask(app: AppView, form: NewChatView, task: TaskView)
    ensures
        form.request() == Ok::<TaskView, Seq<char>>(task) ==> app.creating(form) == (
            AppView { new_chat: None, pane: Pane::Chats, error: None, ..app },
            EffectView::Queue(task),
        ),
        form.request() matches Err(error) ==> app.creating(form) == (
            AppView { error: Some(error), ..app },
            EffectView::Nothing,
        ),
{
}

/// What was typed is sent trimmed to the chat that is selected, and the box is
/// empty then; where it is blank, or no chat is selected, nothing happens.
pub proof fn what_was_typed_is_sent(app: AppView, at: int)
    ensures
        ({
            let body = text::trimmed(app.input);
            &&& app.selected == Some(at) && 0 <= at < app.rows.len() && app.rows[at] is Chat
                && body.len() > 0 ==> app.sending() == (
                AppView { input: Seq::empty(), error: None, ..app },
                EffectView::Queue(TaskView::Send { chat_id: app.rows[at]->Chat_0.id, body }),
            )
            &&& body.len() == 0 || app.selected is None || (app.selected == Some(at) && 0 <= at
                < app.rows.len() && app.rows[at] is Invite) ==> app.sending() == (
                app,
                EffectView::Nothing,
            )
        }),
{
}

/// An invite that is answered goes, with every other to the same chat, and the
/// answer is queued; rejecting it reads the messages of what is selected then.
/// Where no invite is selected, nothing happens.
pub proof fn invites_are_answered(app: AppView, at: int)
    ensures
        app.selected == Some(at) && 0 <= at < app.rows.len() && app.rows[at] is Invite ==> {
            let invite = app.rows[at]->Invite_0;
            let rest = (AppView {
                invites: app.invites.filter(|other: InviteView| other.chat_id != invite.chat_id),
                ..app
            }).with_new_rows();
            &&& app.accepting() == (
                AppView { error: None, ..rest },
                EffectView::Queue(TaskView::Accept(invite)),
            )
            &&& app.rejecting() == rest.loading(AfterMessagesView::Queue(TaskView::Reject(invite)))
        },
        app.selected is None || (app.selected == Some(at) && 0 <= at < app.rows.len()
            && app.rows[at] is Chat) ==> app.accepting() == (app, EffectView::Nothing)
            && app.rejecting() == (app, EffectView::Nothing),
{
}

/// What the keys do while an address is typed in.
pub proof fn keys_in_the_add_field(
    app: AppView,
    members: MembersView,
    address: Seq<char>,
    press: KeyPress,
)
    requires
        app.pane == Pane::Members,
        app.members == Some(members),
        members.adding == Some(address),
        !press.control,
    ensures
        ({
            let done = app.pressed(press);
            let key = press.key;
            let with = |adding: Option<Seq<char>>| (
                AppView { members: Some(MembersView { adding, ..members }), ..app },
                EffectView::Nothing,
            );
            let trimmed = text::trimmed(address);
            &&& key == Key::Esc ==> done == with(None)
            &&& key matches Key::Char(c) ==> done == with(Some(address.push(c)))
            &&& key == Key::Backspace ==> done == with(
                Some(
                    if address.len() > 0 {
                        address.take(address.len() - 1)
                    } else {
                        address
                    },
                ),
            )
            &&& key == Key::Enter && trimmed.len() == 0 ==> done == (app, EffectView::Nothing)
            &&& key == Key::Enter && trimmed.len() > 0 ==> done == (
                AppView {
                    members: Some(MembersView { adding: None, ..members }),
                    error: None,
                    ..app
                },
                EffectView::Queue(
                    TaskView::AddMember { chat_id: members.chat_id, address: trimmed },
                ),
            )
            &&& key == Key::Tab || key == Key::Up || key == Key::Down || key == Key::Other ==> done
                == (app, EffectView::Nothing)
        }),
{
    if address.len() > 0 {
        assert(address.drop_last() =~= address.take(address.len() - 1));
    }
}

/// What the keys do in the member list, with one of the members selected.
pub proof fn keys_in_the_member_list(
    app: AppView,
    members: MembersView,
    at: int,
    press: KeyPress,
)
    requires
        app.pane == Pane::Members,
        app.members == Some(members),
        members.adding is None,
        members.selected == Some(at),
        0 <= at < members.rows.len(),
        !press.control,
    ensures
        ({
            let done = app.pressed(press);
            let key = press.key;
            let len = members.rows.len() as int;
            let member = members.rows[at];
            let chat_id = members.chat_id;
            let with = |members: MembersView| (
                AppView { members: Some(members), ..app },
                EffectView::Nothing,
            );
            let asking = |task: TaskView| (
                AppView { error: None, ..app },
                EffectView::Queue(task),
            );
            &&& key == Key::Esc || key == Key::Char('m') ==> done == (
                AppView { members: None, pane: Pane::Chats, ..app },
                EffectView::Nothing,
            )
            &&& key == Key::Char('j') || key == Key::Down ==> done == with(
                MembersView {
                    selected: Some(
                        if at + 1 < len {
                            at + 1
                        } else {
                            0
                        },
                    ),
                    ..members
                },
            )
            &&& key == Key::Char('k') || key == Key::Up ==> done == with(
                MembersView {
                    selected: Some(
                        if at > 0 {
                            at - 1
                        } else {
                            len - 1
                        },
                    ),
                    ..members
                },
            )
            &&& key == Key::Char('a') && members.group ==> done == with(
                MembersView { adding: Some(Seq::empty()), ..members },
            )
            &&& key == Key::Char('d') && members.group && member.address == app.account ==> done
                == (
                AppView { error: Some("remove error: cannot remove yourself"@), ..app },
                EffectView::Nothing,
            )
            &&& key == Key::Char('d') && members.group && member.address != app.account ==> done
                == asking(TaskView::RemoveMember { chat_id, address: member.address })
            &&& key == Key::Char('p') && members.group && member.owner ==> done == asking(
                TaskView::DemoteMember { chat_id, address: member.address },
            )
            &&& key == Key::Char('p') && members.group && !member.owner ==> done == asking(
                TaskView::PromoteMember { chat_id, address: member.address },
            )
            &&& !members.group && (key == Key::Char('a') || key == Key::Char('d') || key
                == Key::Char('p')) ==> done == (app, EffectView::Nothing)
            &&& key == Key::Tab || key == Key::Enter || key == Key::Backspace || key == Key::Other
                ==> done == (app, EffectView::Nothing)
            &&& key matches Key::Char(c) ==> (c != 'm' && c != 'j' && c != 'k' && c != 'a' && c
                != 'd' && c != 'p' ==> done == (app, EffectView::Nothing))
        }),
{
    rows_lie_one_below_the_other(at, members.rows.len() as int);
}

/// What the keys do in a member list that is still empty: it can be closed, and a
/// member can be added to a group chat.
pub proof fn keys_in_an_empty_member_list(app: AppView, members: MembersView, press: KeyPress)
    requires
        app.pane == Pane::Members,
        app.members == Some(members),
        members.adding is None,
        members.rows.len() == 0,
        members.selected is None,
        !press.control,
    ensures
        ({
            let done = app.pressed(press);
            let key = press.key;
            &&& key == Key::Esc || key == Key::Char('m') ==> done == (
                AppView { members: None, pane: Pane::Chats, ..app },
                EffectView::Nothing,
            )
            &&& key == Key::Char('a') && members.group ==> done == (
                AppView {
                    members: Some(MembersView { adding: Some(Seq::empty()), ..members }),
                    ..app
                },
                EffectView::Nothing,
            )
            &&& key != Key::Esc && key != Key::Char('m') && !(key == Key::Char('a')
                && members.group) ==> done == (app, EffectView::Nothing)
        }),
{
    assert(app.with_members(members) == app);
}

/// The interface is in order exactly if it lists its chats and invites, with one
/// row selected if there is any; if the form for a new chat is there just while the
/// keys go to it, and so is the member list, with one member selected if there is
/// any; and if only a group chat's form is at a second field.
pub proof fn what_it_is_to_be_in_order(app: AppView)
    ensures
        app.wf() <==> {
            &&& app.rows == model::listing(app.chats, app.invites)
            &&& match app.selected {
                Some(at) => 0 <= at < app.rows.len(),
                None => app.rows.len() == 0,
            }
            &&& (app.new_chat is Some) == (app.pane == Pane::NewChat)
            &&& (app.members is Some) == (app.pane == Pane::Members)
            &&& match app.new_chat {
                Some(form) => form.field == 0 || (form.field == 1 && form.group),
                None => true,
            }
            &&& match app.members {
                Some(members) => match members.selected {
                    Some(at) => 0 <= at < members.rows.len(),
                    None => members.rows.len() == 0,
                },
                None => true,
            }
        },
{
}

} // verus!
