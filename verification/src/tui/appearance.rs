//! What is to be seen, case by case: each law says of what there is what the
//! screen shows of it.

use vstd::prelude::*;

use crate::chat;
use crate::numerals;
use crate::reltime::Clock;
use crate::text;
use crate::tui::model::{AppView, MembersView, NewChatView, Pane, RowView};
use crate::tui::screen::{self, Area, SpanView, Tone};
use crate::types::{ChatMemberView, ChatView, InviteView, MessageView};

verus! {

/// What is less goes no further than zero, and what is smaller is the one of the
/// two that is no larger.
pub proof fn differences_and_bounds(a: int, b: int)
    ensures
        a >= b ==> screen::less(a, b) == a - b,
        a < b ==> screen::less(a, b) == 0,
        screen::smaller(a, b) <= a,
        screen::smaller(a, b) <= b,
        screen::smaller(a, b) == a || screen::smaller(a, b) == b,
{
}

/// A chat's row shows what it is called, and an invite's row that it is one, and to
/// which chat.
pub proof fn rows_show_what_they_are(chat: ChatView, invite: InviteView)
    ensures
        screen::row_line(RowView::Chat(chat)) == seq![
            SpanView { text: chat::display_name(chat), tone: Tone::Plain },
        ],
        screen::row_line(RowView::Invite(invite)) == seq![
            SpanView { text: "[invite] "@, tone: Tone::Yellow },
            SpanView { text: invite.chat_id, tone: Tone::Plain },
        ],
{
}

/// An invite is shown with its chat, who sent it and when, and the keys that answer
/// it.
pub proof fn invites_show_who_sent_them_and_when(invite: InviteView, clock: Clock)
    ensures
        ({
            let card = screen::invite_card(invite, clock);
            &&& card.len() == 5
            &&& card[0] == seq![
                SpanView { text: "Chat: "@, tone: Tone::Gray },
                SpanView { text: invite.chat_id, tone: Tone::Plain },
            ]
            &&& card[1] == seq![
                SpanView { text: "From:  "@, tone: Tone::Gray },
                SpanView { text: invite.proposer, tone: Tone::Cyan },
            ]
            &&& card[2] == seq![
                SpanView { text: "When:  "@, tone: Tone::Gray },
                SpanView { text: clock.says(invite.proposed), tone: Tone::Plain },
            ]
            &&& card[3].len() == 0
            &&& card[4] == seq![
                SpanView { text: "Press  a  to Join   d  to Dismiss"@, tone: Tone::Yellow },
            ]
        }),
{
}

/// Each message is shown on its own, in the order in which they are listed: when
/// it was sent and by whom, every line of its body, and an empty line.
pub proof fn each_message_is_shown_on_its_own(
    a: Seq<MessageView>,
    b: Seq<MessageView>,
    message: MessageView,
    clock: Clock,
    i: int,
)
    ensures
        screen::message_cards(Seq::empty(), clock).len() == 0,
        screen::message_cards(a + b, clock) == screen::message_cards(a, clock)
            + screen::message_cards(b, clock),
        ({
            let shown = screen::message_cards(seq![message], clock);
            let body = text::lines(message.body);
            &&& shown.len() == body.len() + 2
            &&& shown[0] == seq![
                SpanView { text: "["@ + clock.says(message.sent) + "] "@, tone: Tone::Gray },
                SpanView { text: message.sender, tone: Tone::Cyan },
            ]
            &&& 0 <= i < body.len() ==> shown[i + 1] == seq![
                SpanView { text: body[i], tone: Tone::Plain },
            ]
            &&& shown.last().len() == 0
        }),
    decreases b.len(),
{
    reveal_with_fuel(screen::message_cards, 2);
    assert(seq![message].drop_last() =~= Seq::<MessageView>::empty());
    let card = screen::message_card(message, clock);
    assert(screen::message_cards(seq![message], clock) =~= card);
    if b.len() == 0 {
        assert(a + b =~= a);
        assert(screen::message_cards(a, clock) + screen::message_cards(b, clock)
            =~= screen::message_cards(a, clock));
    } else {
        each_message_is_shown_on_its_own(a, b.drop_last(), message, clock, i);
        assert((a + b).drop_last() =~= a + b.drop_last());
        assert(screen::message_cards(a + b, clock) =~= screen::message_cards(a, clock)
            + screen::message_cards(b, clock));
    }
}

/// The title above messages is what their chat is called, and how many they are.
pub proof fn titles_count_the_messages(chat: ChatView, count: nat)
    ensures
        screen::messages_title(chat, count) == chat::display_name(chat) + " ("@
            + numerals::decimal(count) + ")"@,
{
}

/// The message box shows what has been typed, however long. While an invite is
/// selected it says how to join; while it is empty and the keys go elsewhere, how
/// to type.
pub proof fn the_message_box_shows_what_is_typed(app: AppView, at: int)
    requires
        app.rows.len() == 0 && app.selected is None || app.selected == Some(at) && 0 <= at
            < app.rows.len(),
    ensures
        ({
            let invited = app.rows.len() > 0 && app.rows[at] is Invite;
            app.input_span() == (if invited {
                SpanView { text: "(invite selected — press a to join)"@, tone: Tone::Gray }
            } else if app.input.len() == 0 && app.pane != Pane::Input {
                SpanView { text: "(press Tab or i to type, Enter to send)"@, tone: Tone::Gray }
            } else {
                SpanView { text: app.input, tone: Tone::Plain }
            })
        }),
{
}

/// The status line starts with the account. It ends with the error, if there is
/// one; else with how many tasks are being worked on, if any are; else with what
/// the keys do.
pub proof fn the_status_line_shows_what_matters_most(app: AppView)
    ensures
        ({
            let line = app.status_line();
            &&& line.len() == 3
            &&& line[0] == SpanView { text: " "@ + app.account + " "@, tone: Tone::Green }
            &&& line[1] == SpanView { text: " | "@, tone: Tone::Plain }
            &&& app.error matches Some(error) ==> line[2] == SpanView {
                text: error,
                tone: Tone::Red,
            }
            &&& app.error is None && app.pending > 0 ==> line[2] == SpanView {
                text: "working ("@ + numerals::decimal(app.pending) + ")"@,
                tone: Tone::Yellow,
            }
            &&& app.error is None && app.pending == 0 ==> line[2] == SpanView {
                text: app.hint(),
                tone: Tone::Gray,
            }
        }),
{
}

/// The hint tells the keys of the pane that they go to.
pub proof fn hints_tell_the_keys_of_the_pane(app: AppView, at: int)
    requires
        app.rows.len() == 0 && app.selected is None || app.selected == Some(at) && 0 <= at
            < app.rows.len(),
    ensures
        app.pane == Pane::Chats && app.rows.len() > 0 && app.rows[at] is Invite ==> app.hint()
            == "j/k select  a join  d dismiss  n/g new  q quit"@,
        app.pane == Pane::Chats && (app.rows.len() == 0 || app.rows[at] is Chat) ==> app.hint()
            == "j/k select  Tab/i input  n direct  g group  m members  q quit"@,
        app.pane == Pane::Input ==> app.hint() == "Enter send  Up/Down chat  Esc/Tab back"@,
        app.pane == Pane::NewChat && app.new_chat is Some && app.new_chat->Some_0.group
            ==> app.hint() == "Tab field  Enter next/create  Esc cancel"@,
        app.pane == Pane::NewChat && app.new_chat is Some && !app.new_chat->Some_0.group
            ==> app.hint() == "Enter create  Esc cancel"@,
        app.pane == Pane::Members && app.members is Some ==> app.hint()
            == app.members->Some_0.hint(),
{
}

/// The hint for the member list tells the keys that work there.
pub proof fn member_hints_tell_the_keys_that_work(members: MembersView, at: int)
    requires
        members.rows.len() == 0 && members.selected is None || members.selected == Some(at) && 0
            <= at < members.rows.len(),
    ensures
        members.adding is Some ==> members.hint() == "Enter add  Esc cancel"@,
        members.adding is None && !members.group ==> members.hint()
            == "j/k select  Esc close  (direct chat — members are fixed)"@,
        members.adding is None && members.group && members.rows.len() > 0 && members.rows[at].owner
            ==> members.hint() == "j/k select  a add  d remove  p demote  Esc close"@,
        members.adding is None && members.group && (members.rows.len() == 0
            || !members.rows[at].owner) ==> members.hint()
            == "j/k select  a add  d remove  p promote  Esc close"@,
{
}

/// The title above the member list is that of the chat that is selected.
pub proof fn the_member_list_is_titled_by_its_chat(app: AppView, at: int)
    ensures
        app.selected == Some(at) && 0 <= at < app.rows.len() && app.rows[at] is Chat
            ==> app.members_title() == "Members — "@ + chat::display_name(app.rows[at]->Chat_0),
        app.selected is None || (app.selected == Some(at) && 0 <= at < app.rows.len()
            && app.rows[at] is Invite) ==> app.members_title() == "Members"@,
{
}

/// The cursor is one column into the box for the border and one on for each
/// character, but never past the last column inside.
pub proof fn the_cursor_follows_what_is_typed(area: Area, typed: nat)
    ensures
        screen::cursor_at(area, typed).1 == area.y + 1,
        area.width < 2 ==> screen::cursor_at(area, typed).0 == area.x,
        area.width >= 2 && typed + 1 <= area.width - 2 ==> screen::cursor_at(area, typed).0
            == area.x + 1 + typed,
        area.width >= 2 && typed + 1 > area.width - 2 ==> screen::cursor_at(area, typed).0
            == area.x + area.width - 2,
{
}

/// A popup leaves two columns free on each side unless it is as wide as it gets,
/// is as high as it needs to be unless that is higher than its area, and lies in
/// the middle: what is free on two opposite sides differs by one at most.
pub proof fn popups_lie_in_the_middle(area: Area, widest: u16, height: u16)
    requires
        area.is_on_screen(),
    ensures
        ({
            let popup = screen::popup_in(area, widest, height);
            let (left, top) = (popup.x - area.x, popup.y - area.y);
            let (right, bottom) = (
                area.width - popup.width - left,
                area.height - popup.height - top,
            );
            &&& popup.width == (if area.width < 4 {
                0
            } else if area.width - 4 < widest {
                area.width - 4
            } else {
                widest as int
            })
            &&& popup.height == (if height < area.height {
                height
            } else {
                area.height
            })
            &&& left <= right <= left + 1
            &&& top <= bottom <= top + 1
        }),
{
}

/// A field shows its label and what has been typed, with a cursor behind it while
/// the keys go there.
pub proof fn fields_show_what_is_typed(label: Seq<char>, value: Seq<char>)
    ensures
        screen::field_line(label, value, true) == seq![
            SpanView { text: label, tone: Tone::Yellow },
            SpanView { text: value + "_"@, tone: Tone::Plain },
        ],
        screen::field_line(label, value, false) == seq![
            SpanView { text: label, tone: Tone::Gray },
            SpanView { text: value, tone: Tone::Plain },
        ],
{
}

/// The form for a group chat has a field for the members and one for the name; that
/// for a direct chat one for the address. The field that is focused has the cursor.
pub proof fn forms_show_their_fields(form: NewChatView)
    ensures
        form.group ==> form.title() == "New Group Chat"@ && form.height() == 8 && form.form()
            == seq![
            screen::field_line("Members: "@, form.members, form.field == 0),
            screen::field_line("Name:    "@, form.name, form.field == 1),
            Seq::empty(),
            seq![
                SpanView {
                    text: "Members separated by spaces or commas. Name is optional."@,
                    tone: Tone::Gray,
                },
            ],
        ],
        !form.group ==> form.title() == "New Direct Chat"@ && form.height() == 6 && form.form()
            == seq![
            screen::field_line("Address: "@, form.members, form.field == 0),
            Seq::empty(),
            seq![SpanView { text: "Named after the other account."@, tone: Tone::Gray }],
        ],
{
}

/// A member's row shows its address, then whether it is an owner, then whether it
/// is the account itself.
pub proof fn members_show_their_role(address: Seq<char>, account: Seq<char>)
    ensures
        ({
            let plain = SpanView { text: address, tone: Tone::Plain };
            let owner = SpanView { text: "  owner"@, tone: Tone::Yellow };
            let you = SpanView { text: "  (you)"@, tone: Tone::Gray };
            let line = |owner: bool, account: Seq<char>|
                screen::member_line(ChatMemberView { address, owner }, account);
            &&& address != account ==> line(false, account) == seq![plain] && line(true, account)
                == seq![plain, owner]
            &&& line(false, address) == seq![plain, you]
            &&& line(true, address) == seq![plain, owner, you]
        }),
{
    let plain = SpanView { text: address, tone: Tone::Plain };
    let owner = SpanView { text: "  owner"@, tone: Tone::Yellow };
    let you = SpanView { text: "  (you)"@, tone: Tone::Gray };
    let member = ChatMemberView { address, owner: false };
    let boss = ChatMemberView { address, owner: true };
    if address != account {
        assert(screen::member_line(member, account) =~= seq![plain]);
        assert(screen::member_line(boss, account) =~= seq![plain, owner]);
    }
    assert(screen::member_line(member, address) =~= seq![plain, you]);
    assert(screen::member_line(boss, address) =~= seq![plain, owner, you]);
}

/// The member list shows every member in a row of its own, or that they are still
/// being loaded; it is as high as they need between its borders, with one more line
/// while an address is typed in, and at least one.
pub proof fn the_member_list_shows_every_member(
    members: MembersView,
    account: Seq<char>,
    i: int,
)
    ensures
        members.rows.len() == 0 ==> members.list(account) == seq![
            seq![SpanView { text: "(loading)"@, tone: Tone::Gray }],
        ],
        members.rows.len() > 0 ==> members.list(account).len() == members.rows.len(),
        0 <= i < members.rows.len() ==> members.list(account)[i] == screen::member_line(
            members.rows[i],
            account,
        ),
        members.adding matches Some(address) ==> members.field() == Some(
            screen::field_line("Add: "@, address, true),
        ) && members.field_height() == 1,
        members.adding is None ==> members.field() is None && members.field_height() == 0,
        ({
            let lines = members.rows.len() + 2 + (if members.adding is Some {
                1int
            } else {
                0
            });
            members.height() == (if lines <= 3 {
                3
            } else if lines <= 0xffff {
                lines
            } else {
                0xffff
            })
        }),
{
}

} // verus!
